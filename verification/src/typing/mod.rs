//! Kinds, type terms, schemes, substitutions and environments.

use vstd::prelude::*;

pub mod env;
pub mod subst;
pub mod types;
pub mod tyvars;

verus! {

/// The arity of a type term: `Star` for a fully applied type, an arrow for a
/// constructor that still awaits an argument.
#[derive(Debug, PartialEq, Eq, Hash)]
pub enum Kind {
    Star,
    Arrow(Box<Kind>, Box<Kind>),
}

impl Clone for Kind {
    fn clone(&self) -> (r: Self)
        ensures
            r == *self,
        decreases self,
    {
        match self {
            Kind::Star => Kind::Star,
            Kind::Arrow(from, to) => Kind::Arrow(Box::new((**from).clone()), Box::new((**to).clone())),
        }
    }
}

impl Kind {
    /// How a kind is written in a message.
    pub open spec fn text(self) -> Seq<char>
        decreases self,
    {
        match self {
            Kind::Star => "Star"@,
            Kind::Arrow(from, to) => "Arrow("@ + (*from).text() + ", "@ + (*to).text() + ")"@,
        }
    }

    /// Appends the text of the kind to `out`.
    pub fn write_text(&self, out: &mut String)
        ensures
            final(out)@ == old(out)@ + self.text(),
        decreases self,
    {
        match self {
            Kind::Star => {
                out.append("Star");
            },
            Kind::Arrow(from, to) => {
                out.append("Arrow(");
                from.write_text(out);
                out.append(", ");
                to.write_text(out);
                out.append(")");
                assert(out@ =~= old(out)@ + self.text());
            },
        }
    }

    pub fn describe(&self) -> (r: String)
        ensures
            r@ == self.text(),
    {
        let mut out = String::new();
        self.write_text(&mut out);
        assert(out@ =~= self.text());
        out
    }
}

} // verus!
