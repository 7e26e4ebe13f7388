//! The middle of a small functional-language compiler: Hindley-Milner type
//! terms with schemes, substitution, generalization and instantiation, and
//! the pass that lowers a typed polymorphic tree to a monomorphic one.

use vstd::prelude::*;

pub mod fresh;
pub mod idtree;
pub mod ir;
pub mod model;
pub mod monoir;
pub mod shape;
pub mod simplify;
pub mod text;
pub mod typing;
pub mod xir;

verus! {

/// `lalrpop_util::ParseError`, the error of the parsers that LALRPOP
/// generates. Values of it are carried through; nothing inside them is read.
#[verifier::external_type_specification]
#[verifier::external_body]
#[verifier::reject_recursive_types(L)]
#[verifier::reject_recursive_types(T)]
#[verifier::reject_recursive_types(E)]
pub struct ExParseError<L, T, E>(lalrpop_util::ParseError<L, T, E>);

/// What went wrong, apart from the words of the message.
#[derive(Copy, Clone, Debug, PartialEq, Eq, Hash)]
pub enum ErrorKind {
    /// A constructor outside the monomorphic vocabulary, a built-in
    /// constructor at a kind other than `Star`, or an application whose head
    /// is not the function constructor.
    UnsupportedType,
    /// A type variable that survived type checking.
    UnresolvedTypeVariable,
    /// A function type without a return type.
    MalformedFunctionType,
    /// An expression form that has no lowering rule.
    UnsupportedExpression,
    /// A parse error of the front end.
    Syntax,
}

/// The single error type of the compiler: a kind and a description.
#[derive(Debug)]
pub struct Error {
    kind: ErrorKind,
    msg: String,
}

/// The mathematical value of an [`Error`].
pub struct ErrorView {
    pub kind: ErrorKind,
    pub msg: Seq<char>,
}

impl View for Error {
    type V = ErrorView;

    closed spec fn view(&self) -> ErrorView {
        ErrorView { kind: self.kind, msg: self.msg@ }
    }
}

impl Error {
    pub fn new(kind: ErrorKind, msg: String) -> (r: Self)
        ensures
            r@ == (ErrorView { kind, msg: msg@ }),
    {
        Error { kind, msg }
    }

    pub fn kind(&self) -> (r: ErrorKind)
        ensures
            r == self@.kind,
    {
        self.kind
    }

    pub fn description(&self) -> (r: &str)
        ensures
            r@ == self@.msg,
    {
        self.msg.as_str()
    }
}

/// `format!("{:?}", ..)` on a `lalrpop_util::ParseError`, that is the `Debug`
/// impl that lalrpop_util derives for it. Nothing is claimed of the text.
#[verifier::external_body]
fn parse_error_text<'a>(f: &lalrpop_util::ParseError<usize, (usize, &'a str), ()>) -> (text:
    String) {
    format!("{:?}", f)
}

impl<'a> From<lalrpop_util::ParseError<usize, (usize, &'a str), ()>> for Error {
    /// A syntax error whose description is the parser's account of `f`.
    fn from(f: lalrpop_util::ParseError<usize, (usize, &'a str), ()>) -> (r: Self)
        ensures
            r@.kind == ErrorKind::Syntax,
    {
        Error::new(ErrorKind::Syntax, parse_error_text(&f))
    }
}

impl<'a> vstd::std_specs::convert::FromSpecImpl<lalrpop_util::ParseError<usize, (usize, &'a str), ()>> for Error {
    open spec fn obeys_from_spec() -> bool {
        false
    }

    open spec fn from_spec(v: lalrpop_util::ParseError<usize, (usize, &'a str), ()>) -> Self {
        arbitrary()
    }
}

/// An outcome and its expected mathematical value agree: both succeed with
/// the same value, or both fail with the same error.
pub open spec fn agrees<T: View>(r: Result<T, Error>, expected: Result<T::V, ErrorView>) -> bool {
    match r {
        Ok(v) => expected == Ok::<T::V, ErrorView>(v@),
        Err(e) => expected == Err::<T::V, ErrorView>(e@),
    }
}

/// As [`agrees`], for an outcome that is a vector.
pub open spec fn agrees_all<T: View>(
    r: Result<Vec<T>, Error>,
    expected: Result<Seq<T::V>, ErrorView>,
) -> bool {
    match r {
        Ok(v) => expected == Ok::<Seq<T::V>, ErrorView>(crate::model::views(v@)),
        Err(e) => expected == Err::<Seq<T::V>, ErrorView>(e@),
    }
}

/// One stage of the compiler: it consumes its input and gives its output or
/// the first error met.
pub trait Pass {
    type Input;

    type Output;

    fn run(&mut self, source: Self::Input) -> Result<Self::Output, Error>;
}

} // verus!
