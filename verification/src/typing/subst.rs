//! Substitutions of types for type variables.

use vstd::prelude::*;
use super::types::{lemma_view_of_app, TyVar, Type, TypeView};
use crate::model::views;

verus! {

/// The map that a list of bindings stands for. A later binding of a variable
/// replaces an earlier one.
pub open spec fn map_of(bindings: Seq<(nat, TypeView)>) -> Map<nat, TypeView>
    decreases bindings.len(),
{
    if bindings.len() == 0 {
        Map::empty()
    } else {
        map_of(bindings.drop_last()).insert(bindings.last().0, bindings.last().1)
    }
}

proof fn lemma_map_of_absent(bindings: Seq<(nat, TypeView)>, v: nat)
    requires
        forall|j: int| 0 <= j < bindings.len() ==> bindings[j].0 != v,
    ensures
        !map_of(bindings).contains_key(v),
    decreases bindings.len(),
{
    if bindings.len() > 0 {
        lemma_map_of_absent(bindings.drop_last(), v);
    }
}

proof fn lemma_map_of_found(bindings: Seq<(nat, TypeView)>, j: int)
    requires
        0 <= j < bindings.len(),
        forall|k: int| j < k < bindings.len() ==> bindings[k].0 != bindings[j].0,
    ensures
        map_of(bindings).contains_key(bindings[j].0),
        map_of(bindings)[bindings[j].0] == bindings[j].1,
    decreases bindings.len(),
{
    if j < bindings.len() - 1 {
        lemma_map_of_found(bindings.drop_last(), j);
    }
}

/// A finite map from type variables to types.
#[derive(Debug)]
pub struct Subst {
    bindings: Vec<(TyVar, Type)>,
}

impl View for Subst {
    type V = Map<nat, TypeView>;

    closed spec fn view(&self) -> Map<nat, TypeView> {
        map_of(views(self.bindings@))
    }
}

impl Subst {
    /// The substitution that binds nothing.
    pub fn new() -> (r: Self)
        ensures
            r@ == Map::<nat, TypeView>::empty(),
    {
        let r = Subst { bindings: Vec::new() };
        assert(views(r.bindings@) =~= Seq::<(nat, TypeView)>::empty());
        r
    }

    /// Binds `tv` to `ty`, in place of what it was bound to, if anything.
    pub fn bind(&mut self, tv: TyVar, ty: Type)
        ensures
            final(self)@ == old(self)@.insert(tv@, ty@),
    {
        self.bindings.push((tv, ty));
        proof {
            let after = views(self.bindings@);
            assert(after.drop_last() =~= views(old(self).bindings@));
            assert(after.last() == (tv@, ty@));
        }
    }

    /// What `tv` is bound to, if anything.
    pub fn lookup(&self, tv: &TyVar) -> (r: Option<&Type>)
        ensures
            match r {
                Some(ty) => self@.contains_key(tv@) && self@[tv@] == ty@,
                None => !self@.contains_key(tv@),
            },
    {
        let ghost all = views(self.bindings@);
        let mut i: usize = self.bindings.len();
        while i > 0
            invariant
                i <= self.bindings.len(),
                all == views(self.bindings@),
                forall|k: int| i <= k < all.len() ==> all[k].0 != tv@,
            decreases i,
        {
            i -= 1;
            if self.bindings[i].0.id() == tv.id() {
                proof {
                    assert(all[i as int] == (self.bindings@[i as int].0@, self.bindings@[i as int].1@));
                    lemma_map_of_found(all, i as int);
                }
                return Some(&self.bindings[i].1);
            }
            assert(all[i as int].0 == self.bindings@[i as int].0@);
        }
        proof {
            lemma_map_of_absent(all, tv@);
        }
        None
    }

    /// The type with every variable that the substitution binds replaced by
    /// what it is bound to.
    pub fn apply(&self, ty: &Type) -> (r: Type)
        ensures
            r@ == ty@.substitute(self@),
        decreases ty,
    {
        match ty {
            Type::Con(con, kind) => Type::Con(con.clone(), kind.clone()),
            Type::App(head, args) => {
                let new_head = Box::new(self.apply(head));
                let new_args = self.apply_all(args);
                proof {
                    lemma_view_of_app(*head, *args);
                    lemma_view_of_app(new_head, new_args);
                    TypeView::lemma_substitute_app((*head)@, views(args@), self@);
                }
                Type::App(new_head, new_args)
            },
            Type::Var(v) => match self.lookup(v) {
                Some(bound) => bound.clone(),
                None => Type::Var(*v),
            },
        }
    }

    /// Each of `types` after the substitution, in order.
    pub fn apply_all(&self, types: &Vec<Type>) -> (r: Vec<Type>)
        ensures
            views(r@) == TypeView::substitute_all(views(types@), self@),
        decreases types,
    {
        let mut out: Vec<Type> = Vec::new();
        let mut i: usize = 0;
        while i < types.len()
            invariant
                i <= types.len(),
                out@.len() == i,
                forall|j: int| 0 <= j < i ==> out@[j]@ == types@[j]@.substitute(self@),
            decreases types.len() - i,
        {
            proof {
                let ghost whole = *types;
                assert(decreases_to!(whole => whole[i as int]));
            }
            out.push(self.apply(&types[i]));
            i += 1;
        }
        assert(views(out@) =~= TypeView::substitute_all(views(types@), self@));
        out
    }
}

impl Default for Subst {
    fn default() -> (r: Self)
        ensures
            r@ == Map::<nat, TypeView>::empty(),
    {
        Subst::new()
    }
}

} // verus!
