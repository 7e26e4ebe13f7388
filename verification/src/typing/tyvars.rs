//! Sets of type variables that remember the order in which they were filled.

use vstd::prelude::*;
use super::types::TyVar;
use crate::model::views;

verus! {

/// `acc` with `v` at its end, unless `acc` holds `v` already.
pub open spec fn insert_new(acc: Seq<nat>, v: nat) -> Seq<nat> {
    if acc.contains(v) {
        acc
    } else {
        acc.push(v)
    }
}

/// Inserting keeps a sequence free of repetitions and adds one member.
pub proof fn lemma_insert_new(acc: Seq<nat>, v: nat)
    ensures
        insert_new(acc, v).to_set() == acc.to_set().insert(v),
        acc.no_duplicates() ==> insert_new(acc, v).no_duplicates(),
{
    let r = insert_new(acc, v);
    assert forall|x: nat| r.to_set().contains(x) <==> acc.to_set().insert(v).contains(x) by {
        if acc.contains(v) {
        } else {
            if r.contains(x) {
                let i = choose|i: int| 0 <= i < r.len() && r[i] == x;
                if i < acc.len() {
                    assert(acc[i] == x);
                }
            }
            if acc.contains(x) {
                let i = choose|i: int| 0 <= i < acc.len() && acc[i] == x;
                assert(r[i] == x);
            }
            if x == v {
                assert(r[acc.len() as int] == v);
            }
        }
    }
    assert(r.to_set() =~= acc.to_set().insert(v));
}

/// `acc`, followed by the items of `more` that it lacks, each once, in the
/// order of `more`.
pub open spec fn append_new(acc: Seq<nat>, more: Seq<nat>) -> Seq<nat>
    decreases more.len(),
{
    if more.len() == 0 {
        acc
    } else {
        insert_new(append_new(acc, more.drop_last()), more.last())
    }
}

/// Appending adds exactly the items of `more`, and repeats none.
pub proof fn lemma_append_new(acc: Seq<nat>, more: Seq<nat>)
    ensures
        append_new(acc, more).to_set() == acc.to_set().union(more.to_set()),
        acc.no_duplicates() ==> append_new(acc, more).no_duplicates(),
    decreases more.len(),
{
    if more.len() == 0 {
        assert(more.to_set() =~= Set::<nat>::empty());
        assert(acc.to_set().union(more.to_set()) =~= acc.to_set());
    } else {
        let front = more.drop_last();
        lemma_append_new(acc, front);
        lemma_insert_new(append_new(acc, front), more.last());
        assert(more =~= front.push(more.last()));
        front.lemma_push_to_set_commute(more.last());
        assert(append_new(acc, more).to_set() =~= acc.to_set().union(more.to_set()));
    }
}

/// A finite set of type variables. Its members are kept in the order in
/// which they were first inserted, so that walking it gives the same
/// sequence on every run.
#[derive(Debug)]
pub struct TyVarSet {
    vars: Vec<TyVar>,
}

impl View for TyVarSet {
    type V = Set<nat>;

    open spec fn view(&self) -> Set<nat> {
        self.order().to_set()
    }
}

impl TyVarSet {
    #[verifier::type_invariant]
    spec fn distinct(self) -> bool {
        views(self.vars@).no_duplicates()
    }

    /// The members, in the order of their first insertion.
    pub closed spec fn order(&self) -> Seq<nat> {
        views(self.vars@)
    }

    pub fn new() -> (r: Self)
        ensures
            r.order() == Seq::<nat>::empty(),
    {
        let r = TyVarSet { vars: Vec::new() };
        assert(r.order() =~= Seq::<nat>::empty());
        r
    }

    pub fn len(&self) -> (r: usize)
        ensures
            r == self.order().len(),
            self.order().no_duplicates(),
    {
        proof {
            use_type_invariant(self);
        }
        self.vars.len()
    }

    pub fn is_empty(&self) -> (r: bool)
        ensures
            r == (self.order().len() == 0),
    {
        self.vars.len() == 0
    }

    pub fn contains(&self, v: &TyVar) -> (r: bool)
        ensures
            r == self.order().contains(v@),
            r == self@.contains(v@),
    {
        let mut i: usize = 0;
        while i < self.vars.len()
            invariant
                i <= self.vars.len(),
                forall|j: int| 0 <= j < i ==> self.order()[j] != v@,
            decreases self.vars.len() - i,
        {
            if self.vars[i].id() == v.id() {
                assert(self.order()[i as int] == v@);
                return true;
            }
            i += 1;
        }
        false
    }

    /// Adds `v` unless it is a member already; says whether it was added.
    pub fn insert(&mut self, v: TyVar) -> (added: bool)
        ensures
            final(self).order() == insert_new(old(self).order(), v@),
            added == !old(self).order().contains(v@),
            final(self).order().no_duplicates(),
    {
        proof {
            use_type_invariant(&*self);
            lemma_insert_new(self.order(), v@);
        }
        if self.contains(&v) {
            false
        } else {
            let mut taken = TyVarSet { vars: Vec::new() };
            std::mem::swap(self, &mut taken);
            let mut vars = taken.vars;
            vars.push(v);
            assert(views(vars@) =~= old(self).order().push(v@));
            *self = TyVarSet { vars };
            true
        }
    }

    /// Adds each of `vars` that is not a member yet, in the order of `vars`.
    pub fn insert_all(&mut self, vars: &Vec<TyVar>)
        ensures
            final(self).order() == append_new(old(self).order(), views(vars@)),
            final(self)@ == old(self)@.union(views(vars@).to_set()),
            final(self).order().no_duplicates(),
    {
        let ghost start = self.order();
        let ghost all = views(vars@);
        let mut i: usize = 0;
        proof {
            use_type_invariant(&*self);
            assert(all.take(0) =~= Seq::<nat>::empty());
        }
        while i < vars.len()
            invariant
                i <= vars.len(),
                all == views(vars@),
                self.order() == append_new(start, all.take(i as int)),
            decreases vars.len() - i,
        {
            self.insert(vars[i]);
            proof {
                assert(all.take(i + 1).drop_last() =~= all.take(i as int));
                assert(all.take(i + 1).last() == vars@[i as int]@);
            }
            i += 1;
        }
        proof {
            assert(all.take(i as int) =~= all);
            lemma_append_new(start, all);
        }
    }

    /// The members in order.
    pub fn vars(&self) -> (r: &Vec<TyVar>)
        ensures
            views(r@) == self.order(),
            self.order().no_duplicates(),
    {
        proof {
            use_type_invariant(self);
        }
        &self.vars
    }

    /// The members in order, as a vector of their own.
    pub fn into_vec(self) -> (r: Vec<TyVar>)
        ensures
            views(r@) == self.order(),
            self.order().no_duplicates(),
    {
        proof {
            use_type_invariant(&self);
        }
        self.vars
    }

    /// The members of `self` that `other` lacks, in the order of `self`.
    pub fn difference(&self, other: &TyVarSet) -> (r: TyVarSet)
        ensures
            r.order() == self.order().filter(|v: nat| !other@.contains(v)),
            r@ == self@.difference(other@),
    {
        let ghost keep = |v: nat| !other@.contains(v);
        let mut out = TyVarSet { vars: Vec::new() };
        let mut i: usize = 0;
        proof {
            use_type_invariant(self);
            assert(self.order().take(0) =~= Seq::<nat>::empty());
            assert(out.order() =~= self.order().take(0).filter(keep));
        }
        while i < self.vars.len()
            invariant
                i <= self.vars.len(),
                self.order().no_duplicates(),
                keep == |v: nat| !other@.contains(v),
                out.order() == self.order().take(i as int).filter(keep),
            decreases self.vars.len() - i,
        {
            let v = self.vars[i];
            proof {
                assert(self.order().take(i + 1) =~= self.order().take(i as int).push(v@));
                Seq::lemma_filter_push(self.order().take(i as int), v@, keep);
            }
            if !other.contains(&v) {
                let ghost before = out.order();
                proof {
                    assert(!before.contains(v@)) by {
                        if before.contains(v@) {
                            self.order().take(i as int).lemma_filter_contains_rev(keep, v@);
                            let j = choose|j: int| 0 <= j < i && self.order().take(i as int)[j] == v@;
                            assert(self.order()[j] == v@);
                            assert(self.order()[i as int] == v@);
                        }
                    }
                }
                out.insert(v);
            }
            i += 1;
        }
        proof {
            assert(self.order().take(i as int) =~= self.order());
            let whole = self.order();
            assert forall|x: nat| out@.contains(x) <==> self@.difference(other@).contains(x) by {
                if out.order().contains(x) {
                    whole.lemma_filter_contains_rev(keep, x);
                }
                if whole.contains(x) && keep(x) {
                    let j = choose|j: int| 0 <= j < whole.len() && whole[j] == x;
                    whole.lemma_filter_contains(keep, j);
                }
            }
            assert(out@ =~= self@.difference(other@));
        }
        out
    }
}

} // verus!
