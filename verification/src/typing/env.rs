//! Typing environments.

use vstd::prelude::*;
use super::types::{ForAll, ForAllView};
use super::tyvars::{append_new, lemma_append_new, TyVarSet};
use crate::model::views;

verus! {

/// The map that a list of bindings stands for. A later binding of an
/// identity replaces an earlier one.
pub open spec fn bindings_map(entries: Seq<(u32, ForAllView)>) -> Map<u32, ForAllView>
    decreases entries.len(),
{
    if entries.len() == 0 {
        Map::empty()
    } else {
        bindings_map(entries.drop_last()).insert(entries.last().0, entries.last().1)
    }
}

/// The place of the last binding of `id` in `entries`, or -1 where there is
/// none.
pub open spec fn position(entries: Seq<(u32, ForAllView)>, id: u32) -> int
    decreases entries.len(),
{
    if entries.len() == 0 {
        -1
    } else if entries.last().0 == id {
        entries.len() - 1
    } else {
        position(entries.drop_last(), id)
    }
}

/// `entries` with `id` bound to `scheme`: in the place of the last binding
/// of `id`, or at the end where `id` is not bound.
pub open spec fn put(entries: Seq<(u32, ForAllView)>, id: u32, scheme: ForAllView) -> Seq<
    (u32, ForAllView),
> {
    let at = position(entries, id);
    if at < 0 {
        entries.push((id, scheme))
    } else {
        entries.update(at, (id, scheme))
    }
}

/// No identity is bound twice in `entries`.
pub open spec fn distinct_keys(entries: Seq<(u32, ForAllView)>) -> bool {
    forall|i: int, j: int| 0 <= i < j < entries.len() ==> entries[i].0 != entries[j].0
}

/// `acc`, followed by the free variables of the schemes in `entries` that
/// `acc` lacks, entry by entry.
pub open spec fn collect_entries(entries: Seq<(u32, ForAllView)>, acc: Seq<nat>) -> Seq<nat>
    decreases entries.len(),
{
    if entries.len() == 0 {
        acc
    } else {
        append_new(collect_entries(entries.drop_last(), acc), entries.last().1.free_var_order())
    }
}

/// The variables that are free in a scheme of `entries`.
pub open spec fn entries_vars(entries: Seq<(u32, ForAllView)>) -> Set<nat> {
    Set::new(
        |v: nat|
            exists|i: int|
                0 <= i < entries.len() && (#[trigger] entries[i]).1.free_vars().contains(v),
    )
}

/// The variables that are free in a scheme that `m` binds an identity to.
pub open spec fn scheme_vars(m: Map<u32, ForAllView>) -> Set<nat> {
    Set::new(
        |v: nat| exists|id: u32| m.contains_key(id) && (#[trigger] m[id]).free_vars().contains(v),
    )
}

proof fn lemma_position(entries: Seq<(u32, ForAllView)>, id: u32)
    ensures
        -1 <= position(entries, id) < entries.len(),
        position(entries, id) >= 0 ==> entries[position(entries, id)].0 == id,
        forall|k: int| position(entries, id) < k < entries.len() ==> entries[k].0 != id,
    decreases entries.len(),
{
    if entries.len() > 0 && entries.last().0 != id {
        let front = entries.drop_last();
        lemma_position(front, id);
        assert forall|k: int| position(entries, id) < k < entries.len() implies entries[k].0
            != id by {
            if k < front.len() {
                assert(front[k].0 != id);
            }
        }
    }
}

proof fn lemma_position_is(entries: Seq<(u32, ForAllView)>, id: u32, j: int)
    requires
        -1 <= j < entries.len(),
        j >= 0 ==> entries[j].0 == id,
        forall|k: int| j < k < entries.len() ==> entries[k].0 != id,
    ensures
        position(entries, id) == j,
{
    lemma_position(entries, id);
}

/// Putting a binding into a list inserts it into the map of the list.
pub proof fn lemma_put_inserts(entries: Seq<(u32, ForAllView)>, id: u32, scheme: ForAllView)
    ensures
        bindings_map(put(entries, id, scheme)) == bindings_map(entries).insert(id, scheme),
    decreases entries.len(),
{
    let after = put(entries, id, scheme);
    let at = position(entries, id);
    lemma_position(entries, id);
    if at < 0 {
        assert(after.drop_last() =~= entries);
    } else if at == entries.len() - 1 {
        assert(after.drop_last() =~= entries.drop_last());
        assert(bindings_map(after) =~= bindings_map(entries).insert(id, scheme));
    } else {
        let front = entries.drop_last();
        lemma_position(front, id);
        lemma_put_inserts(front, id, scheme);
        assert(after.drop_last() =~= put(front, id, scheme));
        assert(after.last() == entries.last());
        assert(bindings_map(after) =~= bindings_map(entries).insert(id, scheme));
    }
}

/// Putting a binding into a list binds no identity twice.
pub proof fn lemma_put_distinct(entries: Seq<(u32, ForAllView)>, id: u32, scheme: ForAllView)
    requires
        distinct_keys(entries),
    ensures
        distinct_keys(put(entries, id, scheme)),
{
    lemma_position(entries, id);
}

/// Collecting over a list of bindings adds exactly the free variables of
/// their schemes, and repeats none.
pub proof fn lemma_collect_entries(entries: Seq<(u32, ForAllView)>, acc: Seq<nat>)
    ensures
        collect_entries(entries, acc).to_set() == acc.to_set().union(entries_vars(entries)),
        acc.no_duplicates() ==> collect_entries(entries, acc).no_duplicates(),
    decreases entries.len(),
{
    if entries.len() == 0 {
        assert(acc.to_set().union(entries_vars(entries)) =~= acc.to_set());
    } else {
        let front = entries.drop_last();
        let before = collect_entries(front, acc);
        lemma_collect_entries(front, acc);
        entries.last().1.lemma_free_var_order();
        lemma_append_new(before, entries.last().1.free_var_order());
        let vars = entries.last().1.free_vars();
        assert forall|v: nat|
            entries_vars(entries).contains(v) <==> entries_vars(front).contains(v) || vars.contains(
                v,
            ) by {
            if entries_vars(entries).contains(v) {
                let i = choose|i: int|
                    0 <= i < entries.len() && (#[trigger] entries[i]).1.free_vars().contains(v);
                if i < front.len() {
                    assert(front[i].1.free_vars().contains(v));
                }
            }
            if entries_vars(front).contains(v) {
                let i = choose|i: int|
                    0 <= i < front.len() && (#[trigger] front[i]).1.free_vars().contains(v);
                assert(entries[i].1.free_vars().contains(v));
            }
            if vars.contains(v) {
                assert(entries[entries.len() - 1].1.free_vars().contains(v));
            }
        }
        assert(collect_entries(entries, acc).to_set() =~= acc.to_set().union(
            entries_vars(entries),
        ));
    }
}

/// Where no identity is bound twice, the free variables of the schemes in a
/// list are those of the schemes in its map.
pub proof fn lemma_entries_vars_of_map(entries: Seq<(u32, ForAllView)>)
    requires
        distinct_keys(entries),
    ensures
        entries_vars(entries) == scheme_vars(bindings_map(entries)),
{
    let m = bindings_map(entries);
    assert forall|v: nat| entries_vars(entries).contains(v) <==> scheme_vars(m).contains(v) by {
        if entries_vars(entries).contains(v) {
            let i = choose|i: int|
                0 <= i < entries.len() && (#[trigger] entries[i]).1.free_vars().contains(v);
            lemma_bindings_map_found(entries, i);
            assert(m.contains_key(entries[i].0) && m[entries[i].0].free_vars().contains(v));
        }
        if scheme_vars(m).contains(v) {
            let id = choose|id: u32| m.contains_key(id) && (#[trigger] m[id]).free_vars().contains(v);
            lemma_position(entries, id);
            let at = position(entries, id);
            if at < 0 {
                lemma_bindings_map_absent(entries, id);
            } else {
                lemma_bindings_map_found(entries, at);
                assert(entries[at].1.free_vars().contains(v));
            }
        }
    }
    assert(entries_vars(entries) =~= scheme_vars(m));
}

/// A typing environment: it binds the identities of term variables to their
/// schemes, each identity once.
#[derive(Debug)]
pub struct Env {
    bindings: Vec<(u32, ForAll)>,
}

impl View for Env {
    type V = Map<u32, ForAllView>;

    open spec fn view(&self) -> Map<u32, ForAllView> {
        bindings_map(self.entries())
    }
}

impl Env {
    #[verifier::type_invariant]
    spec fn bound_once(self) -> bool {
        distinct_keys(views(self.bindings@))
    }

    /// The bindings, in the order in which their identities were first
    /// bound.
    pub closed spec fn entries(&self) -> Seq<(u32, ForAllView)> {
        views(self.bindings@)
    }

    /// The variables that are free in the environment: those that are free
    /// in a scheme that it binds an identity to.
    pub open spec fn free_vars(&self) -> Set<nat> {
        scheme_vars(self@)
    }

    /// The free variables, each once, binding by binding.
    pub open spec fn free_var_order(&self) -> Seq<nat> {
        collect_entries(self.entries(), Seq::empty())
    }

    /// The environment that binds nothing.
    pub fn new() -> (r: Self)
        ensures
            r.entries() == Seq::<(u32, ForAllView)>::empty(),
            r@ == Map::<u32, ForAllView>::empty(),
    {
        let r = Env { bindings: Vec::new() };
        assert(r.entries() =~= Seq::<(u32, ForAllView)>::empty());
        r
    }

    /// Where the binding of `id` stands, if there is one.
    fn find(&self, id: u32) -> (r: Option<usize>)
        ensures
            distinct_keys(self.entries()),
            match r {
                Some(at) => at < self.entries().len() && position(self.entries(), id) == at,
                None => position(self.entries(), id) == -1,
            },
    {
        let ghost all = self.entries();
        proof {
            use_type_invariant(self);
        }
        let mut i: usize = self.bindings.len();
        while i > 0
            invariant
                i <= self.bindings.len(),
                all == self.entries(),
                distinct_keys(all),
                forall|k: int| i <= k < all.len() ==> all[k].0 != id,
            decreases i,
        {
            i -= 1;
            assert(all[i as int].0 == self.bindings@[i as int].0);
            if self.bindings[i].0 == id {
                proof {
                    lemma_position_is(all, id, i as int);
                }
                return Some(i);
            }
        }
        proof {
            lemma_position_is(all, id, -1);
        }
        None
    }

    /// Binds `id` to `scheme`, in place of what it was bound to, if anything.
    pub fn insert(&mut self, id: u32, scheme: ForAll)
        ensures
            final(self).entries() == put(old(self).entries(), id, scheme@),
            final(self)@ == old(self)@.insert(id, scheme@),
            distinct_keys(final(self).entries()),
    {
        let ghost all = self.entries();
        let found = self.find(id);
        proof {
            lemma_put_inserts(all, id, scheme@);
            lemma_put_distinct(all, id, scheme@);
        }
        let mut taken = Env { bindings: Vec::new() };
        std::mem::swap(self, &mut taken);
        let mut bindings = taken.bindings;
        match found {
            Some(at) => {
                bindings[at] = (id, scheme);
                assert(views(bindings@) =~= all.update(at as int, (id, scheme@)));
            },
            None => {
                bindings.push((id, scheme));
                assert(views(bindings@) =~= all.push((id, scheme@)));
            },
        }
        *self = Env { bindings };
    }

    /// The scheme that `id` is bound to, if any.
    pub fn lookup(&self, id: u32) -> (r: Option<&ForAll>)
        ensures
            match r {
                Some(scheme) => self@.contains_key(id) && self@[id] == scheme@,
                None => !self@.contains_key(id),
            },
    {
        let ghost all = self.entries();
        proof {
            lemma_position(all, id);
        }
        match self.find(id) {
            Some(at) => {
                proof {
                    assert(all[at as int] == (self.bindings@[at as int].0, self.bindings@[at as int].1@));
                    lemma_bindings_map_found(all, at as int);
                }
                Some(&self.bindings[at].1)
            },
            None => {
                proof {
                    lemma_bindings_map_absent(all, id);
                }
                None
            },
        }
    }

    /// The variables that are free in the environment.
    pub fn free_tyvars(&self) -> (r: TyVarSet)
        ensures
            r@ == self.free_vars(),
            r.order() == self.free_var_order(),
    {
        let ghost all = self.entries();
        let mut acc = TyVarSet::new();
        let mut i: usize = 0;
        proof {
            assert(all.take(0) =~= Seq::<(u32, ForAllView)>::empty());
        }
        while i < self.bindings.len()
            invariant
                i <= self.bindings.len(),
                all == self.entries(),
                acc.order() == collect_entries(all.take(i as int), Seq::empty()),
            decreases self.bindings.len() - i,
        {
            let free = self.bindings[i].1.free_tyvars();
            acc.insert_all(free.vars());
            proof {
                assert(all.take(i + 1).drop_last() =~= all.take(i as int));
                assert(all.take(i + 1).last() == (
                    self.bindings@[i as int].0,
                    self.bindings@[i as int].1@,
                ));
            }
            i += 1;
        }
        proof {
            use_type_invariant(self);
            assert(all.take(i as int) =~= all);
            lemma_collect_entries(all, Seq::empty());
            lemma_entries_vars_of_map(all);
            assert(Seq::<nat>::empty().to_set() =~= Set::<nat>::empty());
            assert(Set::<nat>::empty().union(entries_vars(all)) =~= entries_vars(all));
        }
        acc
    }
}

impl Default for Env {
    fn default() -> (r: Self)
        ensures
            r@ == Map::<u32, ForAllView>::empty(),
    {
        Env::new()
    }
}

proof fn lemma_bindings_map_absent(entries: Seq<(u32, ForAllView)>, id: u32)
    requires
        forall|j: int| 0 <= j < entries.len() ==> entries[j].0 != id,
    ensures
        !bindings_map(entries).contains_key(id),
    decreases entries.len(),
{
    if entries.len() > 0 {
        lemma_bindings_map_absent(entries.drop_last(), id);
    }
}

proof fn lemma_bindings_map_found(entries: Seq<(u32, ForAllView)>, j: int)
    requires
        0 <= j < entries.len(),
        forall|k: int| j < k < entries.len() ==> entries[k].0 != entries[j].0,
    ensures
        bindings_map(entries).contains_key(entries[j].0),
        bindings_map(entries)[entries[j].0] == entries[j].1,
    decreases entries.len(),
{
    if j < entries.len() - 1 {
        lemma_bindings_map_found(entries.drop_last(), j);
    }
}

} // verus!
