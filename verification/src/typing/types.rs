//! Type variables, constructors and terms.

use vstd::prelude::*;
use std::rc::Rc;
use super::env::Env;
use super::subst::Subst;
use super::Kind;
use crate::fresh::IdSupply;
use super::tyvars::{insert_new, lemma_append_new, lemma_insert_new, TyVarSet};
use crate::model::views;
use crate::text::{decimal, write_decimal};

verus! {

/// A type variable. Two are the same variable iff their identities are equal.
/// Its view is its identity.
#[derive(Copy, Clone, Debug, Hash, PartialEq, Eq)]
pub struct TyVar(u32);

impl View for TyVar {
    type V = nat;

    closed spec fn view(&self) -> nat {
        self.0 as nat
    }
}

impl TyVar {
    pub fn id(&self) -> (r: u32)
        ensures
            r == self@,
    {
        self.0
    }

    /// How a variable is written in a message.
    pub open spec fn text(v: nat) -> Seq<char> {
        "'a"@ + decimal(v)
    }

    pub fn write_text(&self, out: &mut String)
        ensures
            final(out)@ == old(out)@ + TyVar::text(self@),
    {
        out.append("'a");
        write_decimal(self.0, out);
        assert(out@ =~= old(out)@ + TyVar::text(self@));
    }

    pub fn describe(&self) -> (r: String)
        ensures
            r@ == TyVar::text(self@),
    {
        let mut out = String::new();
        self.write_text(&mut out);
        assert(out@ =~= TyVar::text(self@));
        out
    }
}

/// Takes the next identity of `supply` as a type variable.
pub fn fresh_tyvar(supply: &mut IdSupply) -> (tv: TyVar)
    requires
        old(supply)@ < u32::MAX,
    ensures
        tv@ == old(supply)@,
        final(supply)@ == old(supply)@ + 1,
{
    TyVar(supply.fresh_id())
}

/// A type constructor: one of the built-in ones, or a named one.
#[derive(Debug, Hash, PartialEq, Eq)]
pub enum TyCon {
    Cus(Rc<String>),
    I32,
    Bool,
    Unit,
    Func,
}

pub enum TyConView {
    Cus(Seq<char>),
    I32,
    Bool,
    Unit,
    Func,
}

impl View for TyCon {
    type V = TyConView;

    open spec fn view(&self) -> TyConView {
        match self {
            TyCon::Cus(name) => TyConView::Cus(name@),
            TyCon::I32 => TyConView::I32,
            TyCon::Bool => TyConView::Bool,
            TyCon::Unit => TyConView::Unit,
            TyCon::Func => TyConView::Func,
        }
    }
}

impl Clone for TyCon {
    fn clone(&self) -> (r: Self)
        ensures
            r == *self,
    {
        match self {
            TyCon::Cus(name) => TyCon::Cus(name.clone()),
            TyCon::I32 => TyCon::I32,
            TyCon::Bool => TyCon::Bool,
            TyCon::Unit => TyCon::Unit,
            TyCon::Func => TyCon::Func,
        }
    }
}

impl TyConView {
    /// How a constructor is written in a message.
    pub open spec fn text(self) -> Seq<char> {
        match self {
            TyConView::Cus(name) => name,
            TyConView::I32 => "i32"@,
            TyConView::Bool => "bool"@,
            TyConView::Unit => "()"@,
            TyConView::Func => "->"@,
        }
    }
}

impl TyCon {
    pub fn write_text(&self, out: &mut String)
        ensures
            final(out)@ == old(out)@ + self@.text(),
    {
        match self {
            TyCon::Cus(name) => {
                let s: &String = &**name;
                out.append(s.as_str());
            },
            TyCon::I32 => {
                out.append("i32");
            },
            TyCon::Bool => {
                out.append("bool");
            },
            TyCon::Unit => {
                out.append("()");
            },
            TyCon::Func => {
                out.append("->");
            },
        }
    }

    pub fn describe(&self) -> (r: String)
        ensures
            r@ == self@.text(),
    {
        let mut out = String::new();
        self.write_text(&mut out);
        assert(out@ =~= self@.text());
        out
    }
}

/// A type term.
#[derive(Debug, Hash, PartialEq, Eq)]
pub enum Type {
    Con(TyCon, Kind),
    App(Box<Type>, Vec<Type>),
    Var(TyVar),
}

/// The mathematical value of a [`Type`].
pub enum TypeView {
    Con(TyConView, Kind),
    App(Box<TypeView>, Seq<TypeView>),
    Var(nat),
}

impl Type {
    pub open spec fn model(self) -> TypeView
        decreases self,
    {
        match self {
            Type::Con(con, kind) => TypeView::Con(con@, kind),
            Type::App(head, args) => TypeView::App(
                Box::new((*head).model()),
                Seq::new(
                    args@.len(),
                    |i: int|
                        if 0 <= i < args@.len() {
                            args@[i].model()
                        } else {
                            TypeView::Var(0)
                        },
                ),
            ),
            Type::Var(v) => TypeView::Var(v@),
        }
    }
}

impl View for Type {
    type V = TypeView;

    open spec fn view(&self) -> TypeView {
        self.model()
    }
}

/// The view of an application is made of the views of its parts.
pub proof fn lemma_view_of_app(head: Box<Type>, args: Vec<Type>)
    ensures
        Type::App(head, args)@ == TypeView::App(Box::new((*head)@), views(args@)),
{
    assert(Type::App(head, args)@->App_1 =~= views(args@));
}

/// A copy of each of `types`, in order.
pub fn clone_types(types: &Vec<Type>) -> (r: Vec<Type>)
    ensures
        views(r@) == views(types@),
    decreases types,
{
    let mut copies: Vec<Type> = Vec::new();
    let mut i: usize = 0;
    while i < types.len()
        invariant
            i <= types.len(),
            copies@.len() == i,
            forall|j: int| 0 <= j < i ==> copies@[j]@ == types@[j]@,
        decreases types.len() - i,
    {
        proof {
            let ghost all = *types;
            assert(decreases_to!(all => all[i as int]));
        }
        copies.push(types[i].clone());
        i += 1;
    }
    assert(views(copies@) =~= views(types@));
    copies
}

impl Clone for Type {
    fn clone(&self) -> (r: Self)
        ensures
            r@ == self@,
        decreases self,
    {
        match self {
            Type::Con(con, kind) => Type::Con(con.clone(), kind.clone()),
            Type::App(head, args) => {
                let head_copy = Box::new((**head).clone());
                let args_copy = clone_types(args);
                proof {
                    lemma_view_of_app(head_copy, args_copy);
                    lemma_view_of_app(*head, *args);
                }
                Type::App(head_copy, args_copy)
            },
            Type::Var(v) => Type::Var(*v),
        }
    }
}

impl TypeView {
    /// How a type is written in a message.
    pub open spec fn text(self) -> Seq<char>
        decreases self,
    {
        match self {
            TypeView::Con(con, kind) => con.text() + ":"@ + kind.text(),
            TypeView::App(head, args) => "App("@ + (*head).text() + ", ["@ + TypeView::joined(args)
                + "])"@,
            TypeView::Var(v) => TyVar::text(v),
        }
    }

    /// The texts of `types`, with a comma and a space between neighbours.
    pub open spec fn joined(types: Seq<TypeView>) -> Seq<char>
        decreases types,
    {
        if types.len() == 0 {
            Seq::empty()
        } else if types.len() == 1 {
            types[0].text()
        } else {
            TypeView::joined(types.drop_last()) + ", "@ + types.last().text()
        }
    }

    /// What is applied in the end: the type itself, or the head of its head.
    pub open spec fn head(self) -> TypeView
        decreases self,
    {
        match self {
            TypeView::App(head, _) => (*head).head(),
            _ => self,
        }
    }

    /// Whether every application in the type is, in the end, the
    /// application of a constructor.
    pub open spec fn well_formed(self) -> bool
        decreases self,
    {
        match self {
            TypeView::App(head, args) => {
                &&& (*head).well_formed()
                &&& (*head).head() is Con
                &&& forall|i: int| 0 <= i < args.len() ==> (#[trigger] args[i]).well_formed()
            },
            _ => true,
        }
    }

    /// The variables that occur in the type.
    pub open spec fn free_vars(self) -> Set<nat>
        decreases self,
    {
        match self {
            TypeView::Con(_, _) => Set::empty(),
            TypeView::App(head, args) => (*head).free_vars().union(TypeView::free_vars_of_all(args)),
            TypeView::Var(v) => set![v],
        }
    }

    /// The variables that occur in any of `types`.
    pub open spec fn free_vars_of_all(types: Seq<TypeView>) -> Set<nat>
        decreases types,
    {
        if types.len() == 0 {
            Set::empty()
        } else {
            TypeView::free_vars_of_all(types.drop_last()).union(types.last().free_vars())
        }
    }

    /// `acc`, followed by the variables of the type that `acc` lacks, each
    /// once, in the order in which a walk from left to right first meets them.
    pub open spec fn collect_vars(self, acc: Seq<nat>) -> Seq<nat>
        decreases self,
    {
        match self {
            TypeView::Con(_, _) => acc,
            TypeView::App(head, args) => TypeView::collect_vars_of_all(args, (*head).collect_vars(acc)),
            TypeView::Var(v) => insert_new(acc, v),
        }
    }

    pub open spec fn collect_vars_of_all(types: Seq<TypeView>, acc: Seq<nat>) -> Seq<nat>
        decreases types,
    {
        if types.len() == 0 {
            acc
        } else {
            types.last().collect_vars(TypeView::collect_vars_of_all(types.drop_last(), acc))
        }
    }

    /// The variables of the type, each once, in the order in which a walk
    /// from left to right first meets them.
    pub open spec fn free_var_order(self) -> Seq<nat> {
        self.collect_vars(Seq::empty())
    }

    /// The type with every variable that `m` binds replaced by what `m`
    /// binds it to. What is put in is not searched again.
    pub open spec fn substitute(self, m: Map<nat, TypeView>) -> TypeView
        decreases self,
    {
        match self {
            TypeView::Con(_, _) => self,
            TypeView::App(head, args) => TypeView::App(
                Box::new((*head).substitute(m)),
                Seq::new(
                    args.len(),
                    |i: int|
                        if 0 <= i < args.len() {
                            args[i].substitute(m)
                        } else {
                            TypeView::Var(0)
                        },
                ),
            ),
            TypeView::Var(v) => if m.contains_key(v) {
                m[v]
            } else {
                self
            },
        }
    }

    /// Each of `types` after the substitution, in order.
    pub open spec fn substitute_all(types: Seq<TypeView>, m: Map<nat, TypeView>) -> Seq<TypeView> {
        Seq::new(types.len(), |i: int| types[i].substitute(m))
    }

    /// Substitution goes through an application part by part.
    pub proof fn lemma_substitute_app(head: TypeView, args: Seq<TypeView>, m: Map<nat, TypeView>)
        ensures
            TypeView::App(Box::new(head), args).substitute(m) == TypeView::App(
                Box::new(head.substitute(m)),
                TypeView::substitute_all(args, m),
            ),
    {
        assert(TypeView::App(Box::new(head), args).substitute(m)->App_1 =~= TypeView::substitute_all(
            args,
            m,
        ));
    }

    /// Collecting adds exactly the variables of the type, and repeats none.
    pub proof fn lemma_collect_vars(self, acc: Seq<nat>)
        ensures
            self.collect_vars(acc).to_set() == acc.to_set().union(self.free_vars()),
            acc.no_duplicates() ==> self.collect_vars(acc).no_duplicates(),
        decreases self,
    {
        match self {
            TypeView::Con(_, _) => {
                assert(acc.to_set().union(self.free_vars()) =~= acc.to_set());
            },
            TypeView::App(head, args) => {
                (*head).lemma_collect_vars(acc);
                TypeView::lemma_collect_vars_of_all(args, (*head).collect_vars(acc));
                assert(self.collect_vars(acc).to_set() =~= acc.to_set().union(self.free_vars()));
            },
            TypeView::Var(v) => {
                lemma_insert_new(acc, v);
                assert(acc.to_set().insert(v) =~= acc.to_set().union(self.free_vars()));
            },
        }
    }

    pub proof fn lemma_collect_vars_of_all(types: Seq<TypeView>, acc: Seq<nat>)
        ensures
            TypeView::collect_vars_of_all(types, acc).to_set() == acc.to_set().union(
                TypeView::free_vars_of_all(types),
            ),
            acc.no_duplicates() ==> TypeView::collect_vars_of_all(types, acc).no_duplicates(),
        decreases types,
    {
        if types.len() == 0 {
            assert(acc.to_set().union(TypeView::free_vars_of_all(types)) =~= acc.to_set());
        } else {
            let before = TypeView::collect_vars_of_all(types.drop_last(), acc);
            TypeView::lemma_collect_vars_of_all(types.drop_last(), acc);
            types.last().lemma_collect_vars(before);
            assert(TypeView::collect_vars_of_all(types, acc).to_set() =~= acc.to_set().union(
                TypeView::free_vars_of_all(types),
            ));
        }
    }

    /// A variable of one of `types` is a variable of the list.
    pub proof fn lemma_member_vars(types: Seq<TypeView>, i: int, v: nat)
        requires
            0 <= i < types.len(),
            types[i].free_vars().contains(v),
        ensures
            TypeView::free_vars_of_all(types).contains(v),
        decreases types.len(),
    {
        if i < types.len() - 1 {
            TypeView::lemma_member_vars(types.drop_last(), i, v);
        }
    }

    /// A variable of the list is a variable of one of `types`.
    pub proof fn lemma_vars_member(types: Seq<TypeView>, v: nat) -> (i: int)
        requires
            TypeView::free_vars_of_all(types).contains(v),
        ensures
            0 <= i < types.len(),
            types[i].free_vars().contains(v),
        decreases types.len(),
    {
        if types.len() == 0 {
            0
        } else if types.last().free_vars().contains(v) {
            types.len() - 1
        } else {
            TypeView::lemma_vars_member(types.drop_last(), v)
        }
    }

    /// The variables of the type after a substitution that puts variables
    /// for variables: those that `m` does not bind, and those that `m` puts
    /// for the ones it binds.
    pub open spec fn renamed_vars(self, m: Map<nat, TypeView>) -> Set<nat> {
        Set::new(
            |w: nat|
                (self.free_vars().contains(w) && !m.contains_key(w)) || exists|v: nat|
                    self.free_vars().contains(v) && m.contains_key(v) && #[trigger] m[v]
                        == TypeView::Var(w),
        )
    }

    /// Where `m` binds variables to variables only, the variables of the
    /// substituted type are the renamed variables of the type.
    pub proof fn lemma_substituted_vars(self, m: Map<nat, TypeView>)
        requires
            forall|v: nat| m.contains_key(v) ==> #[trigger] m[v] is Var,
        ensures
            self.substitute(m).free_vars() == self.renamed_vars(m),
        decreases self,
    {
        let out = self.substitute(m).free_vars();
        let want = self.renamed_vars(m);
        match self {
            TypeView::Con(_, _) => {},
            TypeView::Var(v) => {
                assert(self.free_vars().contains(v));
                if m.contains_key(v) {
                    let w0 = m[v]->Var_0;
                    assert(m[v] == TypeView::Var(w0));
                    assert(want.contains(w0));
                }
            },
            TypeView::App(head, args) => {
                TypeView::lemma_substitute_app(*head, args, m);
                (*head).lemma_substituted_vars(m);
                let new_args = TypeView::substitute_all(args, m);
                assert forall|w: nat| out.contains(w) implies want.contains(w) by {
                    if (*head).substitute(m).free_vars().contains(w) {
                        assert((*head).renamed_vars(m).contains(w));
                        if (*head).free_vars().contains(w) && !m.contains_key(w) {
                            assert(self.free_vars().contains(w));
                        } else {
                            let v = choose|v: nat|
                                (*head).free_vars().contains(v) && m.contains_key(v)
                                    && #[trigger] m[v] == TypeView::Var(w);
                            assert(self.free_vars().contains(v));
                        }
                    } else {
                        let i = TypeView::lemma_vars_member(new_args, w);
                        args[i].lemma_substituted_vars(m);
                        assert(args[i].renamed_vars(m).contains(w));
                        if args[i].free_vars().contains(w) && !m.contains_key(w) {
                            TypeView::lemma_member_vars(args, i, w);
                            assert(self.free_vars().contains(w));
                        } else {
                            let v = choose|v: nat|
                                args[i].free_vars().contains(v) && m.contains_key(v)
                                    && #[trigger] m[v] == TypeView::Var(w);
                            TypeView::lemma_member_vars(args, i, v);
                            assert(self.free_vars().contains(v));
                        }
                    }
                }
                assert forall|w: nat| want.contains(w) implies out.contains(w) by {
                    let v = if self.free_vars().contains(w) && !m.contains_key(w) {
                        w
                    } else {
                        choose|v: nat|
                            self.free_vars().contains(v) && m.contains_key(v) && #[trigger] m[v]
                                == TypeView::Var(w)
                    };
                    if (*head).free_vars().contains(v) {
                        assert((*head).renamed_vars(m).contains(w));
                    } else {
                        let i = TypeView::lemma_vars_member(args, v);
                        args[i].lemma_substituted_vars(m);
                        assert(args[i].renamed_vars(m).contains(w));
                        assert(new_args[i] == args[i].substitute(m));
                        TypeView::lemma_member_vars(new_args, i, w);
                    }
                }
            },
        }
        assert(out =~= want);
    }

    /// The variables in order are the variables of the type, none twice.
    pub proof fn lemma_free_var_order(self)
        ensures
            self.free_var_order().to_set() == self.free_vars(),
            self.free_var_order().no_duplicates(),
    {
        self.lemma_collect_vars(Seq::empty());
        assert(Seq::<nat>::empty().to_set() =~= Set::<nat>::empty());
        assert(Set::<nat>::empty().union(self.free_vars()) =~= self.free_vars());
    }
}

/// Appends the texts of `types` to `out`, with a comma and a space between
/// neighbours.
pub fn write_joined(types: &Vec<Type>, out: &mut String)
    ensures
        final(out)@ == old(out)@ + TypeView::joined(views(types@)),
    decreases types,
{
    let ghost start = out@;
    let ghost all = views(types@);
    let mut i: usize = 0;
    proof {
        assert(all.take(0) =~= Seq::<TypeView>::empty());
        assert(out@ =~= start + TypeView::joined(all.take(0)));
    }
    while i < types.len()
        invariant
            i <= types.len(),
            all == views(types@),
            out@ == start + TypeView::joined(all.take(i as int)),
        decreases types.len() - i,
    {
        let ghost before = out@;
        if i > 0 {
            out.append(", ");
        }
        proof {
            let ghost whole = *types;
            assert(decreases_to!(whole => whole[i as int]));
        }
        types[i].write_text(out);
        proof {
            let next = all.take(i + 1);
            assert(next.drop_last() =~= all.take(i as int));
            assert(next.last() == types@[i as int]@);
            if i == 0 {
                assert(TypeView::joined(all.take(0)) =~= Seq::<char>::empty());
                assert(next[0] == next.last());
            }
            assert(out@ =~= start + TypeView::joined(next));
        }
        i += 1;
    }
    proof {
        assert(all.take(i as int) =~= all);
    }
}

impl Type {
    /// Appends the text of the type to `out`.
    pub fn write_text(&self, out: &mut String)
        ensures
            final(out)@ == old(out)@ + self@.text(),
        decreases self,
    {
        match self {
            Type::Con(con, kind) => {
                con.write_text(out);
                out.append(":");
                kind.write_text(out);
                assert(out@ =~= old(out)@ + self@.text());
            },
            Type::App(head, args) => {
                out.append("App(");
                head.write_text(out);
                out.append(", [");
                write_joined(args, out);
                out.append("])");
                proof {
                    lemma_view_of_app(*head, *args);
                    assert(out@ =~= old(out)@ + self@.text());
                }
            },
            Type::Var(v) => {
                v.write_text(out);
            },
        }
    }

    /// The text of the type, as messages show it.
    pub fn describe(&self) -> (r: String)
        ensures
            r@ == self@.text(),
    {
        let mut out = String::new();
        self.write_text(&mut out);
        assert(out@ =~= self@.text());
        out
    }

    /// Whether what is applied in the end is a constructor.
    pub fn head_is_constructor(&self) -> (r: bool)
        ensures
            r == (self@.head() is Con),
        decreases self,
    {
        match self {
            Type::Con(_, _) => true,
            Type::App(head, args) => {
                proof {
                    lemma_view_of_app(*head, *args);
                }
                head.head_is_constructor()
            },
            Type::Var(_) => false,
        }
    }

    /// Whether every application in the type is, in the end, the
    /// application of a constructor.
    pub fn is_well_formed(&self) -> (r: bool)
        ensures
            r == self@.well_formed(),
        decreases self,
    {
        match self {
            Type::App(head, args) => {
                proof {
                    lemma_view_of_app(*head, *args);
                }
                let a = head.is_well_formed();
                let b = head.head_is_constructor();
                let c = all_well_formed(args);
                assert(self@->App_1 == views(args@));
                a && b && c
            },
            _ => true,
        }
    }

    /// Adds to `acc` the variables of the type that it lacks, in the order
    /// in which a walk from left to right first meets them.
    pub fn collect_free_tyvars(&self, acc: &mut TyVarSet)
        ensures
            final(acc).order() == self@.collect_vars(old(acc).order()),
        decreases self,
    {
        match self {
            Type::Con(_, _) => {},
            Type::App(head, args) => {
                head.collect_free_tyvars(acc);
                collect_free_tyvars_of_all(args, acc);
                proof {
                    lemma_view_of_app(*head, *args);
                }
            },
            Type::Var(v) => {
                acc.insert(*v);
            },
        }
    }

    /// The variables that occur in the type.
    pub fn free_tyvars(&self) -> (r: TyVarSet)
        ensures
            r@ == self@.free_vars(),
            r.order() == self@.free_var_order(),
    {
        let mut acc = TyVarSet::new();
        self.collect_free_tyvars(&mut acc);
        proof {
            self@.lemma_free_var_order();
        }
        acc
    }
}

/// Whether each of `types` is well formed.
pub fn all_well_formed(types: &Vec<Type>) -> (r: bool)
    ensures
        r == (forall|i: int| 0 <= i < types@.len() ==> (#[trigger] views(types@)[i]).well_formed()),
    decreases types,
{
    let mut i: usize = 0;
    while i < types.len()
        invariant
            i <= types.len(),
            forall|j: int| 0 <= j < i ==> (#[trigger] views(types@)[j]).well_formed(),
        decreases types.len() - i,
    {
        proof {
            let ghost whole = *types;
            assert(decreases_to!(whole => whole[i as int]));
        }
        if !types[i].is_well_formed() {
            assert(!views(types@)[i as int].well_formed());
            return false;
        }
        assert(views(types@)[i as int].well_formed());
        i += 1;
    }
    true
}

/// Adds to `acc` the variables of `types` that it lacks, type by type.
pub fn collect_free_tyvars_of_all(types: &Vec<Type>, acc: &mut TyVarSet)
    ensures
        final(acc).order() == TypeView::collect_vars_of_all(views(types@), old(acc).order()),
    decreases types,
{
    let ghost start = acc.order();
    let ghost all = views(types@);
    let mut i: usize = 0;
    proof {
        assert(all.take(0) =~= Seq::<TypeView>::empty());
    }
    while i < types.len()
        invariant
            i <= types.len(),
            all == views(types@),
            acc.order() == TypeView::collect_vars_of_all(all.take(i as int), start),
        decreases types.len() - i,
    {
        proof {
            let ghost whole = *types;
            assert(decreases_to!(whole => whole[i as int]));
        }
        types[i].collect_free_tyvars(acc);
        proof {
            let next = all.take(i + 1);
            assert(next.drop_last() =~= all.take(i as int));
            assert(next.last() == types@[i as int]@);
        }
        i += 1;
    }
    proof {
        assert(all.take(i as int) =~= all);
    }
}

/// A type scheme: a type quantified over the variables in `bound_vars`.
#[derive(Debug, Hash, Eq, PartialEq)]
pub struct ForAll {
    bound_vars: Vec<TyVar>,
    ty: Type,
}

/// The mathematical value of a [`ForAll`].
pub struct ForAllView {
    pub bound_vars: Seq<nat>,
    pub ty: TypeView,
}

impl View for ForAll {
    type V = ForAllView;

    closed spec fn view(&self) -> ForAllView {
        ForAllView { bound_vars: views(self.bound_vars@), ty: self.ty@ }
    }
}

impl ForAllView {
    /// The substitution that binds the `i`-th of `bound` to the variable
    /// `first + i`. Where a variable stands twice in `bound`, its last place
    /// counts.
    pub open spec fn fresh_bindings(bound: Seq<nat>, first: nat) -> Map<nat, TypeView>
        decreases bound.len(),
    {
        if bound.len() == 0 {
            Map::empty()
        } else {
            ForAllView::fresh_bindings(bound.drop_last(), first).insert(
                bound.last(),
                TypeView::Var((first + bound.len() - 1) as nat),
            )
        }
    }

    /// The variables that an instantiation takes from a supply that stands
    /// at `first`: one for each bound variable, in order.
    pub open spec fn fresh_vars(self, first: nat) -> Seq<nat> {
        Seq::new(self.bound_vars.len(), |i: int| (first + i) as nat)
    }

    /// The body with each bound variable replaced by its fresh one.
    pub open spec fn instance(self, first: nat) -> TypeView {
        self.ty.substitute(ForAllView::fresh_bindings(self.bound_vars, first))
    }

    /// The variables that are free in the scheme: those of its body that it
    /// does not bind.
    pub open spec fn free_vars(self) -> Set<nat> {
        self.ty.free_vars().difference(self.bound_vars.to_set())
    }

    /// The free variables of the scheme, each once, in the order in which a
    /// walk of the body from left to right first meets them.
    pub open spec fn free_var_order(self) -> Seq<nat> {
        self.ty.free_var_order().filter(|v: nat| !self.bound_vars.contains(v))
    }

    /// Every variable of the body is bound.
    pub open spec fn is_closed(self) -> bool {
        self.ty.free_vars().subset_of(self.bound_vars.to_set())
    }

    /// Every bound variable occurs in the body.
    pub open spec fn well_formed(self) -> bool {
        forall|i: int|
            0 <= i < self.bound_vars.len() ==> self.ty.free_vars().contains(
                #[trigger] self.bound_vars[i],
            )
    }
}

impl ForAllView {
    /// The fresh bindings bind exactly the bound variables, each to a
    /// variable taken from the supply.
    pub proof fn lemma_fresh_bindings(bound: Seq<nat>, first: nat)
        ensures
            forall|v: nat|
                ForAllView::fresh_bindings(bound, first).contains_key(v) <==> bound.contains(v),
            forall|v: nat|
                ForAllView::fresh_bindings(bound, first).contains_key(v) ==> (
                #[trigger] ForAllView::fresh_bindings(bound, first)[v] matches TypeView::Var(w)
                    && first <= w < first + bound.len()),
        decreases bound.len(),
    {
        if bound.len() > 0 {
            let front = bound.drop_last();
            ForAllView::lemma_fresh_bindings(front, first);
            assert forall|v: nat|
                ForAllView::fresh_bindings(bound, first).contains_key(v) <==> bound.contains(
                    v,
                ) by {
                if bound.contains(v) {
                    let i = choose|i: int| 0 <= i < bound.len() && bound[i] == v;
                    if i < front.len() {
                        assert(front[i] == v);
                    }
                }
                if front.contains(v) {
                    let i = choose|i: int| 0 <= i < front.len() && front[i] == v;
                    assert(bound[i] == v);
                }
                assert(bound[bound.len() - 1] == bound.last());
            }
        }
    }

    /// The variables that two instantiations take from a supply, the second
    /// after the first, are all different, and none was handed out before
    /// the first.
    pub proof fn lemma_fresh_vars_are_new(self, first: nat, second: nat)
        requires
            first + self.bound_vars.len() <= second,
        ensures
            forall|i: int|
                0 <= i < self.bound_vars.len() ==> first <= #[trigger] self.fresh_vars(first)[i]
                    < first + self.bound_vars.len(),
            forall|i: int, j: int|
                0 <= i < self.bound_vars.len() && 0 <= j < self.bound_vars.len()
                    ==> #[trigger] self.fresh_vars(first)[i] != #[trigger] self.fresh_vars(
                    second,
                )[j],
            forall|i: int, j: int|
                0 <= i < j < self.bound_vars.len() ==> #[trigger] self.fresh_vars(first)[i]
                    != #[trigger] self.fresh_vars(first)[j],
    {
    }

    /// Two instantiations of a closed scheme, the second after the first,
    /// give types that share no variable; every variable of each was taken
    /// from the supply by that instantiation, so none was handed out before.
    pub proof fn lemma_instances_are_fresh(self, first: nat, second: nat)
        requires
            self.is_closed(),
            first + self.bound_vars.len() <= second,
        ensures
            forall|v: nat|
                self.instance(first).free_vars().contains(v) ==> first <= v < first
                    + self.bound_vars.len(),
            forall|v: nat|
                self.instance(second).free_vars().contains(v) ==> second <= v < second
                    + self.bound_vars.len(),
            self.instance(first).free_vars().disjoint(self.instance(second).free_vars()),
    {
        let n = self.bound_vars.len();
        ForAllView::lemma_fresh_bindings(self.bound_vars, first);
        ForAllView::lemma_fresh_bindings(self.bound_vars, second);
        assert forall|v: nat| self.ty.free_vars().contains(v) implies self.bound_vars.contains(
            v,
        ) by {
            assert(self.bound_vars.to_set().contains(v));
        }
        let m1 = ForAllView::fresh_bindings(self.bound_vars, first);
        let m2 = ForAllView::fresh_bindings(self.bound_vars, second);
        self.ty.lemma_substituted_vars(m1);
        self.ty.lemma_substituted_vars(m2);
        assert forall|w: nat| self.instance(first).free_vars().contains(w) implies first <= w
            < first + n by {
            let v = choose|v: nat|
                self.ty.free_vars().contains(v) && m1.contains_key(v) && #[trigger] m1[v]
                    == TypeView::Var(w);
            assert(m1[v] matches TypeView::Var(x) && first <= x < first + n);
        }
        assert forall|w: nat| self.instance(second).free_vars().contains(w) implies second <= w
            < second + n by {
            let v = choose|v: nat|
                self.ty.free_vars().contains(v) && m2.contains_key(v) && #[trigger] m2[v]
                    == TypeView::Var(w);
            assert(m2[v] matches TypeView::Var(x) && second <= x < second + n);
        }
    }
}

impl ForAllView {
    /// Of a scheme whose body holds only variables that were handed out
    /// before, two instantiations, the second after the first, give types
    /// that share the free variables of the scheme and nothing else: every
    /// other variable of each was taken from the supply by that
    /// instantiation. So the two types differ as soon as one bound variable
    /// occurs in the body.
    pub proof fn lemma_instances_share_only_free_vars(self, first: nat, second: nat)
        requires
            forall|v: nat| self.ty.free_vars().contains(v) ==> v < first,
            first + self.bound_vars.len() <= second,
        ensures
            forall|w: nat|
                self.instance(first).free_vars().contains(w) ==> self.free_vars().contains(w)
                    || first <= w < first + self.bound_vars.len(),
            forall|w: nat|
                self.instance(second).free_vars().contains(w) ==> self.free_vars().contains(w)
                    || second <= w < second + self.bound_vars.len(),
            self.instance(first).free_vars().intersect(self.instance(second).free_vars())
                == self.free_vars(),
            (exists|i: int|
                0 <= i < self.bound_vars.len() && self.ty.free_vars().contains(
                    #[trigger] self.bound_vars[i],
                )) ==> self.instance(first) != self.instance(second),
    {
        let n = self.bound_vars.len();
        let m1 = ForAllView::fresh_bindings(self.bound_vars, first);
        let m2 = ForAllView::fresh_bindings(self.bound_vars, second);
        let vars1 = self.instance(first).free_vars();
        let vars2 = self.instance(second).free_vars();
        ForAllView::lemma_fresh_bindings(self.bound_vars, first);
        ForAllView::lemma_fresh_bindings(self.bound_vars, second);
        self.ty.lemma_substituted_vars(m1);
        self.ty.lemma_substituted_vars(m2);
        assert forall|w: nat| vars1.contains(w) implies self.free_vars().contains(w) || first <= w
            < first + n by {
            if !(self.ty.free_vars().contains(w) && !m1.contains_key(w)) {
                let v = choose|v: nat|
                    self.ty.free_vars().contains(v) && m1.contains_key(v) && #[trigger] m1[v]
                        == TypeView::Var(w);
                assert(m1[v] matches TypeView::Var(x) && first <= x < first + n);
            }
        }
        assert forall|w: nat| vars2.contains(w) implies self.free_vars().contains(w) || second <= w
            < second + n by {
            if !(self.ty.free_vars().contains(w) && !m2.contains_key(w)) {
                let v = choose|v: nat|
                    self.ty.free_vars().contains(v) && m2.contains_key(v) && #[trigger] m2[v]
                        == TypeView::Var(w);
                assert(m2[v] matches TypeView::Var(x) && second <= x < second + n);
            }
        }
        assert forall|w: nat| self.free_vars().contains(w) implies vars1.contains(w)
            && vars2.contains(w) by {
            assert(!self.bound_vars.contains(w));
            assert(self.ty.renamed_vars(m1).contains(w));
            assert(self.ty.renamed_vars(m2).contains(w));
        }
        assert(vars1.intersect(vars2) =~= self.free_vars());
        if exists|i: int|
            0 <= i < n && self.ty.free_vars().contains(#[trigger] self.bound_vars[i]) {
            let i = choose|i: int|
                0 <= i < n && self.ty.free_vars().contains(#[trigger] self.bound_vars[i]);
            let v = self.bound_vars[i];
            assert(self.bound_vars.contains(v));
            let w = m1[v]->Var_0;
            assert(m1[v] == TypeView::Var(w));
            assert(self.ty.renamed_vars(m1).contains(w));
            assert(vars1.contains(w));
            assert(!vars2.contains(w));
        }
    }
}

impl ForAllView {
    /// The free variables in order are the free variables, none twice.
    pub proof fn lemma_free_var_order(self)
        ensures
            self.free_var_order().to_set() == self.free_vars(),
            self.free_var_order().no_duplicates(),
    {
        let live = self.bound_vars.to_set();
        lemma_generalized_excludes(self.ty, live);
        let by_set = |v: nat| !live.contains(v);
        let by_seq = |v: nat| !self.bound_vars.contains(v);
        assert(by_set =~= by_seq);
    }
}

/// Keeping the items that meet `keep` repeats no item that was not repeated.
pub proof fn lemma_filter_keeps_distinct(s: Seq<nat>, keep: spec_fn(nat) -> bool)
    requires
        s.no_duplicates(),
    ensures
        s.filter(keep).no_duplicates(),
    decreases s.len(),
{
    if s.len() == 0 {
        assert(s.filter(keep).len() == 0) by {
            s.lemma_filter_len(keep);
        }
    } else {
        let front = s.drop_last();
        lemma_filter_keeps_distinct(front, keep);
        assert(s =~= front.push(s.last()));
        Seq::lemma_filter_push(front, s.last(), keep);
        if keep(s.last()) {
            if front.filter(keep).contains(s.last()) {
                front.lemma_filter_contains_rev(keep, s.last());
                let i = choose|i: int| 0 <= i < front.len() && front[i] == s.last();
                assert(s[i] == s[s.len() - 1]);
            }
        }
    }
}

/// No variable that is live is quantified over, even if it occurs in the
/// type: the bound variables are exactly the variables of the type that are
/// not live, none of them twice.
pub proof fn lemma_generalized_excludes(ty: TypeView, live: Set<nat>)
    ensures
        forall|v: nat| live.contains(v) ==> !generalized(ty, live).bound_vars.contains(v),
        generalized(ty, live).bound_vars.to_set() == ty.free_vars().difference(live),
        generalized(ty, live).bound_vars.no_duplicates(),
{
    let keep = |v: nat| !live.contains(v);
    let order = ty.free_var_order();
    let bound = order.filter(keep);
    ty.lemma_free_var_order();
    lemma_filter_keeps_distinct(order, keep);
    assert forall|v: nat| bound.contains(v) <==> (order.contains(v) && !live.contains(v)) by {
        if bound.contains(v) {
            order.lemma_filter_contains_rev(keep, v);
            let i = choose|i: int| 0 <= i < bound.len() && bound[i] == v;
            order.lemma_filter_pred(keep, i);
        }
        if order.contains(v) && keep(v) {
            let j = choose|j: int| 0 <= j < order.len() && order[j] == v;
            order.lemma_filter_contains(keep, j);
        }
    }
    assert(bound.to_set() =~= ty.free_vars().difference(live));
}

/// The scheme that quantifies `ty` over those of its variables that are not
/// in `live`, in the order in which a walk of `ty` first meets them.
pub open spec fn generalized(ty: TypeView, live: Set<nat>) -> ForAllView {
    ForAllView { bound_vars: ty.free_var_order().filter(|v: nat| !live.contains(v)), ty }
}

impl Clone for ForAll {
    fn clone(&self) -> (r: Self)
        ensures
            r@ == self@,
    {
        let bound_vars = self.bound_vars.clone();
        assert(views(bound_vars@) =~= views(self.bound_vars@));
        ForAll { bound_vars, ty: self.ty.clone() }
    }
}

impl ForAll {
    pub fn new(bound_vars: Vec<TyVar>, ty: Type) -> (r: Self)
        ensures
            r@ == (ForAllView { bound_vars: views(bound_vars@), ty: ty@ }),
    {
        ForAll { bound_vars, ty }
    }

    pub fn bound_vars(&self) -> (r: &Vec<TyVar>)
        ensures
            views(r@) == self@.bound_vars,
    {
        &self.bound_vars
    }

    pub fn ty(&self) -> (r: &Type)
        ensures
            r@ == self@.ty,
    {
        &self.ty
    }

    /// Whether the scheme binds no variable.
    pub fn is_monotype(&self) -> (r: bool)
        ensures
            r == (self@.bound_vars.len() == 0),
    {
        self.bound_vars.len() == 0
    }

    /// Whether every bound variable occurs in the body.
    pub fn is_well_formed(&self) -> (r: bool)
        ensures
            r == self@.well_formed(),
    {
        let vars = self.ty.free_tyvars();
        let mut i: usize = 0;
        while i < self.bound_vars.len()
            invariant
                i <= self.bound_vars.len(),
                vars@ == self@.ty.free_vars(),
                forall|j: int| 0 <= j < i ==> vars@.contains(#[trigger] self@.bound_vars[j]),
            decreases self.bound_vars.len() - i,
        {
            if !vars.contains(&self.bound_vars[i]) {
                assert(!self@.ty.free_vars().contains(self@.bound_vars[i as int]));
                return false;
            }
            assert(vars@.contains(self@.bound_vars[i as int]));
            i += 1;
        }
        true
    }

    /// The variables that are free in the scheme: those of its body that it
    /// does not bind.
    pub fn free_tyvars(&self) -> (r: TyVarSet)
        ensures
            r@ == self@.free_vars(),
            r.order() == self@.free_var_order(),
    {
        let mut bound_tv = TyVarSet::new();
        bound_tv.insert_all(&self.bound_vars);
        let ftv = self.ty.free_tyvars();
        proof {
            let bound = self@.bound_vars;
            assert(Seq::<nat>::empty().to_set() =~= Set::<nat>::empty());
            assert(bound_tv@ =~= bound.to_set());
            let by_set = |v: nat| !bound_tv@.contains(v);
            let by_seq = |v: nat| !bound.contains(v);
            assert(by_set =~= by_seq);
        }
        ftv.difference(&bound_tv)
    }

    /// Takes one fresh variable from `supply` for each bound variable, in
    /// order, and replaces each bound variable in the body by its fresh one.
    /// Returns the fresh variables and the new body.
    pub fn instantiate(&self, supply: &mut IdSupply) -> (r: (Vec<TyVar>, Type))
        requires
            old(supply)@ + self@.bound_vars.len() <= u32::MAX,
        ensures
            views(r.0@) == self@.fresh_vars(old(supply)@),
            r.1@ == self@.instance(old(supply)@),
            final(supply)@ == old(supply)@ + self@.bound_vars.len(),
            r.0@.len() == self@.bound_vars.len(),
            forall|i: int|
                0 <= i < r.0@.len() ==> old(supply)@ <= (#[trigger] r.0@[i])@ < final(supply)@,
            forall|i: int, j: int|
                0 <= i < j < r.0@.len() ==> (#[trigger] r.0@[i])@ != (#[trigger] r.0@[j])@,
    {
        let ghost first = supply@;
        let ghost bound = views(self.bound_vars@);
        let mut subst = Subst::new();
        let mut tvs: Vec<TyVar> = Vec::new();
        let mut i: usize = 0;
        proof {
            assert(bound.take(0) =~= Seq::<nat>::empty());
        }
        while i < self.bound_vars.len()
            invariant
                i <= self.bound_vars.len(),
                bound == views(self.bound_vars@),
                first + bound.len() <= u32::MAX,
                supply@ == first + i,
                tvs@.len() == i,
                forall|j: int| 0 <= j < i ==> tvs@[j]@ == first + j,
                subst@ == ForAllView::fresh_bindings(bound.take(i as int), first),
            decreases self.bound_vars.len() - i,
        {
            let tv = fresh_tyvar(supply);
            tvs.push(tv);
            subst.bind(self.bound_vars[i], Type::Var(tv));
            proof {
                assert(bound.take(i + 1).drop_last() =~= bound.take(i as int));
                assert(bound.take(i + 1).last() == self.bound_vars@[i as int]@);
            }
            i += 1;
        }
        proof {
            assert(bound.take(i as int) =~= bound);
            assert(views(tvs@) =~= self@.fresh_vars(first));
        }
        (tvs, subst.apply(self.ty()))
    }

    /// Applies `subst` to the body of the scheme.
    pub fn apply_subst(&mut self, subst: &Subst)
        ensures
            final(self)@ == (ForAllView {
                bound_vars: old(self)@.bound_vars,
                ty: old(self)@.ty.substitute(subst@),
            }),
    {
        self.ty = subst.apply(&self.ty);
    }
}

/// Quantifies `ty` over those of its variables that are not free in `env`.
pub fn generalize(ty: Type, env: &Env) -> (r: ForAll)
    ensures
        r@ == generalized(ty@, env.free_vars()),
        r@.well_formed(),
{
    proof {
        lemma_generalized_excludes(ty@, env.free_vars());
        let bound = generalized(ty@, env.free_vars()).bound_vars;
        assert forall|i: int| 0 <= i < bound.len() implies ty@.free_vars().contains(
            #[trigger] bound[i],
        ) by {
            assert(bound.to_set().contains(bound[i]));
        }
    }
    let ftv1 = ty.free_tyvars();
    let ftv2 = env.free_tyvars();
    let ftv = ftv1.difference(&ftv2).into_vec();
    ForAll::new(ftv, ty)
}

} // verus!
