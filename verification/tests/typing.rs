use std::rc::Rc;
use typed_lowering::fresh::IdSupply;
use typed_lowering::typing::env::Env;
use typed_lowering::typing::subst::Subst;
use typed_lowering::typing::types::{
    clone_types, fresh_tyvar, generalize, ForAll, TyCon, TyVar, Type,
};
use typed_lowering::typing::tyvars::TyVarSet;
use typed_lowering::typing::Kind;

fn name(s: &str) -> Rc<String> {
    Rc::new(s.to_string())
}

fn tv(n: u32) -> TyVar {
    let mut supply = IdSupply::starting_at(n);
    fresh_tyvar(&mut supply)
}

fn var(n: u32) -> Type {
    Type::Var(tv(n))
}

fn i32_ty() -> Type {
    Type::Con(TyCon::I32, Kind::Star)
}

fn bool_ty() -> Type {
    Type::Con(TyCon::Bool, Kind::Star)
}

fn func_ty(args: Vec<Type>) -> Type {
    Type::App(Box::new(Type::Con(TyCon::Func, Kind::Star)), args)
}

fn ids(vars: &Vec<TyVar>) -> Vec<u32> {
    let mut out = Vec::new();
    for v in vars {
        out.push(v.id());
    }
    out
}

#[test]
fn supply_counts_up() {
    let mut supply = IdSupply::new();
    assert_eq!(supply.peek(), 0);
    assert_eq!(supply.remaining(), u32::MAX);
    assert_eq!(supply.fresh_id(), 0);
    assert_eq!(supply.fresh_id(), 1);
    assert_eq!(supply.peek(), 2);
    assert_eq!(supply.remaining(), u32::MAX - 2);
    let mut late = IdSupply::starting_at(u32::MAX - 1);
    assert_eq!(late.remaining(), 1);
    assert_eq!(late.fresh_id(), u32::MAX - 1);
    assert_eq!(late.remaining(), 0);
    assert_eq!(IdSupply::default().peek(), 0);
}

#[test]
fn fresh_tyvars_differ() {
    let mut supply = IdSupply::starting_at(5);
    let a = fresh_tyvar(&mut supply);
    let b = fresh_tyvar(&mut supply);
    assert_eq!(a.id(), 5);
    assert_eq!(b.id(), 6);
    assert_ne!(a, b);
    assert_eq!(a, tv(5));
}

#[test]
fn kind_text() {
    assert_eq!(Kind::Star.describe(), "Star");
    let k = Kind::Arrow(
        Box::new(Kind::Star),
        Box::new(Kind::Arrow(Box::new(Kind::Star), Box::new(Kind::Star))),
    );
    assert_eq!(k.describe(), "Arrow(Star, Arrow(Star, Star))");
    assert_eq!(k.clone(), k);
}

#[test]
fn constructor_text() {
    assert_eq!(TyCon::I32.describe(), "i32");
    assert_eq!(TyCon::Bool.describe(), "bool");
    assert_eq!(TyCon::Unit.describe(), "()");
    assert_eq!(TyCon::Func.describe(), "->");
    assert_eq!(TyCon::Cus(name("Tree")).describe(), "Tree");
    assert_eq!(TyCon::Cus(name("")).describe(), "");
    assert_eq!(TyCon::Cus(name("Tree")).clone(), TyCon::Cus(name("Tree")));
}

#[test]
fn variable_text() {
    let mut out = String::from("<");
    tv(0).write_text(&mut out);
    out.push('>');
    assert_eq!(out, "<'a0>");
    assert_eq!(var(9).describe(), "'a9");
    assert_eq!(var(10).describe(), "'a10");
    assert_eq!(var(4070).describe(), "'a4070");
    assert_eq!(var(4294967294).describe(), "'a4294967294");
}

#[test]
fn type_text() {
    assert_eq!(i32_ty().describe(), "i32:Star");
    assert_eq!(func_ty(vec![]).describe(), "App(->:Star, [])");
    assert_eq!(func_ty(vec![i32_ty()]).describe(), "App(->:Star, [i32:Star])");
    assert_eq!(
        func_ty(vec![i32_ty(), var(3), func_ty(vec![bool_ty()])]).describe(),
        "App(->:Star, [i32:Star, 'a3, App(->:Star, [bool:Star])])"
    );
    let mut out = String::from("type ");
    bool_ty().write_text(&mut out);
    assert_eq!(out, "type bool:Star");
}

#[test]
fn type_clone_is_equal() {
    let ty = func_ty(vec![Type::Con(TyCon::Cus(name("T")), Kind::Star), var(1), func_ty(vec![])]);
    assert_eq!(ty.clone(), ty);
    let list = vec![i32_ty(), var(2)];
    assert_eq!(clone_types(&list), list);
}

#[test]
fn free_tyvars_of_constructor_is_empty() {
    let s = i32_ty().free_tyvars();
    assert!(s.is_empty());
    assert_eq!(s.len(), 0);
}

#[test]
fn free_tyvars_of_variable_is_itself() {
    let s = var(8).free_tyvars();
    assert_eq!(ids(s.vars()), vec![8]);
    assert!(s.contains(&tv(8)));
    assert!(!s.contains(&tv(7)));
}

#[test]
fn free_tyvars_in_discovery_order() {
    let head = Type::App(Box::new(var(5)), vec![var(1)]);
    let ty = Type::App(
        Box::new(head),
        vec![var(3), func_ty(vec![var(1), var(2), var(3)]), i32_ty(), var(5), var(0)],
    );
    assert_eq!(ids(ty.free_tyvars().vars()), vec![5, 1, 3, 2, 0]);
}

#[test]
fn collect_free_tyvars_keeps_what_is_there() {
    let mut acc = TyVarSet::new();
    assert!(acc.insert(tv(2)));
    assert!(acc.insert(tv(9)));
    func_ty(vec![var(1), var(2), var(3)]).collect_free_tyvars(&mut acc);
    assert_eq!(ids(&acc.into_vec()), vec![2, 9, 1, 3]);
}

#[test]
fn tyvar_set_insert_and_difference() {
    let mut a = TyVarSet::new();
    assert!(a.insert(tv(3)));
    assert!(a.insert(tv(1)));
    assert!(!a.insert(tv(3)));
    assert!(a.insert(tv(2)));
    assert_eq!(a.len(), 3);
    assert!(!a.is_empty());
    assert_eq!(ids(a.vars()), vec![3, 1, 2]);
    let mut b = TyVarSet::new();
    b.insert(tv(1));
    b.insert(tv(7));
    assert_eq!(ids(a.difference(&b).vars()), vec![3, 2]);
    assert_eq!(ids(b.difference(&a).vars()), vec![7]);
    assert_eq!(ids(a.difference(&a).vars()), Vec::<u32>::new());
    assert_eq!(ids(a.difference(&TyVarSet::new()).vars()), vec![3, 1, 2]);
}

#[test]
fn subst_replaces_bound_variables_only() {
    let mut s = Subst::new();
    s.bind(tv(1), i32_ty());
    s.bind(tv(2), var(1));
    let ty = func_ty(vec![var(1), var(2), var(3), bool_ty()]);
    // what is put in for 'a2 is not searched again
    assert_eq!(s.apply(&ty), func_ty(vec![i32_ty(), var(1), var(3), bool_ty()]));
    assert_eq!(s.apply(&bool_ty()), bool_ty());
    assert_eq!(Subst::new().apply(&ty), ty);
    assert_eq!(Subst::default().apply(&var(1)), var(1));
}

#[test]
fn subst_reaches_the_head_of_an_application() {
    let mut s = Subst::new();
    s.bind(tv(0), Type::Con(TyCon::Func, Kind::Star));
    let ty = Type::App(Box::new(var(0)), vec![var(0)]);
    assert_eq!(
        s.apply(&ty),
        Type::App(
            Box::new(Type::Con(TyCon::Func, Kind::Star)),
            vec![Type::Con(TyCon::Func, Kind::Star)]
        )
    );
}

#[test]
fn subst_later_binding_wins() {
    let mut s = Subst::new();
    assert!(s.lookup(&tv(1)).is_none());
    s.bind(tv(1), i32_ty());
    assert_eq!(s.lookup(&tv(1)), Some(&i32_ty()));
    s.bind(tv(1), bool_ty());
    assert_eq!(s.lookup(&tv(1)), Some(&bool_ty()));
    assert!(s.lookup(&tv(2)).is_none());
    assert_eq!(s.apply(&var(1)), bool_ty());
    assert_eq!(s.apply_all(&vec![var(1), var(2)]), vec![bool_ty(), var(2)]);
}

#[test]
fn scheme_getters() {
    let s = ForAll::new(vec![tv(1), tv(2)], func_ty(vec![var(1), var(2)]));
    assert_eq!(ids(s.bound_vars()), vec![1, 2]);
    assert_eq!(*s.ty(), func_ty(vec![var(1), var(2)]));
    assert!(!s.is_monotype());
    assert!(ForAll::new(vec![], i32_ty()).is_monotype());
    assert_eq!(s.clone(), s);
}

#[test]
fn scheme_free_tyvars_leave_out_its_bound_variables() {
    let s = ForAll::new(vec![tv(1)], func_ty(vec![var(1), var(2)]));
    assert_eq!(ids(s.free_tyvars().vars()), vec![2]);
    let s = ForAll::new(vec![tv(1)], func_ty(vec![var(3), var(1), var(2), var(3)]));
    assert_eq!(ids(s.free_tyvars().vars()), vec![3, 2]);
    let mono = ForAll::new(vec![], func_ty(vec![var(2), var(1)]));
    assert_eq!(ids(mono.free_tyvars().vars()), vec![2, 1]);
    let closed = ForAll::new(vec![tv(1), tv(2), tv(1)], func_ty(vec![var(2), var(1)]));
    assert!(closed.free_tyvars().is_empty());
    // a bound variable that does not occur takes nothing away
    let s = ForAll::new(vec![tv(9)], var(4));
    assert_eq!(ids(s.free_tyvars().vars()), vec![4]);
}

#[test]
fn instantiate_takes_one_fresh_variable_per_bound_variable() {
    let s = ForAll::new(vec![tv(0), tv(1)], func_ty(vec![var(0), var(1), var(0)]));
    let mut supply = IdSupply::starting_at(10);
    let (fresh, ty) = s.instantiate(&mut supply);
    assert_eq!(ids(&fresh), vec![10, 11]);
    assert_eq!(ty, func_ty(vec![var(10), var(11), var(10)]));
    assert_eq!(supply.peek(), 12);
}

#[test]
fn instantiating_twice_shares_no_variable() {
    let s = ForAll::new(vec![tv(0), tv(1)], func_ty(vec![var(0), var(1)]));
    let mut supply = IdSupply::starting_at(2);
    let (fresh1, ty1) = s.instantiate(&mut supply);
    let (fresh2, ty2) = s.instantiate(&mut supply);
    assert_eq!(ids(&fresh1), vec![2, 3]);
    assert_eq!(ids(&fresh2), vec![4, 5]);
    let vars1 = ids(ty1.free_tyvars().vars());
    let vars2 = ids(ty2.free_tyvars().vars());
    assert_eq!(vars1, vec![2, 3]);
    assert_eq!(vars2, vec![4, 5]);
    for v in &vars1 {
        assert!(!vars2.contains(v));
        assert!(*v >= 2);
    }
}

#[test]
fn instantiate_leaves_unbound_variables() {
    let s = ForAll::new(vec![tv(0)], func_ty(vec![var(0), var(5)]));
    let mut supply = IdSupply::starting_at(20);
    let (fresh, ty) = s.instantiate(&mut supply);
    assert_eq!(ids(&fresh), vec![20]);
    assert_eq!(ty, func_ty(vec![var(20), var(5)]));
}

#[test]
fn instantiate_monotype_takes_nothing() {
    let s = ForAll::new(vec![], func_ty(vec![var(0), i32_ty()]));
    let mut supply = IdSupply::starting_at(3);
    let (fresh, ty) = s.instantiate(&mut supply);
    assert!(fresh.is_empty());
    assert_eq!(ty, func_ty(vec![var(0), i32_ty()]));
    assert_eq!(supply.peek(), 3);
}

#[test]
fn instantiate_variable_bound_twice_takes_its_last_fresh_one() {
    let s = ForAll::new(vec![tv(0), tv(0)], var(0));
    let mut supply = IdSupply::starting_at(7);
    let (fresh, ty) = s.instantiate(&mut supply);
    assert_eq!(ids(&fresh), vec![7, 8]);
    assert_eq!(ty, var(8));
}

#[test]
fn apply_subst_changes_the_body_only() {
    let mut s = ForAll::new(vec![tv(1)], func_ty(vec![var(1), var(2)]));
    let mut subst = Subst::new();
    subst.bind(tv(2), bool_ty());
    s.apply_subst(&subst);
    assert_eq!(ids(s.bound_vars()), vec![1]);
    assert_eq!(*s.ty(), func_ty(vec![var(1), bool_ty()]));
}

#[test]
fn env_binds_and_replaces() {
    let mut env = Env::new();
    assert!(env.lookup(1).is_none());
    env.insert(1, ForAll::new(vec![], var(4)));
    env.insert(2, ForAll::new(vec![], var(5)));
    assert_eq!(env.lookup(1), Some(&ForAll::new(vec![], var(4))));
    assert_eq!(ids(env.free_tyvars().vars()), vec![4, 5]);
    env.insert(1, ForAll::new(vec![], func_ty(vec![var(6), var(5)])));
    assert_eq!(env.lookup(1), Some(&ForAll::new(vec![], func_ty(vec![var(6), var(5)]))));
    assert_eq!(env.lookup(2), Some(&ForAll::new(vec![], var(5))));
    assert!(env.lookup(3).is_none());
    // the first binding was replaced where it stood
    assert_eq!(ids(env.free_tyvars().vars()), vec![6, 5]);
    assert!(Env::default().free_tyvars().is_empty());
}

#[test]
fn generalize_leaves_out_what_is_free_in_the_environment() {
    let mut env = Env::new();
    env.insert(1, ForAll::new(vec![], var(2)));
    let ty = func_ty(vec![var(1), var(2), var(1), var(3)]);
    let s = generalize(ty, &env);
    assert_eq!(ids(s.bound_vars()), vec![1, 3]);
    assert_eq!(*s.ty(), func_ty(vec![var(1), var(2), var(1), var(3)]));
}

#[test]
fn generalize_in_the_empty_environment_binds_every_variable() {
    let s = generalize(func_ty(vec![var(9), var(4), var(9)]), &Env::new());
    assert_eq!(ids(s.bound_vars()), vec![9, 4]);
    let mono = generalize(i32_ty(), &Env::new());
    assert!(mono.is_monotype());
}

#[test]
fn generalize_binds_what_the_environment_only_binds() {
    let mut env = Env::new();
    env.insert(7, ForAll::new(vec![tv(1)], var(1)));
    let s = generalize(var(1), &env);
    assert_eq!(ids(s.bound_vars()), vec![1]);
    let mut env = Env::new();
    env.insert(7, ForAll::new(vec![tv(1)], func_ty(vec![var(1), var(3), var(1)])));
    let s = generalize(func_ty(vec![var(1), var(2), var(3)]), &env);
    assert_eq!(ids(s.bound_vars()), vec![1, 2]);
}

#[test]
fn env_free_tyvars_are_those_its_schemes_leave_free() {
    let mut env = Env::new();
    env.insert(1, ForAll::new(vec![tv(4)], func_ty(vec![var(4), var(5), var(6)])));
    env.insert(2, ForAll::new(vec![tv(5)], func_ty(vec![var(7), var(5), var(6), var(4)])));
    assert_eq!(ids(env.free_tyvars().vars()), vec![5, 6, 7, 4]);
    // a binding that is replaced no longer counts
    env.insert(1, ForAll::new(vec![tv(4), tv(5), tv(6)], func_ty(vec![var(4), var(5), var(6)])));
    assert_eq!(ids(env.free_tyvars().vars()), vec![7, 6, 4]);
    env.insert(2, ForAll::new(vec![], i32_ty()));
    assert!(env.free_tyvars().is_empty());
}

#[test]
fn tyvar_set_insert_all_skips_members() {
    let mut s = TyVarSet::new();
    s.insert(tv(2));
    s.insert_all(&vec![tv(3), tv(2), tv(1), tv(3)]);
    assert_eq!(ids(s.vars()), vec![2, 3, 1]);
    s.insert_all(&vec![]);
    assert_eq!(ids(s.vars()), vec![2, 3, 1]);
}

#[test]
fn instantiating_twice_shares_only_the_free_variables() {
    let s = ForAll::new(vec![tv(0), tv(1)], func_ty(vec![var(0), var(2), var(1), var(3)]));
    let mut supply = IdSupply::starting_at(4);
    let (fresh1, ty1) = s.instantiate(&mut supply);
    let (fresh2, ty2) = s.instantiate(&mut supply);
    assert_eq!(ids(&fresh1), vec![4, 5]);
    assert_eq!(ids(&fresh2), vec![6, 7]);
    assert_eq!(ty1, func_ty(vec![var(4), var(2), var(5), var(3)]));
    assert_eq!(ty2, func_ty(vec![var(6), var(2), var(7), var(3)]));
    assert_ne!(ty1, ty2);
    let vars1 = ids(ty1.free_tyvars().vars());
    let vars2 = ids(ty2.free_tyvars().vars());
    let mut shared = Vec::new();
    for v in &vars1 {
        if vars2.contains(v) {
            shared.push(*v);
        }
    }
    assert_eq!(shared, ids(s.free_tyvars().vars()));
    assert_eq!(shared, vec![2, 3]);
    for v in fresh1.iter().chain(fresh2.iter()) {
        assert!(v.id() >= 4 && v.id() < supply.peek());
    }
}

#[test]
fn tyvar_describe() {
    assert_eq!(tv(0).describe(), "'a0");
    assert_eq!(tv(305).describe(), "'a305");
}

#[test]
fn well_formed_types_apply_constructors() {
    assert!(i32_ty().is_well_formed());
    assert!(var(1).is_well_formed());
    assert!(func_ty(vec![var(1), func_ty(vec![i32_ty()])]).is_well_formed());
    // an application of an application of a constructor
    let curried = Type::App(Box::new(func_ty(vec![i32_ty()])), vec![bool_ty()]);
    assert!(curried.is_well_formed());
    assert!(curried.head_is_constructor());
    // a variable is applied
    let bad = Type::App(Box::new(var(0)), vec![i32_ty()]);
    assert!(!bad.is_well_formed());
    assert!(!bad.head_is_constructor());
    assert!(!func_ty(vec![i32_ty(), bad]).is_well_formed());
    let bad_head = Type::App(Box::new(Type::App(Box::new(var(0)), vec![])), vec![]);
    assert!(!bad_head.is_well_formed());
}

#[test]
fn well_formed_schemes_bind_only_what_occurs() {
    assert!(ForAll::new(vec![], i32_ty()).is_well_formed());
    assert!(ForAll::new(vec![tv(1)], func_ty(vec![var(2), var(1)])).is_well_formed());
    assert!(!ForAll::new(vec![tv(1), tv(3)], func_ty(vec![var(2), var(1)])).is_well_formed());
    assert!(!ForAll::new(vec![tv(0)], i32_ty()).is_well_formed());
    let mut env = Env::new();
    env.insert(1, ForAll::new(vec![], var(2)));
    assert!(generalize(func_ty(vec![var(1), var(2)]), &env).is_well_formed());
}
