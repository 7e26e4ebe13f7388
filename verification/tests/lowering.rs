use std::rc::Rc;
use typed_lowering::fresh::IdSupply;
use typed_lowering::monoir;
use typed_lowering::simplify::{
    get_appty, get_type, get_types, process, process_bind, process_exprs, process_symbol,
    process_symbols, Simplify,
};
use typed_lowering::typing::types::{fresh_tyvar, TyCon, TyVar, Type};
use typed_lowering::typing::Kind;
use typed_lowering::xir;
use typed_lowering::{ErrorKind, Pass};

fn name(s: &str) -> Rc<String> {
    Rc::new(s.to_string())
}

fn tv(n: u32) -> TyVar {
    let mut supply = IdSupply::starting_at(n);
    fresh_tyvar(&mut supply)
}

fn i32_ty() -> Type {
    Type::Con(TyCon::I32, Kind::Star)
}

fn bool_ty() -> Type {
    Type::Con(TyCon::Bool, Kind::Star)
}

fn unit_ty() -> Type {
    Type::Con(TyCon::Unit, Kind::Star)
}

fn arrow() -> Kind {
    Kind::Arrow(Box::new(Kind::Star), Box::new(Kind::Star))
}

fn func_ty(args: Vec<Type>) -> Type {
    Type::App(Box::new(Type::Con(TyCon::Func, arrow())), args)
}

fn mono_func(params_ty: Vec<monoir::Type>, return_ty: monoir::Type) -> monoir::Type {
    monoir::Type::Function { params_ty, return_ty: Box::new(return_ty) }
}

fn sym(n: &str, ty: Type, id: u32) -> xir::Symbol {
    xir::Symbol::new(name(n), ty, id)
}

fn msym(n: &str, ty: monoir::Type, id: u32) -> monoir::Symbol {
    monoir::Symbol::new(name(n), ty, id)
}

#[test]
fn base_types_lower_to_their_namesakes() {
    assert_eq!(get_type(&i32_ty()).unwrap(), monoir::Type::I32);
    assert_eq!(get_type(&bool_ty()).unwrap(), monoir::Type::Bool);
    assert_eq!(get_type(&unit_ty()).unwrap(), monoir::Type::Unit);
    // the same again: the answer does not depend on what came before
    assert_eq!(get_type(&i32_ty()).unwrap(), monoir::Type::I32);
}

#[test]
fn function_type_splits_parameters_and_return() {
    let ty = func_ty(vec![i32_ty(), bool_ty(), unit_ty()]);
    assert_eq!(
        get_type(&ty).unwrap(),
        mono_func(vec![monoir::Type::I32, monoir::Type::Bool], monoir::Type::Unit)
    );
}

#[test]
fn function_type_of_one_argument_has_no_parameters() {
    let ty = func_ty(vec![i32_ty()]);
    assert_eq!(get_type(&ty).unwrap(), mono_func(vec![], monoir::Type::I32));
}

#[test]
fn function_type_nests() {
    let inner = func_ty(vec![i32_ty(), i32_ty()]);
    let ty = func_ty(vec![inner, bool_ty()]);
    assert_eq!(
        get_type(&ty).unwrap(),
        mono_func(
            vec![mono_func(vec![monoir::Type::I32], monoir::Type::I32)],
            monoir::Type::Bool
        )
    );
}

#[test]
fn function_kind_is_not_read() {
    let ty = Type::App(Box::new(Type::Con(TyCon::Func, Kind::Star)), vec![i32_ty(), unit_ty()]);
    assert_eq!(get_type(&ty).unwrap(), mono_func(vec![monoir::Type::I32], monoir::Type::Unit));
}

#[test]
fn malformed_function_type_fails() {
    let ty = func_ty(vec![]);
    let err = get_type(&ty).unwrap_err();
    assert_eq!(err.kind(), ErrorKind::MalformedFunctionType);
    assert_eq!(
        err.description(),
        "Function with no return type found ->:Arrow(Star, Star)"
    );
}

#[test]
fn malformed_function_type_in_a_symbol_fails() {
    let s = sym("f", Type::App(Box::new(Type::Con(TyCon::Func, Kind::Star)), vec![]), 1);
    let err = process_symbol(&s).unwrap_err();
    assert_eq!(err.kind(), ErrorKind::MalformedFunctionType);
    assert_eq!(err.description(), "Function with no return type found ->:Star");
}

#[test]
fn bare_variable_fails() {
    let err = get_type(&Type::Var(tv(7))).unwrap_err();
    assert_eq!(err.kind(), ErrorKind::UnresolvedTypeVariable);
    assert_eq!(err.description(), "not supported 'a7");
}

#[test]
fn custom_constructor_fails() {
    let err = get_type(&Type::Con(TyCon::Cus(name("List")), Kind::Star)).unwrap_err();
    assert_eq!(err.kind(), ErrorKind::UnsupportedType);
    assert_eq!(err.description(), "not supported List:Star");
}

#[test]
fn base_constructor_at_another_kind_fails() {
    let err = get_type(&Type::Con(TyCon::I32, arrow())).unwrap_err();
    assert_eq!(err.kind(), ErrorKind::UnsupportedType);
    assert_eq!(err.description(), "not supported i32:Arrow(Star, Star)");
}

#[test]
fn function_constructor_alone_fails() {
    let err = get_type(&Type::Con(TyCon::Func, Kind::Star)).unwrap_err();
    assert_eq!(err.kind(), ErrorKind::UnsupportedType);
    assert_eq!(err.description(), "not supported ->:Star");
}

#[test]
fn application_of_another_head_fails() {
    let ty = Type::App(Box::new(Type::Con(TyCon::Cus(name("List")), arrow())), vec![i32_ty()]);
    let err = get_type(&ty).unwrap_err();
    assert_eq!(err.kind(), ErrorKind::UnsupportedType);
    assert_eq!(err.description(), "not supported List:Arrow(Star, Star)");
}

#[test]
fn application_of_a_variable_head_fails() {
    let ty = Type::App(Box::new(Type::Var(tv(2))), vec![i32_ty()]);
    let err = get_type(&ty).unwrap_err();
    assert_eq!(err.kind(), ErrorKind::UnsupportedType);
    assert_eq!(err.description(), "not supported 'a2");
}

#[test]
fn arguments_are_lowered_before_the_head_is_read() {
    let ty = Type::App(
        Box::new(Type::Con(TyCon::Cus(name("List")), arrow())),
        vec![i32_ty(), Type::Var(tv(4))],
    );
    let err = get_type(&ty).unwrap_err();
    assert_eq!(err.kind(), ErrorKind::UnresolvedTypeVariable);
    assert_eq!(err.description(), "not supported 'a4");
}

#[test]
fn failing_parameter_fails_the_function_type() {
    let ty = func_ty(vec![Type::Var(tv(1)), i32_ty()]);
    let err = get_type(&ty).unwrap_err();
    assert_eq!(err.kind(), ErrorKind::UnresolvedTypeVariable);
    let ty = func_ty(vec![i32_ty(), Type::Con(TyCon::Cus(name("T")), Kind::Star)]);
    let err = get_type(&ty).unwrap_err();
    assert_eq!(err.kind(), ErrorKind::UnsupportedType);
    assert_eq!(err.description(), "not supported T:Star");
}

#[test]
fn first_failing_argument_gives_the_error() {
    let ty = func_ty(vec![
        i32_ty(),
        Type::Con(TyCon::Cus(name("A")), Kind::Star),
        Type::Var(tv(9)),
    ]);
    let err = get_type(&ty).unwrap_err();
    assert_eq!(err.description(), "not supported A:Star");
}

#[test]
fn get_appty_takes_head_and_arguments() {
    let head = Type::Con(TyCon::Func, Kind::Star);
    assert_eq!(
        get_appty(&head, &vec![bool_ty(), i32_ty()]).unwrap(),
        mono_func(vec![monoir::Type::Bool], monoir::Type::I32)
    );
    let err = get_appty(&head, &vec![]).unwrap_err();
    assert_eq!(err.kind(), ErrorKind::MalformedFunctionType);
    let err = get_appty(&i32_ty(), &vec![]).unwrap_err();
    assert_eq!(err.kind(), ErrorKind::UnsupportedType);
    assert_eq!(err.description(), "not supported i32:Star");
}

#[test]
fn get_types_keeps_order_and_stops_at_first_failure() {
    assert_eq!(get_types(&vec![]).unwrap(), Vec::<monoir::Type>::new());
    assert_eq!(
        get_types(&vec![unit_ty(), i32_ty(), bool_ty()]).unwrap(),
        vec![monoir::Type::Unit, monoir::Type::I32, monoir::Type::Bool]
    );
    let err = get_types(&vec![unit_ty(), Type::Var(tv(3)), Type::Var(tv(5))]).unwrap_err();
    assert_eq!(err.description(), "not supported 'a3");
}

#[test]
fn symbol_keeps_name_and_identity() {
    let lowered = process_symbol(&sym("x", i32_ty(), 42)).unwrap();
    assert_eq!(lowered.name().as_str(), "x");
    assert_eq!(lowered.id(), 42);
    assert_eq!(*lowered.ty(), monoir::Type::I32);
}

#[test]
fn symbols_lower_in_order() {
    let lowered = process_symbols(&vec![sym("a", i32_ty(), 1), sym("b", bool_ty(), 2)]).unwrap();
    assert_eq!(
        lowered,
        vec![msym("a", monoir::Type::I32, 1), msym("b", monoir::Type::Bool, 2)]
    );
    let err = process_symbols(&vec![sym("a", i32_ty(), 1), sym("b", Type::Var(tv(0)), 2)])
        .unwrap_err();
    assert_eq!(err.kind(), ErrorKind::UnresolvedTypeVariable);
}

#[test]
fn literals_lower_unchanged() {
    assert_eq!(process(&xir::Expr::UnitLit).unwrap(), monoir::Expr::UnitLit);
    assert_eq!(process(&xir::Expr::I32Lit(-17)).unwrap(), monoir::Expr::I32Lit(-17));
    assert_eq!(process(&xir::Expr::I32Lit(i32::MAX)).unwrap(), monoir::Expr::I32Lit(i32::MAX));
    assert_eq!(process(&xir::Expr::BoolLit(true)).unwrap(), monoir::Expr::BoolLit(true));
    assert_eq!(process(&xir::Expr::BoolLit(false)).unwrap(), monoir::Expr::BoolLit(false));
}

#[test]
fn variable_reference_lowers_its_symbol() {
    let e = xir::Expr::Var(sym("x", bool_ty(), 5));
    assert_eq!(process(&e).unwrap(), monoir::Expr::Var(msym("x", monoir::Type::Bool, 5)));
    let e = xir::Expr::Var(sym("x", Type::Var(tv(1)), 5));
    assert_eq!(process(&e).unwrap_err().kind(), ErrorKind::UnresolvedTypeVariable);
}

#[test]
fn conditional_lowers_its_parts_and_its_type() {
    let e = xir::Expr::If(Box::new(xir::If::new(
        xir::Expr::BoolLit(true),
        xir::Expr::I32Lit(1),
        xir::Expr::I32Lit(2),
        i32_ty(),
    )));
    assert_eq!(
        process(&e).unwrap(),
        monoir::Expr::If(
            Box::new(monoir::Expr::BoolLit(true)),
            Box::new(monoir::Expr::I32Lit(1)),
            Box::new(monoir::Expr::I32Lit(2)),
            monoir::Type::I32
        )
    );
}

#[test]
fn conditional_fails_with_its_first_failing_part() {
    let bad = |n: u32| xir::Expr::Var(sym("v", Type::Var(tv(n)), n));
    let e = xir::Expr::If(Box::new(xir::If::new(bad(1), bad(2), bad(3), Type::Var(tv(4)))));
    assert_eq!(process(&e).unwrap_err().description(), "not supported 'a1");
    let e = xir::Expr::If(Box::new(xir::If::new(
        xir::Expr::BoolLit(true),
        bad(2),
        bad(3),
        Type::Var(tv(4)),
    )));
    assert_eq!(process(&e).unwrap_err().description(), "not supported 'a2");
    let e = xir::Expr::If(Box::new(xir::If::new(
        xir::Expr::BoolLit(true),
        xir::Expr::UnitLit,
        bad(3),
        Type::Var(tv(4)),
    )));
    assert_eq!(process(&e).unwrap_err().description(), "not supported 'a3");
    let e = xir::Expr::If(Box::new(xir::If::new(
        xir::Expr::BoolLit(true),
        xir::Expr::UnitLit,
        xir::Expr::UnitLit,
        Type::Var(tv(4)),
    )));
    assert_eq!(process(&e).unwrap_err().description(), "not supported 'a4");
}

#[test]
fn let_lowers_binding_then_body() {
    let e = xir::Expr::Let(Box::new(xir::Let::new(
        xir::Bind::NonRec { symbol: sym("y", i32_ty(), 3), expr: xir::Expr::I32Lit(10) },
        xir::Expr::Var(sym("y", i32_ty(), 3)),
    )));
    assert_eq!(
        process(&e).unwrap(),
        monoir::Expr::Let(
            Box::new(monoir::Bind::new(
                msym("y", monoir::Type::I32, 3),
                monoir::Expr::I32Lit(10)
            )),
            Box::new(monoir::Expr::Var(msym("y", monoir::Type::I32, 3)))
        )
    );
    let e = xir::Expr::Let(Box::new(xir::Let::new(
        xir::Bind::NonRec { symbol: sym("y", Type::Var(tv(8)), 3), expr: xir::Expr::I32Lit(10) },
        xir::Expr::Var(sym("z", Type::Var(tv(9)), 4)),
    )));
    assert_eq!(process(&e).unwrap_err().description(), "not supported 'a8");
}

#[test]
fn bind_lowers_symbol_before_expression() {
    let b = xir::Bind::NonRec {
        symbol: sym("f", Type::Var(tv(1)), 1),
        expr: xir::Expr::Var(sym("g", Type::Var(tv(2)), 2)),
    };
    assert_eq!(process_bind(&b).unwrap_err().description(), "not supported 'a1");
    let b = xir::Bind::NonRec { symbol: sym("f", unit_ty(), 1), expr: xir::Expr::UnitLit };
    assert_eq!(
        process_bind(&b).unwrap(),
        monoir::Bind::new(msym("f", monoir::Type::Unit, 1), monoir::Expr::UnitLit)
    );
    assert_eq!(
        Simplify::new().func(&b).unwrap(),
        monoir::Bind::new(msym("f", monoir::Type::Unit, 1), monoir::Expr::UnitLit)
    );
}

#[test]
fn lambda_drops_its_declared_return_type() {
    // the declared type is a variable, which would not lower: it is not read
    let e = xir::Expr::Lam(
        vec![sym("x", i32_ty(), 1), sym("y", bool_ty(), 2)],
        Box::new(xir::Expr::Var(sym("x", i32_ty(), 1))),
        Type::Var(tv(0)),
    );
    assert_eq!(
        process(&e).unwrap(),
        monoir::Expr::Lam(Box::new(monoir::Lam::new(
            vec![msym("x", monoir::Type::I32, 1), msym("y", monoir::Type::Bool, 2)],
            monoir::Expr::Var(msym("x", monoir::Type::I32, 1))
        )))
    );
}

#[test]
fn lambda_fails_on_a_parameter_before_its_body() {
    let e = xir::Expr::Lam(
        vec![sym("x", Type::Var(tv(1)), 1)],
        Box::new(xir::Expr::Var(sym("y", Type::Var(tv(2)), 2))),
        i32_ty(),
    );
    assert_eq!(process(&e).unwrap_err().description(), "not supported 'a1");
}

#[test]
fn application_lowers_callee_then_arguments() {
    let f = func_ty(vec![i32_ty(), bool_ty(), unit_ty()]);
    let e = xir::Expr::App(
        Box::new(xir::Expr::Var(sym("f", f, 1))),
        vec![xir::Expr::I32Lit(3), xir::Expr::BoolLit(false)],
    );
    assert_eq!(
        process(&e).unwrap(),
        monoir::Expr::App(
            Box::new(monoir::Expr::Var(msym(
                "f",
                mono_func(vec![monoir::Type::I32, monoir::Type::Bool], monoir::Type::Unit),
                1
            ))),
            vec![monoir::Expr::I32Lit(3), monoir::Expr::BoolLit(false)]
        )
    );
    let e = xir::Expr::App(
        Box::new(xir::Expr::Var(sym("f", Type::Var(tv(1)), 1))),
        vec![xir::Expr::Var(sym("a", Type::Var(tv(2)), 2))],
    );
    assert_eq!(process(&e).unwrap_err().description(), "not supported 'a1");
    let e = xir::Expr::App(
        Box::new(xir::Expr::UnitLit),
        vec![
            xir::Expr::UnitLit,
            xir::Expr::Var(sym("a", Type::Var(tv(2)), 2)),
            xir::Expr::Var(sym("b", Type::Var(tv(3)), 3)),
        ],
    );
    assert_eq!(process(&e).unwrap_err().description(), "not supported 'a2");
}

#[test]
fn application_without_arguments_lowers() {
    let e = xir::Expr::App(Box::new(xir::Expr::UnitLit), vec![]);
    assert_eq!(
        process(&e).unwrap(),
        monoir::Expr::App(Box::new(monoir::Expr::UnitLit), vec![])
    );
}

#[test]
fn expressions_lower_in_order() {
    assert_eq!(
        process_exprs(&vec![xir::Expr::I32Lit(1), xir::Expr::UnitLit]).unwrap(),
        vec![monoir::Expr::I32Lit(1), monoir::Expr::UnitLit]
    );
}

#[test]
fn type_application_is_not_lowered() {
    let e = xir::Expr::TyApp(Box::new(xir::Expr::UnitLit), vec![i32_ty()]);
    let err = process(&e).unwrap_err();
    assert_eq!(err.kind(), ErrorKind::UnsupportedExpression);
    assert_eq!(err.description(), "EXPR not supported TyApp(UnitLit, [i32:Star])");
    let nested = xir::Expr::App(Box::new(xir::Expr::UnitLit), vec![e]);
    assert_eq!(process(&nested).unwrap_err().kind(), ErrorKind::UnsupportedExpression);
}

#[test]
fn nested_tree_keeps_its_shape() {
    let x = || sym("x", i32_ty(), 1);
    let f = || sym("f", func_ty(vec![i32_ty(), i32_ty()]), 2);
    let e = xir::Expr::Let(Box::new(xir::Let::new(
        xir::Bind::NonRec {
            symbol: f(),
            expr: xir::Expr::Lam(
                vec![x()],
                Box::new(xir::Expr::If(Box::new(xir::If::new(
                    xir::Expr::BoolLit(true),
                    xir::Expr::Var(x()),
                    xir::Expr::I32Lit(0),
                    i32_ty(),
                )))),
                i32_ty(),
            ),
        },
        xir::Expr::App(Box::new(xir::Expr::Var(f())), vec![xir::Expr::I32Lit(5)]),
    )));
    let mx = || msym("x", monoir::Type::I32, 1);
    let mf = || msym("f", mono_func(vec![monoir::Type::I32], monoir::Type::I32), 2);
    let expected = monoir::Expr::Let(
        Box::new(monoir::Bind::new(
            mf(),
            monoir::Expr::Lam(Box::new(monoir::Lam::new(
                vec![mx()],
                monoir::Expr::If(
                    Box::new(monoir::Expr::BoolLit(true)),
                    Box::new(monoir::Expr::Var(mx())),
                    Box::new(monoir::Expr::I32Lit(0)),
                    monoir::Type::I32,
                ),
            ))),
        )),
        Box::new(monoir::Expr::App(
            Box::new(monoir::Expr::Var(mf())),
            vec![monoir::Expr::I32Lit(5)],
        )),
    );
    assert_eq!(process(&e).unwrap(), expected);
}

fn scenario_module() -> xir::Module {
    let print = sym("print", func_ty(vec![i32_ty(), unit_ty()]), 1);
    let id = sym("id", func_ty(vec![i32_ty(), i32_ty()]), 2);
    let x = || sym("x", i32_ty(), 3);
    xir::Module::new(
        "m".to_string(),
        vec![
            xir::Decl::Extern(print),
            xir::Decl::Let(xir::Bind::NonRec {
                symbol: id,
                expr: xir::Expr::Lam(vec![x()], Box::new(xir::Expr::Var(x())), i32_ty()),
            }),
        ],
    )
}

#[test]
fn extern_and_simple_function() {
    let out = Simplify::new().run(vec![scenario_module()]).unwrap();
    assert_eq!(out.len(), 1);
    let m = &out[0];
    assert_eq!(m.name().as_str(), "m");
    assert_eq!(m.externs().len(), 1);
    assert_eq!(m.externs()[0].name().as_str(), "print");
    assert_eq!(m.externs()[0].id(), 1);
    assert_eq!(*m.externs()[0].ty(), mono_func(vec![monoir::Type::I32], monoir::Type::Unit));
    assert_eq!(m.funcs().len(), 1);
    let bind = &m.funcs()[0];
    assert_eq!(bind.symbol().name().as_str(), "id");
    assert_eq!(bind.symbol().id(), 2);
    assert_eq!(*bind.symbol().ty(), mono_func(vec![monoir::Type::I32], monoir::Type::I32));
    match bind.expr() {
        monoir::Expr::Lam(lam) => {
            assert_eq!(*lam.params(), vec![msym("x", monoir::Type::I32, 3)]);
            assert_eq!(*lam.body(), monoir::Expr::Var(msym("x", monoir::Type::I32, 3)));
        }
        other => panic!("not a function literal: {:?}", other),
    }
}

#[test]
fn unresolved_variable_fails_the_batch() {
    let bad = xir::Module::new(
        "bad".to_string(),
        vec![xir::Decl::Let(xir::Bind::NonRec {
            symbol: sym("v", Type::Var(tv(11)), 1),
            expr: xir::Expr::UnitLit,
        })],
    );
    let r = Simplify::new().run(vec![scenario_module(), bad, scenario_module()]);
    let err = r.unwrap_err();
    assert_eq!(err.kind(), ErrorKind::UnresolvedTypeVariable);
    assert_eq!(err.description(), "not supported 'a11");
}

#[test]
fn first_failing_module_gives_the_error() {
    let bad = |n: u32| {
        xir::Module::new(
            format!("m{}", n),
            vec![xir::Decl::Extern(sym("e", Type::Var(tv(n)), n))],
        )
    };
    let err = Simplify::new().run(vec![bad(1), bad(2)]).unwrap_err();
    assert_eq!(err.description(), "not supported 'a1");
}

#[test]
fn empty_batch_and_empty_module() {
    assert_eq!(Simplify::new().run(vec![]).unwrap(), Vec::<monoir::Module>::new());
    let out = Simplify::default().run(vec![xir::Module::new("e".to_string(), vec![])]).unwrap();
    assert_eq!(out, vec![monoir::Module::new("e".to_string())]);
}

#[test]
fn module_keeps_externs_and_bindings_in_order() {
    let m = xir::Module::new(
        "ord".to_string(),
        vec![
            xir::Decl::Let(xir::Bind::NonRec {
                symbol: sym("a", i32_ty(), 1),
                expr: xir::Expr::I32Lit(1),
            }),
            xir::Decl::Extern(sym("p", unit_ty(), 2)),
            xir::Decl::Let(xir::Bind::NonRec {
                symbol: sym("b", bool_ty(), 3),
                expr: xir::Expr::BoolLit(true),
            }),
            xir::Decl::Extern(sym("q", bool_ty(), 4)),
        ],
    );
    let out = Simplify::new().process(&m).unwrap();
    let mut expected = monoir::Module::new("ord".to_string());
    expected.add_func(monoir::Bind::new(msym("a", monoir::Type::I32, 1), monoir::Expr::I32Lit(1)));
    expected.add_extern(msym("p", monoir::Type::Unit, 2));
    expected.add_func(monoir::Bind::new(
        msym("b", monoir::Type::Bool, 3),
        monoir::Expr::BoolLit(true),
    ));
    expected.add_extern(msym("q", monoir::Type::Bool, 4));
    assert_eq!(out, expected);
    assert_eq!(out.externs().len(), 2);
    assert_eq!(out.externs()[1].name().as_str(), "q");
    assert_eq!(out.funcs()[0].symbol().name().as_str(), "a");
}

#[test]
fn module_fails_at_its_first_failing_declaration() {
    let m = xir::Module::new(
        "m".to_string(),
        vec![
            xir::Decl::Extern(sym("p", unit_ty(), 1)),
            xir::Decl::Let(xir::Bind::NonRec {
                symbol: sym("a", Type::Con(TyCon::Cus(name("T")), Kind::Star), 2),
                expr: xir::Expr::Var(sym("z", Type::Var(tv(1)), 9)),
            }),
            xir::Decl::Extern(sym("q", Type::Var(tv(2)), 3)),
        ],
    );
    let err = Simplify::new().process(&m).unwrap_err();
    assert_eq!(err.kind(), ErrorKind::UnsupportedType);
    assert_eq!(err.description(), "not supported T:Star");
}

#[test]
fn unsupported_expression_is_shown_whole() {
    let x = || sym("x", i32_ty(), 1);
    let inner = xir::Expr::Let(Box::new(xir::Let::new(
        xir::Bind::NonRec {
            symbol: x(),
            expr: xir::Expr::If(Box::new(xir::If::new(
                xir::Expr::BoolLit(true),
                xir::Expr::I32Lit(-2147483648),
                xir::Expr::I32Lit(7),
                i32_ty(),
            ))),
        },
        xir::Expr::App(
            Box::new(xir::Expr::Lam(
                vec![x(), sym("y", bool_ty(), 2)],
                Box::new(xir::Expr::Var(x())),
                i32_ty(),
            )),
            vec![xir::Expr::UnitLit, xir::Expr::BoolLit(false)],
        ),
    )));
    let e = xir::Expr::TyApp(Box::new(inner), vec![unit_ty(), Type::Var(tv(3))]);
    let err = process(&e).unwrap_err();
    assert_eq!(err.kind(), ErrorKind::UnsupportedExpression);
    assert_eq!(
        err.description(),
        "EXPR not supported TyApp(Let(Let { bind: NonRec { symbol: x_1: i32:Star, expr: \
         If(If { cond: BoolLit(true), texpr: I32Lit(-2147483648), fexpr: I32Lit(7), \
         ty: i32:Star }) }, expr: App(Lam([x_1: i32:Star, y_2: bool:Star], \
         Var(x_1: i32:Star), i32:Star), [UnitLit, BoolLit(false)]) }), [():Star, 'a3])"
    );
    assert_eq!(e.describe(), &err.description()["EXPR not supported ".len()..]);
}

#[test]
fn symbol_text() {
    assert_eq!(sym("main", unit_ty(), 0).describe(), "main_0: ():Star");
}
