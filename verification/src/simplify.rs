//! The lowering pass: from the typed polymorphic tree to the monomorphic one.
//!
//! Every function here either gives the whole lowered value or the first
//! error met in a walk from left to right; nothing partial is returned.

use vstd::prelude::*;
use crate::monoir;
use crate::model::views;
use crate::typing::types::{lemma_view_of_app, TyCon, TyConView, Type, TypeView};
use crate::typing::Kind;
use crate::xir;
use crate::{agrees, agrees_all, Error, ErrorKind, ErrorView, Pass};

verus! {

/// The error for a type that has no monomorphic counterpart.
pub open spec fn not_supported(kind: ErrorKind, ty: TypeView) -> ErrorView {
    ErrorView { kind, msg: "not supported "@ + ty.text() }
}

/// The error for a function type without any component.
pub open spec fn no_return_type(head: TypeView) -> ErrorView {
    ErrorView {
        kind: ErrorKind::MalformedFunctionType,
        msg: "Function with no return type found "@ + head.text(),
    }
}

/// The error for an expression of a form that has no lowering rule.
pub open spec fn expr_not_supported(expr: xir::ExprView) -> ErrorView {
    ErrorView { kind: ErrorKind::UnsupportedExpression, msg: "EXPR not supported "@ + expr.text() }
}

/// The monomorphic type of a built-in constructor at kind `Star`.
pub open spec fn base_type(con: TyConView, kind: Kind) -> Option<monoir::TypeView> {
    match kind {
        Kind::Star => match con {
            TyConView::I32 => Some(monoir::TypeView::I32),
            TyConView::Bool => Some(monoir::TypeView::Bool),
            TyConView::Unit => Some(monoir::TypeView::Unit),
            _ => None,
        },
        _ => None,
    }
}

/// The type that an application of `head` stands for, given its lowered
/// arguments: under the function constructor the last argument is the return
/// type and those before it are the parameter types.
pub open spec fn function_type(head: TypeView, lowered: Seq<monoir::TypeView>) -> Result<
    monoir::TypeView,
    ErrorView,
> {
    match head {
        TypeView::Con(TyConView::Func, _) => if lowered.len() == 0 {
            Err(no_return_type(head))
        } else {
            Ok(
                monoir::TypeView::Function {
                    params_ty: lowered.drop_last(),
                    return_ty: Box::new(lowered.last()),
                },
            )
        },
        _ => Err(not_supported(ErrorKind::UnsupportedType, head)),
    }
}

/// The monomorphic counterpart of a type, or why it has none.
pub open spec fn lower_type(ty: TypeView) -> Result<monoir::TypeView, ErrorView>
    decreases ty,
{
    match ty {
        TypeView::App(head, args) => match lower_types(args) {
            Ok(lowered) => function_type(*head, lowered),
            Err(e) => Err(e),
        },
        TypeView::Con(con, kind) => match base_type(con, kind) {
            Some(lowered) => Ok(lowered),
            None => Err(not_supported(ErrorKind::UnsupportedType, ty)),
        },
        TypeView::Var(_) => Err(not_supported(ErrorKind::UnresolvedTypeVariable, ty)),
    }
}

/// The counterparts of `types` in order, or the error of the first that has
/// none.
pub open spec fn lower_types(types: Seq<TypeView>) -> Result<Seq<monoir::TypeView>, ErrorView>
    decreases types,
{
    if types.len() == 0 {
        Ok(Seq::empty())
    } else {
        match lower_types(types.drop_last()) {
            Ok(front) => match lower_type(types.last()) {
                Ok(last) => Ok(front.push(last)),
                Err(e) => Err(e),
            },
            Err(e) => Err(e),
        }
    }
}

/// The counterpart of the application of `head` to `args`.
pub open spec fn lower_app(head: TypeView, args: Seq<TypeView>) -> Result<
    monoir::TypeView,
    ErrorView,
> {
    match lower_types(args) {
        Ok(lowered) => function_type(head, lowered),
        Err(e) => Err(e),
    }
}

/// A symbol keeps its name and identity; its type is lowered.
pub open spec fn lower_symbol(symbol: xir::SymbolView) -> Result<monoir::SymbolView, ErrorView> {
    match lower_type(symbol.ty) {
        Ok(ty) => Ok(monoir::SymbolView { name: symbol.name, ty, id: symbol.id }),
        Err(e) => Err(e),
    }
}

pub open spec fn lower_symbols(symbols: Seq<xir::SymbolView>) -> Result<
    Seq<monoir::SymbolView>,
    ErrorView,
>
    decreases symbols.len(),
{
    if symbols.len() == 0 {
        Ok(Seq::empty())
    } else {
        match lower_symbols(symbols.drop_last()) {
            Ok(front) => match lower_symbol(symbols.last()) {
                Ok(last) => Ok(front.push(last)),
                Err(e) => Err(e),
            },
            Err(e) => Err(e),
        }
    }
}

/// The monomorphic counterpart of an expression: the same tree with every
/// type lowered, or the first error met. The declared result type of a
/// function literal is dropped unread.
pub open spec fn lower_expr(expr: xir::ExprView) -> Result<monoir::ExprView, ErrorView>
    decreases expr,
{
    match expr {
        xir::ExprView::UnitLit => Ok(monoir::ExprView::UnitLit),
        xir::ExprView::I32Lit(n) => Ok(monoir::ExprView::I32Lit(n)),
        xir::ExprView::BoolLit(b) => Ok(monoir::ExprView::BoolLit(b)),
        xir::ExprView::Var(symbol) => match lower_symbol(symbol) {
            Ok(lowered) => Ok(monoir::ExprView::Var(lowered)),
            Err(e) => Err(e),
        },
        xir::ExprView::If(e) => match lower_expr(e.cond) {
            Ok(cond) => match lower_expr(e.texpr) {
                Ok(texpr) => match lower_expr(e.fexpr) {
                    Ok(fexpr) => match lower_type(e.ty) {
                        Ok(ty) => Ok(
                            monoir::ExprView::If(
                                Box::new(cond),
                                Box::new(texpr),
                                Box::new(fexpr),
                                ty,
                            ),
                        ),
                        Err(e) => Err(e),
                    },
                    Err(e) => Err(e),
                },
                Err(e) => Err(e),
            },
            Err(e) => Err(e),
        },
        xir::ExprView::Let(e) => match lower_bind(e.bind) {
            Ok(bind) => match lower_expr(e.expr) {
                Ok(body) => Ok(monoir::ExprView::Let(Box::new(bind), Box::new(body))),
                Err(e) => Err(e),
            },
            Err(e) => Err(e),
        },
        xir::ExprView::Lam(params, body, _) => match lower_symbols(params) {
            Ok(lowered) => match lower_expr(*body) {
                Ok(inner) => Ok(
                    monoir::ExprView::Lam(
                        Box::new(monoir::LamView { params: lowered, body: inner }),
                    ),
                ),
                Err(e) => Err(e),
            },
            Err(e) => Err(e),
        },
        xir::ExprView::App(callee, args) => match lower_expr(*callee) {
            Ok(lowered) => match lower_exprs(args) {
                Ok(lowered_args) => Ok(monoir::ExprView::App(Box::new(lowered), lowered_args)),
                Err(e) => Err(e),
            },
            Err(e) => Err(e),
        },
        xir::ExprView::TyApp(_, _) => Err(expr_not_supported(expr)),
    }
}

pub open spec fn lower_exprs(exprs: Seq<xir::ExprView>) -> Result<Seq<monoir::ExprView>, ErrorView>
    decreases exprs,
{
    if exprs.len() == 0 {
        Ok(Seq::empty())
    } else {
        match lower_exprs(exprs.drop_last()) {
            Ok(front) => match lower_expr(exprs.last()) {
                Ok(last) => Ok(front.push(last)),
                Err(e) => Err(e),
            },
            Err(e) => Err(e),
        }
    }
}

/// The symbol is lowered first, then the bound expression.
pub open spec fn lower_bind(bind: xir::BindView) -> Result<monoir::BindView, ErrorView>
    decreases bind,
{
    match lower_symbol(bind.symbol) {
        Ok(symbol) => match lower_expr(bind.expr) {
            Ok(expr) => Ok(monoir::BindView { symbol, expr }),
            Err(e) => Err(e),
        },
        Err(e) => Err(e),
    }
}

/// `module` with the lowered declaration at the end of the list it belongs
/// to.
pub open spec fn lower_decl(decl: xir::DeclView, module: monoir::ModuleView) -> Result<
    monoir::ModuleView,
    ErrorView,
> {
    match decl {
        xir::DeclView::Extern(symbol) => match lower_symbol(symbol) {
            Ok(lowered) => Ok(
                monoir::ModuleView { externs: module.externs.push(lowered), ..module },
            ),
            Err(e) => Err(e),
        },
        xir::DeclView::Let(bind) => match lower_bind(bind) {
            Ok(lowered) => Ok(monoir::ModuleView { funcs: module.funcs.push(lowered), ..module }),
            Err(e) => Err(e),
        },
    }
}

/// `start` after the declarations were lowered into it one by one, in order.
pub open spec fn lower_decls(decls: Seq<xir::DeclView>, start: monoir::ModuleView) -> Result<
    monoir::ModuleView,
    ErrorView,
>
    decreases decls.len(),
{
    if decls.len() == 0 {
        Ok(start)
    } else {
        match lower_decls(decls.drop_last(), start) {
            Ok(module) => lower_decl(decls.last(), module),
            Err(e) => Err(e),
        }
    }
}

/// The lowered module: the same name, and the declarations lowered in
/// order into a module that starts out empty.
#[verifier::opaque]
pub open spec fn lower_module(module: xir::ModuleView) -> Result<monoir::ModuleView, ErrorView> {
    lower_decls(
        module.decls,
        monoir::ModuleView { name: module.name, externs: Seq::empty(), funcs: Seq::empty() },
    )
}

/// The lowered modules in order, or the error of the first module that
/// fails.
pub open spec fn lower_modules(modules: Seq<xir::ModuleView>) -> Result<
    Seq<monoir::ModuleView>,
    ErrorView,
>
    decreases modules.len(),
{
    if modules.len() == 0 {
        Ok(Seq::empty())
    } else {
        match lower_modules(modules.drop_last()) {
            Ok(front) => match lower_module(modules.last()) {
                Ok(last) => Ok(front.push(last)),
                Err(e) => Err(e),
            },
            Err(e) => Err(e),
        }
    }
}

/// A failure among the first `n` types is the failure of the whole list.
pub proof fn lemma_lower_types_prefix(types: Seq<TypeView>, n: int)
    requires
        0 <= n <= types.len(),
        lower_types(types.take(n)) is Err,
    ensures
        lower_types(types) == lower_types(types.take(n)),
    decreases types.len(),
{
    if n == types.len() {
        assert(types.take(n) =~= types);
    } else {
        assert(types.drop_last().take(n) =~= types.take(n));
        lemma_lower_types_prefix(types.drop_last(), n);
    }
}

pub proof fn lemma_lower_symbols_prefix(symbols: Seq<xir::SymbolView>, n: int)
    requires
        0 <= n <= symbols.len(),
        lower_symbols(symbols.take(n)) is Err,
    ensures
        lower_symbols(symbols) == lower_symbols(symbols.take(n)),
    decreases symbols.len(),
{
    if n == symbols.len() {
        assert(symbols.take(n) =~= symbols);
    } else {
        assert(symbols.drop_last().take(n) =~= symbols.take(n));
        lemma_lower_symbols_prefix(symbols.drop_last(), n);
    }
}

pub proof fn lemma_lower_exprs_prefix(exprs: Seq<xir::ExprView>, n: int)
    requires
        0 <= n <= exprs.len(),
        lower_exprs(exprs.take(n)) is Err,
    ensures
        lower_exprs(exprs) == lower_exprs(exprs.take(n)),
    decreases exprs.len(),
{
    if n == exprs.len() {
        assert(exprs.take(n) =~= exprs);
    } else {
        assert(exprs.drop_last().take(n) =~= exprs.take(n));
        lemma_lower_exprs_prefix(exprs.drop_last(), n);
    }
}

pub proof fn lemma_lower_decls_prefix(
    decls: Seq<xir::DeclView>,
    start: monoir::ModuleView,
    n: int,
)
    requires
        0 <= n <= decls.len(),
        lower_decls(decls.take(n), start) is Err,
    ensures
        lower_decls(decls, start) == lower_decls(decls.take(n), start),
    decreases decls.len(),
{
    if n == decls.len() {
        assert(decls.take(n) =~= decls);
    } else {
        assert(decls.drop_last().take(n) =~= decls.take(n));
        lemma_lower_decls_prefix(decls.drop_last(), start, n);
    }
}

pub proof fn lemma_lower_modules_prefix(modules: Seq<xir::ModuleView>, n: int)
    requires
        0 <= n <= modules.len(),
        lower_modules(modules.take(n)) is Err,
    ensures
        lower_modules(modules) == lower_modules(modules.take(n)),
    decreases modules.len(),
{
    if n == modules.len() {
        assert(modules.take(n) =~= modules);
    } else {
        assert(modules.drop_last().take(n) =~= modules.take(n));
        lemma_lower_modules_prefix(modules.drop_last(), n);
    }
}

/// A list of types lowers iff each of them does, item by item; where one
/// does not, the error is that of the first such item.
pub proof fn lemma_lower_types_itemwise(types: Seq<TypeView>)
    ensures
        match lower_types(types) {
            Ok(lowered) => lowered.len() == types.len() && forall|i: int|
                0 <= i < types.len() ==> lower_type(#[trigger] types[i]) == Ok::<
                    monoir::TypeView,
                    ErrorView,
                >(lowered[i]),
            Err(e) => exists|i: int|
                0 <= i < types.len() && lower_type(#[trigger] types[i]) == Err::<
                    monoir::TypeView,
                    ErrorView,
                >(e) && forall|j: int| 0 <= j < i ==> lower_type(#[trigger] types[j]) is Ok,
        },
    decreases types.len(),
{
    if types.len() > 0 {
        let front = types.drop_last();
        lemma_lower_types_itemwise(front);
        match lower_types(front) {
            Ok(lowered_front) => {
                assert forall|j: int| 0 <= j < front.len() implies lower_type(
                    #[trigger] types[j],
                ) is Ok by {
                    assert(types[j] == front[j]);
                }
                match lower_type(types.last()) {
                    Ok(last) => {
                        let lowered = lowered_front.push(last);
                        assert forall|i: int| 0 <= i < types.len() implies lower_type(
                            #[trigger] types[i],
                        ) == Ok::<monoir::TypeView, ErrorView>(lowered[i]) by {
                            if i < front.len() {
                                assert(types[i] == front[i]);
                            }
                        }
                    },
                    Err(e) => {
                        assert(lower_type(types[types.len() - 1]) == Err::<
                            monoir::TypeView,
                            ErrorView,
                        >(e));
                    },
                }
            },
            Err(e) => {
                let i = choose|i: int|
                    0 <= i < front.len() && lower_type(#[trigger] front[i]) == Err::<
                        monoir::TypeView,
                        ErrorView,
                    >(e) && forall|j: int| 0 <= j < i ==> lower_type(#[trigger] front[j]) is Ok;
                assert(types[i] == front[i]);
                assert forall|j: int| 0 <= j < i implies lower_type(#[trigger] types[j]) is Ok by {
                    assert(types[j] == front[j]);
                }
            },
        }
    }
}

/// A list of symbols lowers item by item.
pub proof fn lemma_lower_symbols_itemwise(symbols: Seq<xir::SymbolView>)
    ensures
        lower_symbols(symbols) matches Ok(lowered) ==> lowered.len() == symbols.len() && forall|
            i: int,
        |
            0 <= i < symbols.len() ==> lower_symbol(#[trigger] symbols[i]) == Ok::<
                monoir::SymbolView,
                ErrorView,
            >(lowered[i]),
    decreases symbols.len(),
{
    if symbols.len() > 0 {
        let front = symbols.drop_last();
        lemma_lower_symbols_itemwise(front);
        if let Ok(lowered) = lower_symbols(symbols) {
            assert forall|i: int| 0 <= i < symbols.len() implies lower_symbol(
                #[trigger] symbols[i],
            ) == Ok::<monoir::SymbolView, ErrorView>(lowered[i]) by {
                if i < front.len() {
                    assert(symbols[i] == front[i]);
                }
            }
        }
    }
}

/// A list of expressions lowers item by item.
pub proof fn lemma_lower_exprs_itemwise(exprs: Seq<xir::ExprView>)
    ensures
        lower_exprs(exprs) matches Ok(lowered) ==> lowered.len() == exprs.len() && forall|i: int|
            0 <= i < exprs.len() ==> lower_expr(#[trigger] exprs[i]) == Ok::<
                monoir::ExprView,
                ErrorView,
            >(lowered[i]),
    decreases exprs.len(),
{
    if exprs.len() > 0 {
        let front = exprs.drop_last();
        lemma_lower_exprs_itemwise(front);
        if let Ok(lowered) = lower_exprs(exprs) {
            assert forall|i: int| 0 <= i < exprs.len() implies lower_expr(#[trigger] exprs[i])
                == Ok::<monoir::ExprView, ErrorView>(lowered[i]) by {
                if i < front.len() {
                    assert(exprs[i] == front[i]);
                }
            }
        }
    }
}

/// A batch lowers iff each of its modules does, module by module; where one
/// does not, the error is that of the first such module.
pub proof fn lemma_lower_modules_itemwise(modules: Seq<xir::ModuleView>)
    ensures
        match lower_modules(modules) {
            Ok(lowered) => lowered.len() == modules.len() && forall|i: int|
                0 <= i < modules.len() ==> lower_module(#[trigger] modules[i]) == Ok::<
                    monoir::ModuleView,
                    ErrorView,
                >(lowered[i]),
            Err(e) => exists|i: int|
                0 <= i < modules.len() && lower_module(#[trigger] modules[i]) == Err::<
                    monoir::ModuleView,
                    ErrorView,
                >(e) && forall|j: int| 0 <= j < i ==> lower_module(#[trigger] modules[j]) is Ok,
        },
    decreases modules.len(),
{
    if modules.len() > 0 {
        let front = modules.drop_last();
        lemma_lower_modules_itemwise(front);
        match lower_modules(front) {
            Ok(lowered_front) => {
                assert forall|j: int| 0 <= j < front.len() implies lower_module(
                    #[trigger] modules[j],
                ) is Ok by {
                    assert(modules[j] == front[j]);
                }
                match lower_module(modules.last()) {
                    Ok(last) => {
                        let lowered = lowered_front.push(last);
                        assert forall|i: int| 0 <= i < modules.len() implies lower_module(
                            #[trigger] modules[i],
                        ) == Ok::<monoir::ModuleView, ErrorView>(lowered[i]) by {
                            if i < front.len() {
                                assert(modules[i] == front[i]);
                            }
                        }
                    },
                    Err(e) => {
                        assert(lower_module(modules[modules.len() - 1]) == Err::<
                            monoir::ModuleView,
                            ErrorView,
                        >(e));
                    },
                }
            },
            Err(e) => {
                let i = choose|i: int|
                    0 <= i < front.len() && lower_module(#[trigger] front[i]) == Err::<
                        monoir::ModuleView,
                        ErrorView,
                    >(e) && forall|j: int| 0 <= j < i ==> lower_module(#[trigger] front[j]) is Ok;
                assert(modules[i] == front[i]);
                assert forall|j: int| 0 <= j < i implies lower_module(#[trigger] modules[j]) is Ok by {
                    assert(modules[j] == front[j]);
                }
            },
        }
    }
}

/// Each built-in base constructor at kind `Star` lowers, and to the
/// monomorphic type of its name.
pub proof fn lemma_base_types_lower()
    ensures
        lower_type(TypeView::Con(TyConView::I32, Kind::Star)) == Ok::<monoir::TypeView, ErrorView>(
            monoir::TypeView::I32,
        ),
        lower_type(TypeView::Con(TyConView::Bool, Kind::Star)) == Ok::<monoir::TypeView, ErrorView>(
            monoir::TypeView::Bool,
        ),
        lower_type(TypeView::Con(TyConView::Unit, Kind::Star)) == Ok::<monoir::TypeView, ErrorView>(
            monoir::TypeView::Unit,
        ),
{
}

/// The application of the function constructor to `n` types that all lower
/// gives a function type with `n - 1` parameter types, each the lowered
/// argument of its place, and the lowered last argument as its return type.
/// Applied to no type at all it fails, as a function without a return type.
pub proof fn lemma_function_arity(kind: Kind, args: Seq<TypeView>)
    ensures
        args.len() == 0 ==> lower_type(
            TypeView::App(Box::new(TypeView::Con(TyConView::Func, kind)), args),
        ) == Err::<monoir::TypeView, ErrorView>(
            no_return_type(TypeView::Con(TyConView::Func, kind)),
        ),
        args.len() >= 1 && (forall|i: int| 0 <= i < args.len() ==> lower_type(
            #[trigger] args[i],
        ) is Ok) ==> {
            let lowered = lower_type(
                TypeView::App(Box::new(TypeView::Con(TyConView::Func, kind)), args),
            );
            &&& lowered matches Ok(monoir::TypeView::Function { params_ty, return_ty })
            &&& params_ty.len() == args.len() - 1
            &&& forall|i: int|
                0 <= i < args.len() - 1 ==> lower_type(#[trigger] args[i]) == Ok::<
                    monoir::TypeView,
                    ErrorView,
                >(params_ty[i])
            &&& lower_type(args.last()) == Ok::<monoir::TypeView, ErrorView>(*return_ty)
        },
{
    lemma_lower_types_itemwise(args);
    if args.len() == 0 {
    } else if forall|i: int| 0 <= i < args.len() ==> lower_type(#[trigger] args[i]) is Ok {
        let lowered = lower_types(args)->Ok_0;
        assert(lower_type(args[args.len() - 1]) == Ok::<monoir::TypeView, ErrorView>(
            lowered[args.len() - 1],
        ));
        assert forall|i: int| 0 <= i < args.len() - 1 implies lower_type(#[trigger] args[i])
            == Ok::<monoir::TypeView, ErrorView>(lowered.drop_last()[i]) by {
            assert(lowered.drop_last()[i] == lowered[i]);
        }
    }
}

/// Where one argument of an application does not lower, the application
/// does not lower either, whatever its head: no partial function type is
/// made. The error is that of the first argument that fails.
pub proof fn lemma_argument_failure_propagates(head: TypeView, args: Seq<TypeView>, i: int)
    requires
        0 <= i < args.len(),
        lower_type(args[i]) is Err,
    ensures
        lower_type(TypeView::App(Box::new(head), args)) is Err,
        lower_types(args) is Err,
        exists|k: int|
            0 <= k <= i && lower_type(#[trigger] args[k]) is Err && lower_type(
                TypeView::App(Box::new(head), args),
            ) == Err::<monoir::TypeView, ErrorView>(lower_type(args[k])->Err_0),
{
    lemma_lower_types_itemwise(args);
    match lower_types(args) {
        Ok(lowered) => {
            assert(lower_type(args[i]) is Ok);
        },
        Err(e) => {
            let k = choose|k: int|
                0 <= k < args.len() && lower_type(#[trigger] args[k]) == Err::<
                    monoir::TypeView,
                    ErrorView,
                >(e) && forall|j: int| 0 <= j < k ==> lower_type(#[trigger] args[j]) is Ok;
            if k > i {
                assert(lower_type(args[i]) is Ok);
            }
            assert(lower_type(args[k]) is Err);
        },
    }
}

/// A type that lowers is well formed: every application in it is the
/// application of the function constructor.
pub proof fn lemma_lowered_is_well_formed(ty: TypeView)
    requires
        lower_type(ty) is Ok,
    ensures
        ty.well_formed(),
    decreases ty,
{
    match ty {
        TypeView::App(head, args) => {
            lemma_lower_types_itemwise(args);
            assert(function_type(*head, lower_types(args)->Ok_0) is Ok);
            assert(*head is Con);
            assert((*head).well_formed());
            assert((*head).head() == *head);
            assert forall|i: int| 0 <= i < args.len() implies (#[trigger] args[i]).well_formed() by {
                lemma_lowered_is_well_formed(args[i]);
            }
        },
        _ => {},
    }
}

/// A lowered symbol has the name and the identity of its source.
pub proof fn lemma_symbols_keep_shape(symbols: Seq<xir::SymbolView>)
    ensures
        lower_symbols(symbols) matches Ok(lowered) ==> monoir::symbol_shapes(lowered)
            == xir::symbol_shapes(symbols),
{
    lemma_lower_symbols_itemwise(symbols);
    if let Ok(lowered) = lower_symbols(symbols) {
        assert forall|i: int| 0 <= i < symbols.len() implies (lowered[i].name, lowered[i].id) == (
            symbols[i].name,
            symbols[i].id,
        ) by {
            assert(lower_symbol(symbols[i]) == Ok::<monoir::SymbolView, ErrorView>(lowered[i]));
        }
        assert(monoir::symbol_shapes(lowered) =~= xir::symbol_shapes(symbols));
    }
}

/// Whether lowering kept the shape of `expr`, if it lowered at all.
pub open spec fn keeps_shape(expr: xir::ExprView) -> bool {
    lower_expr(expr) matches Ok(lowered) ==> lowered.shape() == expr.shape()
}

proof fn lemma_if_keeps_shape(e: xir::IfView)
    requires
        keeps_shape(e.cond),
        keeps_shape(e.texpr),
        keeps_shape(e.fexpr),
    ensures
        keeps_shape(xir::ExprView::If(Box::new(e))),
{
}

proof fn lemma_let_keeps_shape(e: xir::LetView)
    requires
        keeps_shape(e.bind.expr),
        keeps_shape(e.expr),
    ensures
        keeps_shape(xir::ExprView::Let(Box::new(e))),
{
    let expr = xir::ExprView::Let(Box::new(e));
    if let Ok(lowered) = lower_expr(expr) {
        let bind = lower_bind(e.bind)->Ok_0;
        let body = lower_expr(e.expr)->Ok_0;
        assert(lowered == monoir::ExprView::Let(Box::new(bind), Box::new(body)));
        assert(lower_symbol(e.bind.symbol) == Ok::<monoir::SymbolView, ErrorView>(bind.symbol));
        assert(lower_expr(e.bind.expr) == Ok::<monoir::ExprView, ErrorView>(bind.expr));
    }
}

proof fn lemma_lam_keeps_shape(params: Seq<xir::SymbolView>, body: xir::ExprView, ty: TypeView)
    requires
        keeps_shape(body),
    ensures
        keeps_shape(xir::ExprView::Lam(params, Box::new(body), ty)),
{
    lemma_symbols_keep_shape(params);
}

proof fn lemma_app_keeps_shape(callee: xir::ExprView, args: Seq<xir::ExprView>)
    requires
        keeps_shape(callee),
        forall|i: int| 0 <= i < args.len() ==> keeps_shape(#[trigger] args[i]),
    ensures
        keeps_shape(xir::ExprView::App(Box::new(callee), args)),
{
    let expr = xir::ExprView::App(Box::new(callee), args);
    lemma_lower_exprs_itemwise(args);
    if let Ok(lowered) = lower_expr(expr) {
        let lowered_args = lower_exprs(args)->Ok_0;
        assert forall|i: int| 0 <= i < args.len() implies lowered_args[i].shape()
            == args[i].shape() by {
            assert(lower_expr(args[i]) == Ok::<monoir::ExprView, ErrorView>(lowered_args[i]));
            assert(keeps_shape(args[i]));
        }
        assert(lowered.shape()->App_1 =~= expr.shape()->App_1);
    }
}

/// Lowering keeps the shape of an expression: the tree of its forms, its
/// literal values, and the name and identity of every symbol. Only types
/// change.
pub proof fn lemma_lowering_keeps_shape(expr: xir::ExprView)
    ensures
        lower_expr(expr) matches Ok(lowered) ==> lowered.shape() == expr.shape(),
    decreases expr,
{
    match expr {
        xir::ExprView::UnitLit => {},
        xir::ExprView::I32Lit(_) => {},
        xir::ExprView::BoolLit(_) => {},
        xir::ExprView::Var(_) => {},
        xir::ExprView::If(e) => {
            lemma_lowering_keeps_shape(e.cond);
            lemma_lowering_keeps_shape(e.texpr);
            lemma_lowering_keeps_shape(e.fexpr);
            lemma_if_keeps_shape(*e);
        },
        xir::ExprView::Let(e) => {
            lemma_lowering_keeps_shape(e.bind.expr);
            lemma_lowering_keeps_shape(e.expr);
            lemma_let_keeps_shape(*e);
        },
        xir::ExprView::Lam(params, body, ty) => {
            lemma_lowering_keeps_shape(*body);
            lemma_lam_keeps_shape(params, *body, ty);
        },
        xir::ExprView::App(callee, args) => {
            lemma_lowering_keeps_shape(*callee);
            assert forall|i: int| 0 <= i < args.len() implies keeps_shape(#[trigger] args[i]) by {
                lemma_lowering_keeps_shape(args[i]);
            }
            lemma_app_keeps_shape(*callee, args);
        },
        xir::ExprView::TyApp(_, _) => {},
    }
}

/// An error whose message is `prefix` followed by the text of `ty`.
fn type_error(kind: ErrorKind, prefix: &str, ty: &Type) -> (r: Error)
    ensures
        r@ == (ErrorView { kind, msg: prefix@ + ty@.text() }),
{
    let mut msg = String::from_str(prefix);
    ty.write_text(&mut msg);
    Error::new(kind, msg)
}

/// Lowers a type.
pub fn get_type(ty: &Type) -> (r: Result<monoir::Type, Error>)
    ensures
        agrees(r, lower_type(ty@)),
    decreases ty, 0nat,
{
    match ty {
        Type::App(head, args) => {
            proof {
                lemma_view_of_app(*head, *args);
            }
            get_appty(head, args)
        },
        Type::Con(tycon, kind) => {
            let base = match kind {
                Kind::Star => match tycon {
                    TyCon::I32 => Some(monoir::Type::I32),
                    TyCon::Bool => Some(monoir::Type::Bool),
                    TyCon::Unit => Some(monoir::Type::Unit),
                    _ => None,
                },
                _ => None,
            };
            match base {
                Some(lowered) => Ok(lowered),
                None => Err(type_error(ErrorKind::UnsupportedType, "not supported ", ty)),
            }
        },
        Type::Var(_) => Err(type_error(ErrorKind::UnresolvedTypeVariable, "not supported ", ty)),
    }
}

/// Lowers each of `types` in order and stops at the first that fails.
pub fn get_types(types: &Vec<Type>) -> (r: Result<Vec<monoir::Type>, Error>)
    ensures
        agrees_all(r, lower_types(views(types@))),
    decreases types, 0nat,
{
    let ghost all = views(types@);
    let mut out: Vec<monoir::Type> = Vec::new();
    let mut i: usize = 0;
    proof {
        assert(all.take(0) =~= Seq::<TypeView>::empty());
        assert(views(out@) =~= Seq::<monoir::TypeView>::empty());
    }
    while i < types.len()
        invariant
            i <= types.len(),
            all == views(types@),
            lower_types(all.take(i as int)) == Ok::<Seq<monoir::TypeView>, ErrorView>(views(out@)),
        decreases types.len() - i,
    {
        proof {
            let ghost whole = *types;
            assert(decreases_to!(whole => whole[i as int]));
            assert(all.take(i + 1).drop_last() =~= all.take(i as int));
            assert(all.take(i + 1).last() == types@[i as int]@);
        }
        match get_type(&types[i]) {
            Ok(lowered) => {
                let ghost before = views(out@);
                out.push(lowered);
                assert(views(out@) =~= before.push(lowered@));
            },
            Err(e) => {
                proof {
                    lemma_lower_types_prefix(all, i + 1);
                }
                return Err(e);
            },
        }
        i += 1;
    }
    proof {
        assert(all.take(i as int) =~= all);
    }
    Ok(out)
}

/// Lowers the application of `ty` to `args`: the arguments first, then the
/// head, which must be the function constructor.
pub fn get_appty(ty: &Type, args: &Vec<Type>) -> (r: Result<monoir::Type, Error>)
    ensures
        agrees(r, lower_app(ty@, views(args@))),
    decreases args, 1nat,
{
    let mut lowered = match get_types(args) {
        Ok(lowered) => lowered,
        Err(e) => {
            return Err(e);
        },
    };
    match ty {
        Type::Con(TyCon::Func, _) => {
            if lowered.len() == 0 {
                Err(
                    type_error(
                        ErrorKind::MalformedFunctionType,
                        "Function with no return type found ",
                        ty,
                    ),
                )
            } else {
                let ghost whole = views(lowered@);
                let return_ty = Box::new(lowered.pop().unwrap());
                proof {
                    assert(views(lowered@) =~= whole.drop_last());
                    monoir::lemma_view_of_function(lowered, return_ty);
                }
                Ok(monoir::Type::Function { params_ty: lowered, return_ty })
            }
        },
        _ => Err(type_error(ErrorKind::UnsupportedType, "not supported ", ty)),
    }
}

/// Lowers the type of a symbol and keeps its name and identity.
pub fn process_symbol(sym: &xir::Symbol) -> (r: Result<monoir::Symbol, Error>)
    ensures
        agrees(r, lower_symbol(sym@)),
{
    match get_type(sym.ty()) {
        Ok(ty) => Ok(monoir::Symbol::new(sym.name().clone(), ty, sym.id())),
        Err(e) => Err(e),
    }
}

/// Lowers each of `symbols` in order and stops at the first that fails.
pub fn process_symbols(symbols: &Vec<xir::Symbol>) -> (r: Result<Vec<monoir::Symbol>, Error>)
    ensures
        agrees_all(r, lower_symbols(views(symbols@))),
{
    let ghost all = views(symbols@);
    let mut out: Vec<monoir::Symbol> = Vec::new();
    let mut i: usize = 0;
    proof {
        assert(all.take(0) =~= Seq::<xir::SymbolView>::empty());
        assert(views(out@) =~= Seq::<monoir::SymbolView>::empty());
    }
    while i < symbols.len()
        invariant
            i <= symbols.len(),
            all == views(symbols@),
            lower_symbols(all.take(i as int)) == Ok::<Seq<monoir::SymbolView>, ErrorView>(
                views(out@),
            ),
        decreases symbols.len() - i,
    {
        proof {
            assert(all.take(i + 1).drop_last() =~= all.take(i as int));
            assert(all.take(i + 1).last() == symbols@[i as int]@);
        }
        match process_symbol(&symbols[i]) {
            Ok(lowered) => {
                let ghost before = views(out@);
                out.push(lowered);
                assert(views(out@) =~= before.push(lowered@));
            },
            Err(e) => {
                proof {
                    lemma_lower_symbols_prefix(all, i + 1);
                }
                return Err(e);
            },
        }
        i += 1;
    }
    proof {
        assert(all.take(i as int) =~= all);
    }
    Ok(out)
}

/// Lowers a binding: its symbol, then its expression.
pub fn process_bind(bind: &xir::Bind) -> (r: Result<monoir::Bind, Error>)
    ensures
        agrees(r, lower_bind(bind@)),
    decreases bind@, 0nat,
{
    match bind {
        xir::Bind::NonRec { symbol, expr } => {
            let sym = match process_symbol(symbol) {
                Ok(sym) => sym,
                Err(e) => {
                    return Err(e);
                },
            };
            let expr = match process(expr) {
                Ok(expr) => expr,
                Err(e) => {
                    return Err(e);
                },
            };
            Ok(monoir::Bind::new(sym, expr))
        },
    }
}

/// An error that shows an expression of a form without a lowering rule.
fn expr_error(expr: &xir::Expr) -> (r: Error)
    ensures
        r@ == expr_not_supported(expr@),
{
    let mut msg = String::from_str("EXPR not supported ");
    expr.write_text(&mut msg);
    Error::new(ErrorKind::UnsupportedExpression, msg)
}

/// Lowers an expression.
pub fn process(expr: &xir::Expr) -> (r: Result<monoir::Expr, Error>)
    ensures
        agrees(r, lower_expr(expr@)),
    decreases expr@, 0nat,
{
    match expr {
        xir::Expr::UnitLit => Ok(monoir::Expr::UnitLit),
        xir::Expr::I32Lit(n) => Ok(monoir::Expr::I32Lit(*n)),
        xir::Expr::BoolLit(b) => Ok(monoir::Expr::BoolLit(*b)),
        xir::Expr::Var(var) => match process_symbol(var) {
            Ok(sym) => Ok(monoir::Expr::Var(sym)),
            Err(e) => Err(e),
        },
        xir::Expr::If(e) => {
            let cond = match process(e.cond()) {
                Ok(cond) => cond,
                Err(e) => {
                    return Err(e);
                },
            };
            let texpr = match process(e.texpr()) {
                Ok(texpr) => texpr,
                Err(e) => {
                    return Err(e);
                },
            };
            let fexpr = match process(e.fexpr()) {
                Ok(fexpr) => fexpr,
                Err(e) => {
                    return Err(e);
                },
            };
            match get_type(e.ty()) {
                Ok(ty) => Ok(
                    monoir::Expr::If(Box::new(cond), Box::new(texpr), Box::new(fexpr), ty),
                ),
                Err(e) => Err(e),
            }
        },
        xir::Expr::Let(e) => {
            let bind = match process_bind(e.bind()) {
                Ok(bind) => bind,
                Err(e) => {
                    return Err(e);
                },
            };
            match process(e.expr()) {
                Ok(body) => Ok(monoir::Expr::Let(Box::new(bind), Box::new(body))),
                Err(e) => Err(e),
            }
        },
        xir::Expr::Lam(params, body, _) => {
            let params = match process_symbols(params) {
                Ok(params) => params,
                Err(e) => {
                    return Err(e);
                },
            };
            match process(body) {
                Ok(body) => Ok(monoir::Expr::Lam(Box::new(monoir::Lam::new(params, body)))),
                Err(e) => Err(e),
            }
        },
        xir::Expr::App(caller, args) => {
            proof {
                xir::lemma_view_of_app(*caller, *args);
            }
            let callee = match process(caller) {
                Ok(callee) => callee,
                Err(e) => {
                    return Err(e);
                },
            };
            match process_exprs(args) {
                Ok(lowered) => {
                    let callee = Box::new(callee);
                    proof {
                        monoir::lemma_view_of_app(callee, lowered);
                    }
                    Ok(monoir::Expr::App(callee, lowered))
                },
                Err(e) => Err(e),
            }
        },
        xir::Expr::TyApp(_, _) => Err(expr_error(expr)),
    }
}

/// Lowers each of `exprs` in order and stops at the first that fails.
pub fn process_exprs(exprs: &Vec<xir::Expr>) -> (r: Result<Vec<monoir::Expr>, Error>)
    ensures
        agrees_all(r, lower_exprs(views(exprs@))),
    decreases views(exprs@), 0nat,
{
    let ghost all = views(exprs@);
    let mut out: Vec<monoir::Expr> = Vec::new();
    let mut i: usize = 0;
    proof {
        assert(all.take(0) =~= Seq::<xir::ExprView>::empty());
        assert(views(out@) =~= Seq::<monoir::ExprView>::empty());
    }
    while i < exprs.len()
        invariant
            i <= exprs.len(),
            all == views(exprs@),
            lower_exprs(all.take(i as int)) == Ok::<Seq<monoir::ExprView>, ErrorView>(views(out@)),
        decreases exprs.len() - i,
    {
        proof {
            assert(decreases_to!(all => all[i as int]));
            assert(all.take(i + 1).drop_last() =~= all.take(i as int));
            assert(all.take(i + 1).last() == exprs@[i as int]@);
        }
        match process(&exprs[i]) {
            Ok(lowered) => {
                let ghost before = views(out@);
                out.push(lowered);
                assert(views(out@) =~= before.push(lowered@));
            },
            Err(e) => {
                proof {
                    lemma_lower_exprs_prefix(all, i + 1);
                }
                return Err(e);
            },
        }
        i += 1;
    }
    proof {
        assert(all.take(i as int) =~= all);
    }
    Ok(out)
}

/// The pass that lowers typed polymorphic modules to monomorphic ones. It
/// holds no state.
#[derive(Debug)]
pub struct Simplify {}

impl Default for Simplify {
    fn default() -> (r: Self) {
        Self::new()
    }
}

impl Pass for Simplify {
    type Input = Vec<xir::Module>;

    type Output = Vec<monoir::Module>;

    /// Lowers the modules in order. The first module that fails ends the run
    /// with its error, and no module is returned.
    fn run(&mut self, module_vec: Vec<xir::Module>) -> (r: Result<Vec<monoir::Module>, Error>)
        ensures
            agrees_all(r, lower_modules(views(module_vec@))),
    {
        let ghost all = views(module_vec@);
        let mut out: Vec<monoir::Module> = Vec::new();
        let mut i: usize = 0;
        proof {
            assert(all.take(0) =~= Seq::<xir::ModuleView>::empty());
            assert(views(out@) =~= Seq::<monoir::ModuleView>::empty());
        }
        while i < module_vec.len()
            invariant
                i <= module_vec.len(),
                all == views(module_vec@),
                lower_modules(all.take(i as int)) == Ok::<Seq<monoir::ModuleView>, ErrorView>(
                    views(out@),
                ),
            decreases module_vec.len() - i,
        {
            proof {
                assert(all.take(i + 1).drop_last() =~= all.take(i as int));
                assert(all.take(i + 1).last() == module_vec@[i as int]@);
            }
            match self.process(&module_vec[i]) {
                Ok(lowered) => {
                    let ghost before = views(out@);
                    out.push(lowered);
                    assert(views(out@) =~= before.push(lowered@));
                },
                Err(e) => {
                    proof {
                        lemma_lower_modules_prefix(all, i + 1);
                    }
                    return Err(e);
                },
            }
            i += 1;
        }
        proof {
            assert(all.take(i as int) =~= all);
        }
        Ok(out)
    }
}

impl Simplify {
    pub fn new() -> (r: Self) {
        Simplify {}
    }

    /// Lowers a binding of the top level.
    pub fn func(&self, f: &xir::Bind) -> (r: Result<monoir::Bind, Error>)
        ensures
            agrees(r, lower_bind(f@)),
    {
        match f {
            xir::Bind::NonRec { symbol, expr } => {
                let sym = match process_symbol(symbol) {
                    Ok(sym) => sym,
                    Err(e) => {
                        return Err(e);
                    },
                };
                let expr = match process(expr) {
                    Ok(expr) => expr,
                    Err(e) => {
                        return Err(e);
                    },
                };
                Ok(monoir::Bind::new(sym, expr))
            },
        }
    }

    /// Lowers a module: its name is kept, and its declarations are lowered
    /// in order, externs into one list and bindings into the other.
    pub fn process(&self, module: &xir::Module) -> (r: Result<monoir::Module, Error>)
        ensures
            agrees(r, lower_module(module@)),
    {
        proof {
            reveal(lower_module);
        }
        let modname = module.name().clone();
        let mut modl = monoir::Module::new(modname);
        let decls = module.decls();
        let ghost all = views(decls@);
        let ghost start = modl@;
        let mut i: usize = 0;
        proof {
            assert(all.take(0) =~= Seq::<xir::DeclView>::empty());
        }
        while i < decls.len()
            invariant
                i <= decls.len(),
                all == views(decls@),
                lower_module(module@) == lower_decls(all, start),
                lower_decls(all.take(i as int), start) == Ok::<monoir::ModuleView, ErrorView>(
                    modl@,
                ),
            decreases decls.len() - i,
        {
            proof {
                assert(all.take(i + 1).drop_last() =~= all.take(i as int));
                assert(all.take(i + 1).last() == decls@[i as int]@);
            }
            match &decls[i] {
                xir::Decl::Extern(name) => {
                    match process_symbol(name) {
                        Ok(symbol) => {
                            modl.add_extern(symbol);
                        },
                        Err(e) => {
                            proof {
                                lemma_lower_decls_prefix(all, start, i + 1);
                            }
                            return Err(e);
                        },
                    }
                },
                xir::Decl::Let(bind) => {
                    match self.func(bind) {
                        Ok(res) => {
                            modl.add_func(res);
                        },
                        Err(e) => {
                            proof {
                                lemma_lower_decls_prefix(all, start, i + 1);
                            }
                            return Err(e);
                        },
                    }
                },
            }
            i += 1;
        }
        proof {
            assert(all.take(i as int) =~= all);
        }
        Ok(modl)
    }
}

} // verus!
