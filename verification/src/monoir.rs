//! The monomorphic tree that lowering produces: every type in it is `Unit`,
//! `Bool`, `I32` or a function type over these.

use vstd::prelude::*;
use std::rc::Rc;
use crate::shape::Shape;
use crate::model::views;

verus! {

/// A monomorphic type.
#[derive(Debug, PartialEq, Eq, Hash)]
pub enum Type {
    Unit,
    Bool,
    I32,
    Function { params_ty: Vec<Type>, return_ty: Box<Type> },
}

/// The mathematical value of a [`Type`].
pub enum TypeView {
    Unit,
    Bool,
    I32,
    Function { params_ty: Seq<TypeView>, return_ty: Box<TypeView> },
}

impl Type {
    pub open spec fn model(self) -> TypeView
        decreases self,
    {
        match self {
            Type::Unit => TypeView::Unit,
            Type::Bool => TypeView::Bool,
            Type::I32 => TypeView::I32,
            Type::Function { params_ty, return_ty } => TypeView::Function {
                params_ty: Seq::new(
                    params_ty@.len(),
                    |i: int|
                        if 0 <= i < params_ty@.len() {
                            params_ty@[i].model()
                        } else {
                            TypeView::Unit
                        },
                ),
                return_ty: Box::new((*return_ty).model()),
            },
        }
    }
}

impl View for Type {
    type V = TypeView;

    open spec fn view(&self) -> TypeView {
        self.model()
    }
}

/// The view of a function type is made of the views of its parts.
pub proof fn lemma_view_of_function(params_ty: Vec<Type>, return_ty: Box<Type>)
    ensures
        (Type::Function { params_ty, return_ty })@ == (TypeView::Function {
            params_ty: views(params_ty@),
            return_ty: Box::new((*return_ty)@),
        }),
{
    assert((Type::Function { params_ty, return_ty })@->params_ty =~= views(params_ty@));
}

/// A term variable with its monomorphic type.
#[derive(Debug, PartialEq, Eq, Hash)]
pub struct Symbol {
    name: Rc<String>,
    ty: Type,
    id: u32,
}

pub struct SymbolView {
    pub name: Seq<char>,
    pub ty: TypeView,
    pub id: u32,
}

impl View for Symbol {
    type V = SymbolView;

    closed spec fn view(&self) -> SymbolView {
        SymbolView { name: self.name@, ty: self.ty@, id: self.id }
    }
}

impl Symbol {
    pub fn new(name: Rc<String>, ty: Type, id: u32) -> (r: Self)
        ensures
            r@ == (SymbolView { name: name@, ty: ty@, id }),
    {
        Symbol { name, ty, id }
    }

    pub fn name(&self) -> (r: &Rc<String>)
        ensures
            r@ == self@.name,
    {
        &self.name
    }

    pub fn ty(&self) -> (r: &Type)
        ensures
            r@ == self@.ty,
    {
        &self.ty
    }

    pub fn id(&self) -> (r: u32)
        ensures
            r == self@.id,
    {
        self.id
    }
}

/// A binding of a symbol to an expression.
#[derive(Debug, PartialEq, Eq)]
pub struct Bind {
    symbol: Symbol,
    expr: Expr,
}

pub struct BindView {
    pub symbol: SymbolView,
    pub expr: ExprView,
}

/// A function literal: its parameters and its body.
#[derive(Debug, PartialEq, Eq)]
pub struct Lam {
    params: Vec<Symbol>,
    body: Expr,
}

pub struct LamView {
    pub params: Seq<SymbolView>,
    pub body: ExprView,
}

/// A monomorphic expression.
#[derive(Debug, PartialEq, Eq)]
pub enum Expr {
    UnitLit,
    I32Lit(i32),
    BoolLit(bool),
    Var(Symbol),
    If(Box<Expr>, Box<Expr>, Box<Expr>, Type),
    Let(Box<Bind>, Box<Expr>),
    Lam(Box<Lam>),
    App(Box<Expr>, Vec<Expr>),
}

/// The mathematical value of an [`Expr`].
pub enum ExprView {
    UnitLit,
    I32Lit(i32),
    BoolLit(bool),
    Var(SymbolView),
    If(Box<ExprView>, Box<ExprView>, Box<ExprView>, TypeView),
    Let(Box<BindView>, Box<ExprView>),
    Lam(Box<LamView>),
    App(Box<ExprView>, Seq<ExprView>),
}

impl Expr {
    pub open spec fn model(self) -> ExprView
        decreases self,
    {
        match self {
            Expr::UnitLit => ExprView::UnitLit,
            Expr::I32Lit(n) => ExprView::I32Lit(n),
            Expr::BoolLit(b) => ExprView::BoolLit(b),
            Expr::Var(symbol) => ExprView::Var(symbol@),
            Expr::If(cond, texpr, fexpr, ty) => ExprView::If(
                Box::new((*cond).model()),
                Box::new((*texpr).model()),
                Box::new((*fexpr).model()),
                ty@,
            ),
            Expr::Let(bind, expr) => ExprView::Let(
                Box::new((*bind).model()),
                Box::new((*expr).model()),
            ),
            Expr::Lam(lam) => ExprView::Lam(Box::new((*lam).model())),
            Expr::App(callee, args) => ExprView::App(
                Box::new((*callee).model()),
                Seq::new(
                    args@.len(),
                    |i: int|
                        if 0 <= i < args@.len() {
                            args@[i].model()
                        } else {
                            ExprView::UnitLit
                        },
                ),
            ),
        }
    }
}

impl View for Expr {
    type V = ExprView;

    open spec fn view(&self) -> ExprView {
        self.model()
    }
}

/// The view of an application is made of the views of its parts.
pub proof fn lemma_view_of_app(callee: Box<Expr>, args: Vec<Expr>)
    ensures
        Expr::App(callee, args)@ == ExprView::App(Box::new((*callee)@), views(args@)),
{
    assert(Expr::App(callee, args)@->App_1 =~= views(args@));
}

impl Bind {
    pub closed spec fn model(self) -> BindView
        decreases self,
    {
        BindView { symbol: self.symbol@, expr: self.expr.model() }
    }

    pub fn new(symbol: Symbol, expr: Expr) -> (r: Self)
        ensures
            r@ == (BindView { symbol: symbol@, expr: expr@ }),
    {
        Bind { symbol, expr }
    }

    pub fn symbol(&self) -> (r: &Symbol)
        ensures
            r@ == self@.symbol,
    {
        &self.symbol
    }

    pub fn expr(&self) -> (r: &Expr)
        ensures
            r@ == self@.expr,
    {
        &self.expr
    }
}

impl View for Bind {
    type V = BindView;

    open spec fn view(&self) -> BindView {
        self.model()
    }
}

impl Lam {
    pub closed spec fn model(self) -> LamView
        decreases self,
    {
        LamView { params: views(self.params@), body: self.body.model() }
    }

    pub fn new(params: Vec<Symbol>, body: Expr) -> (r: Self)
        ensures
            r@ == (LamView { params: views(params@), body: body@ }),
    {
        Lam { params, body }
    }

    pub fn params(&self) -> (r: &Vec<Symbol>)
        ensures
            views(r@) == self@.params,
    {
        &self.params
    }

    pub fn body(&self) -> (r: &Expr)
        ensures
            r@ == self@.body,
    {
        &self.body
    }
}

impl View for Lam {
    type V = LamView;

    open spec fn view(&self) -> LamView {
        self.model()
    }
}

/// A lowered module: its name, the symbols it takes from elsewhere, and its
/// bindings, each list in the order of the source.
#[derive(Debug, PartialEq, Eq)]
pub struct Module {
    name: String,
    externs: Vec<Symbol>,
    funcs: Vec<Bind>,
}

pub struct ModuleView {
    pub name: Seq<char>,
    pub externs: Seq<SymbolView>,
    pub funcs: Seq<BindView>,
}

impl View for Module {
    type V = ModuleView;

    closed spec fn view(&self) -> ModuleView {
        ModuleView { name: self.name@, externs: views(self.externs@), funcs: views(self.funcs@) }
    }
}

impl Module {
    /// A module of the given name, with no externs and no bindings.
    pub fn new(name: String) -> (r: Self)
        ensures
            r@ == (ModuleView { name: name@, externs: Seq::empty(), funcs: Seq::empty() }),
    {
        let r = Module { name, externs: Vec::new(), funcs: Vec::new() };
        assert(views(r.externs@) =~= Seq::<SymbolView>::empty());
        assert(views(r.funcs@) =~= Seq::<BindView>::empty());
        r
    }

    pub fn name(&self) -> (r: &String)
        ensures
            r@ == self@.name,
    {
        &self.name
    }

    pub fn externs(&self) -> (r: &Vec<Symbol>)
        ensures
            views(r@) == self@.externs,
    {
        &self.externs
    }

    pub fn funcs(&self) -> (r: &Vec<Bind>)
        ensures
            views(r@) == self@.funcs,
    {
        &self.funcs
    }

    pub fn add_extern(&mut self, symbol: Symbol)
        ensures
            final(self)@ == (ModuleView {
                externs: old(self)@.externs.push(symbol@),
                ..old(self)@
            }),
    {
        self.externs.push(symbol);
        assert(views(self.externs@) =~= views(old(self).externs@).push(symbol@));
    }

    pub fn add_func(&mut self, bind: Bind)
        ensures
            final(self)@ == (ModuleView { funcs: old(self)@.funcs.push(bind@), ..old(self)@ }),
    {
        self.funcs.push(bind);
        assert(views(self.funcs@) =~= views(old(self).funcs@).push(bind@));
    }
}

/// The names and identities of `symbols`, in order.
pub open spec fn symbol_shapes(symbols: Seq<SymbolView>) -> Seq<(Seq<char>, u32)> {
    Seq::new(symbols.len(), |i: int| (symbols[i].name, symbols[i].id))
}

impl ExprView {
    /// The expression without its types.
    pub open spec fn shape(self) -> Shape
        decreases self,
    {
        match self {
            ExprView::UnitLit => Shape::UnitLit,
            ExprView::I32Lit(n) => Shape::I32Lit(n),
            ExprView::BoolLit(b) => Shape::BoolLit(b),
            ExprView::Var(symbol) => Shape::Var(symbol.name, symbol.id),
            ExprView::If(cond, texpr, fexpr, _) => Shape::If(
                Box::new((*cond).shape()),
                Box::new((*texpr).shape()),
                Box::new((*fexpr).shape()),
            ),
            ExprView::Let(bind, expr) => Shape::Let(
                bind.symbol.name,
                bind.symbol.id,
                Box::new(bind.expr.shape()),
                Box::new((*expr).shape()),
            ),
            ExprView::Lam(lam) => Shape::Lam(symbol_shapes(lam.params), Box::new(lam.body.shape())),
            ExprView::App(callee, args) => Shape::App(
                Box::new((*callee).shape()),
                Seq::new(
                    args.len(),
                    |i: int|
                        if 0 <= i < args.len() {
                            args[i].shape()
                        } else {
                            Shape::UnitLit
                        },
                ),
            ),
        }
    }
}

} // verus!
