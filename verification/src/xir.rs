//! The typed polymorphic tree that lowering consumes.

use vstd::prelude::*;
use std::rc::Rc;
use crate::shape::Shape;
use crate::model::views;
use crate::text::{
    bool_text, decimal, lemma_prefix3, lemma_prefix5, lemma_prefix7, lemma_prefix9, signed_decimal,
    write_bool, write_decimal, write_signed_decimal,
};
use crate::typing::types::{write_joined, Type, TypeView};

verus! {

/// A term variable with its type term.
#[derive(Debug, PartialEq, Eq, Hash)]
pub struct Symbol {
    name: Rc<String>,
    ty: Type,
    id: u32,
}

pub struct SymbolView {
    pub name: Seq<char>,
    pub ty: TypeView,
    pub id: u32,
}

impl View for Symbol {
    type V = SymbolView;

    closed spec fn view(&self) -> SymbolView {
        SymbolView { name: self.name@, ty: self.ty@, id: self.id }
    }
}

impl Clone for Symbol {
    fn clone(&self) -> (r: Self)
        ensures
            r@ == self@,
    {
        Symbol { name: self.name.clone(), ty: self.ty.clone(), id: self.id }
    }
}

impl Symbol {
    pub fn new(name: Rc<String>, ty: Type, id: u32) -> (r: Self)
        ensures
            r@ == (SymbolView { name: name@, ty: ty@, id }),
    {
        Symbol { name, ty, id }
    }

    pub fn name(&self) -> (r: &Rc<String>)
        ensures
            r@ == self@.name,
    {
        &self.name
    }

    pub fn ty(&self) -> (r: &Type)
        ensures
            r@ == self@.ty,
    {
        &self.ty
    }

    pub fn id(&self) -> (r: u32)
        ensures
            r == self@.id,
    {
        self.id
    }
}

/// A binding of a symbol to an expression. Only bindings that do not refer
/// to themselves exist.
#[derive(Debug, PartialEq, Eq)]
pub enum Bind {
    NonRec { symbol: Symbol, expr: Expr },
}

pub struct BindView {
    pub symbol: SymbolView,
    pub expr: ExprView,
}

/// A conditional with the type of its result.
#[derive(Debug, PartialEq, Eq)]
pub struct If {
    cond: Expr,
    texpr: Expr,
    fexpr: Expr,
    ty: Type,
}

pub struct IfView {
    pub cond: ExprView,
    pub texpr: ExprView,
    pub fexpr: ExprView,
    pub ty: TypeView,
}

/// A binding and the expression in which it holds.
#[derive(Debug, PartialEq, Eq)]
pub struct Let {
    bind: Bind,
    expr: Expr,
}

pub struct LetView {
    pub bind: BindView,
    pub expr: ExprView,
}

/// A typed expression.
#[derive(Debug, PartialEq, Eq)]
pub enum Expr {
    UnitLit,
    I32Lit(i32),
    BoolLit(bool),
    Var(Symbol),
    If(Box<If>),
    Let(Box<Let>),
    /// Parameters, body, and the declared type of the result.
    Lam(Vec<Symbol>, Box<Expr>, Type),
    /// Callee and arguments.
    App(Box<Expr>, Vec<Expr>),
    /// An expression applied to types: a form of the stages before lowering.
    TyApp(Box<Expr>, Vec<Type>),
}

/// The mathematical value of an [`Expr`].
pub enum ExprView {
    UnitLit,
    I32Lit(i32),
    BoolLit(bool),
    Var(SymbolView),
    If(Box<IfView>),
    Let(Box<LetView>),
    Lam(Seq<SymbolView>, Box<ExprView>, TypeView),
    App(Box<ExprView>, Seq<ExprView>),
    TyApp(Box<ExprView>, Seq<TypeView>),
}

impl Expr {
    pub open spec fn model(self) -> ExprView
        decreases self,
    {
        match self {
            Expr::UnitLit => ExprView::UnitLit,
            Expr::I32Lit(n) => ExprView::I32Lit(n),
            Expr::BoolLit(b) => ExprView::BoolLit(b),
            Expr::Var(symbol) => ExprView::Var(symbol@),
            Expr::If(e) => ExprView::If(Box::new((*e).model())),
            Expr::Let(e) => ExprView::Let(Box::new((*e).model())),
            Expr::Lam(params, body, ty) => ExprView::Lam(
                views(params@),
                Box::new((*body).model()),
                ty@,
            ),
            Expr::App(callee, args) => ExprView::App(
                Box::new((*callee).model()),
                Seq::new(
                    args@.len(),
                    |i: int|
                        if 0 <= i < args@.len() {
                            args@[i].model()
                        } else {
                            ExprView::UnitLit
                        },
                ),
            ),
            Expr::TyApp(expr, types) => ExprView::TyApp(Box::new((*expr).model()), views(types@)),
        }
    }
}

impl View for Expr {
    type V = ExprView;

    open spec fn view(&self) -> ExprView {
        self.model()
    }
}

/// The view of an application is made of the views of its parts.
pub proof fn lemma_view_of_app(callee: Box<Expr>, args: Vec<Expr>)
    ensures
        Expr::App(callee, args)@ == ExprView::App(Box::new((*callee)@), views(args@)),
{
    assert(Expr::App(callee, args)@->App_1 =~= views(args@));
}

impl Bind {
    pub open spec fn model(self) -> BindView
        decreases self,
    {
        match self {
            Bind::NonRec { symbol, expr } => BindView { symbol: symbol@, expr: expr.model() },
        }
    }
}

impl View for Bind {
    type V = BindView;

    open spec fn view(&self) -> BindView {
        self.model()
    }
}

impl If {
    pub closed spec fn model(self) -> IfView
        decreases self,
    {
        IfView {
            cond: self.cond.model(),
            texpr: self.texpr.model(),
            fexpr: self.fexpr.model(),
            ty: self.ty@,
        }
    }

    pub fn new(cond: Expr, texpr: Expr, fexpr: Expr, ty: Type) -> (r: Self)
        ensures
            r@ == (IfView { cond: cond@, texpr: texpr@, fexpr: fexpr@, ty: ty@ }),
    {
        If { cond, texpr, fexpr, ty }
    }

    pub fn cond(&self) -> (r: &Expr)
        ensures
            r@ == self@.cond,
    {
        &self.cond
    }

    pub fn texpr(&self) -> (r: &Expr)
        ensures
            r@ == self@.texpr,
    {
        &self.texpr
    }

    pub fn fexpr(&self) -> (r: &Expr)
        ensures
            r@ == self@.fexpr,
    {
        &self.fexpr
    }

    pub fn ty(&self) -> (r: &Type)
        ensures
            r@ == self@.ty,
    {
        &self.ty
    }
}

impl View for If {
    type V = IfView;

    open spec fn view(&self) -> IfView {
        self.model()
    }
}

impl Let {
    pub closed spec fn model(self) -> LetView
        decreases self,
    {
        LetView { bind: self.bind.model(), expr: self.expr.model() }
    }

    pub fn new(bind: Bind, expr: Expr) -> (r: Self)
        ensures
            r@ == (LetView { bind: bind@, expr: expr@ }),
    {
        Let { bind, expr }
    }

    pub fn bind(&self) -> (r: &Bind)
        ensures
            r@ == self@.bind,
    {
        &self.bind
    }

    pub fn expr(&self) -> (r: &Expr)
        ensures
            r@ == self@.expr,
    {
        &self.expr
    }
}

impl View for Let {
    type V = LetView;

    open spec fn view(&self) -> LetView {
        self.model()
    }
}

/// A declaration of a module.
#[derive(Debug, PartialEq, Eq)]
pub enum Decl {
    /// A symbol defined elsewhere.
    Extern(Symbol),
    /// A binding at the top level.
    Let(Bind),
}

pub enum DeclView {
    Extern(SymbolView),
    Let(BindView),
}

impl View for Decl {
    type V = DeclView;

    open spec fn view(&self) -> DeclView {
        match self {
            Decl::Extern(symbol) => DeclView::Extern(symbol@),
            Decl::Let(bind) => DeclView::Let(bind@),
        }
    }
}

/// A module: its name and its declarations in source order.
#[derive(Debug, PartialEq, Eq)]
pub struct Module {
    name: String,
    decls: Vec<Decl>,
}

pub struct ModuleView {
    pub name: Seq<char>,
    pub decls: Seq<DeclView>,
}

impl View for Module {
    type V = ModuleView;

    closed spec fn view(&self) -> ModuleView {
        ModuleView { name: self.name@, decls: views(self.decls@) }
    }
}

impl Module {
    pub fn new(name: String, decls: Vec<Decl>) -> (r: Self)
        ensures
            r@ == (ModuleView { name: name@, decls: views(decls@) }),
    {
        Module { name, decls }
    }

    pub fn name(&self) -> (r: &String)
        ensures
            r@ == self@.name,
    {
        &self.name
    }

    pub fn decls(&self) -> (r: &Vec<Decl>)
        ensures
            views(r@) == self@.decls,
    {
        &self.decls
    }

    pub fn add_decl(&mut self, decl: Decl)
        ensures
            final(self)@ == (ModuleView { decls: old(self)@.decls.push(decl@), ..old(self)@ }),
    {
        self.decls.push(decl);
        assert(views(self.decls@) =~= views(old(self).decls@).push(decl@));
    }
}

/// The names and identities of `symbols`, in order.
pub open spec fn symbol_shapes(symbols: Seq<SymbolView>) -> Seq<(Seq<char>, u32)> {
    Seq::new(symbols.len(), |i: int| (symbols[i].name, symbols[i].id))
}

impl ExprView {
    /// The expression without its types.
    pub open spec fn shape(self) -> Shape
        decreases self,
    {
        match self {
            ExprView::UnitLit => Shape::UnitLit,
            ExprView::I32Lit(n) => Shape::I32Lit(n),
            ExprView::BoolLit(b) => Shape::BoolLit(b),
            ExprView::Var(symbol) => Shape::Var(symbol.name, symbol.id),
            ExprView::If(e) => Shape::If(
                Box::new(e.cond.shape()),
                Box::new(e.texpr.shape()),
                Box::new(e.fexpr.shape()),
            ),
            ExprView::Let(e) => Shape::Let(
                e.bind.symbol.name,
                e.bind.symbol.id,
                Box::new(e.bind.expr.shape()),
                Box::new(e.expr.shape()),
            ),
            ExprView::Lam(params, body, _) => Shape::Lam(
                symbol_shapes(params),
                Box::new((*body).shape()),
            ),
            ExprView::App(callee, args) => Shape::App(
                Box::new((*callee).shape()),
                Seq::new(
                    args.len(),
                    |i: int|
                        if 0 <= i < args.len() {
                            args[i].shape()
                        } else {
                            Shape::UnitLit
                        },
                ),
            ),
            ExprView::TyApp(expr, _) => Shape::TyApp(Box::new((*expr).shape())),
        }
    }
}

impl SymbolView {
    /// How a symbol is written in a message: its name, an underscore, its
    /// identity, a colon and a space, and its type.
    pub open spec fn text(self) -> Seq<char> {
        self.name + "_"@ + decimal(self.id as nat) + ": "@ + self.ty.text()
    }

    /// The texts of `symbols`, with a comma and a space between neighbours.
    pub open spec fn joined(symbols: Seq<SymbolView>) -> Seq<char>
        decreases symbols.len(),
    {
        if symbols.len() == 0 {
            Seq::empty()
        } else if symbols.len() == 1 {
            symbols[0].text()
        } else {
            SymbolView::joined(symbols.drop_last()) + ", "@ + symbols.last().text()
        }
    }
}

impl ExprView {
    /// How an expression is written in a message: each form by its name,
    /// with its parts in round brackets and lists in square brackets.
    pub open spec fn text(self) -> Seq<char>
        decreases self,
    {
        match self {
            ExprView::UnitLit => "UnitLit"@,
            ExprView::I32Lit(n) => "I32Lit("@ + signed_decimal(n as int) + ")"@,
            ExprView::BoolLit(b) => "BoolLit("@ + bool_text(b) + ")"@,
            ExprView::Var(symbol) => "Var("@ + symbol.text() + ")"@,
            ExprView::If(e) => "If("@ + (*e).text() + ")"@,
            ExprView::Let(e) => "Let("@ + (*e).text() + ")"@,
            ExprView::Lam(params, body, ty) => "Lam(["@ + SymbolView::joined(params) + "], "@ + (
            *body).text() + ", "@ + ty.text() + ")"@,
            ExprView::App(callee, args) => "App("@ + (*callee).text() + ", ["@ + ExprView::joined(
                args,
            ) + "])"@,
            ExprView::TyApp(expr, types) => "TyApp("@ + (*expr).text() + ", ["@ + TypeView::joined(
                types,
            ) + "])"@,
        }
    }

    /// The texts of `exprs`, with a comma and a space between neighbours.
    pub open spec fn joined(exprs: Seq<ExprView>) -> Seq<char>
        decreases exprs,
    {
        if exprs.len() == 0 {
            Seq::empty()
        } else if exprs.len() == 1 {
            exprs[0].text()
        } else {
            ExprView::joined(exprs.drop_last()) + ", "@ + exprs.last().text()
        }
    }
}

impl IfView {
    /// How a conditional is written in a message: its fields by their names.
    pub open spec fn text(self) -> Seq<char>
        decreases self,
    {
        "If { cond: "@ + self.cond.text() + ", texpr: "@ + self.texpr.text() + ", fexpr: "@
            + self.fexpr.text() + ", ty: "@ + self.ty.text() + " }"@
    }
}

impl LetView {
    /// How a `let` is written in a message: its fields by their names.
    pub open spec fn text(self) -> Seq<char>
        decreases self,
    {
        "Let { bind: "@ + self.bind.text() + ", expr: "@ + self.expr.text() + " }"@
    }
}

impl BindView {
    /// How a binding is written in a message: its fields by their names.
    pub open spec fn text(self) -> Seq<char>
        decreases self,
    {
        "NonRec { symbol: "@ + self.symbol.text() + ", expr: "@ + self.expr.text() + " }"@
    }
}

impl Symbol {
    /// Appends the text of the symbol to `out`.
    pub fn write_text(&self, out: &mut String)
        ensures
            final(out)@ == old(out)@ + self@.text(),
    {
        let name: &String = &*self.name;
        out.append(name.as_str());
        out.append("_");
        write_decimal(self.id, out);
        out.append(": ");
        self.ty.write_text(out);
        assert(out@ =~= old(out)@ + self@.text());
    }

    /// The text of the symbol, as messages show it.
    pub fn describe(&self) -> (r: String)
        ensures
            r@ == self@.text(),
    {
        let mut out = String::new();
        self.write_text(&mut out);
        assert(out@ =~= self@.text());
        out
    }
}

/// Appends the texts of `symbols` to `out`, with a comma and a space between
/// neighbours.
pub fn write_joined_symbols(symbols: &Vec<Symbol>, out: &mut String)
    ensures
        final(out)@ == old(out)@ + SymbolView::joined(views(symbols@)),
{
    let ghost start = out@;
    let ghost all = views(symbols@);
    let mut i: usize = 0;
    proof {
        assert(all.take(0) =~= Seq::<SymbolView>::empty());
        assert(out@ =~= start + SymbolView::joined(all.take(0)));
    }
    while i < symbols.len()
        invariant
            i <= symbols.len(),
            all == views(symbols@),
            out@ == start + SymbolView::joined(all.take(i as int)),
        decreases symbols.len() - i,
    {
        if i > 0 {
            out.append(", ");
        }
        symbols[i].write_text(out);
        proof {
            let next = all.take(i + 1);
            assert(next.drop_last() =~= all.take(i as int));
            assert(next.last() == symbols@[i as int]@);
            if i == 0 {
                assert(SymbolView::joined(all.take(0)) =~= Seq::<char>::empty());
                assert(next[0] == next.last());
            }
            assert(out@ =~= start + SymbolView::joined(next));
        }
        i += 1;
    }
    proof {
        assert(all.take(i as int) =~= all);
    }
}

/// Appends the texts of `exprs` to `out`, with a comma and a space between
/// neighbours.
pub fn write_joined_exprs(exprs: &Vec<Expr>, out: &mut String)
    ensures
        final(out)@ == old(out)@ + ExprView::joined(views(exprs@)),
    decreases exprs,
{
    let ghost start = out@;
    let ghost all = views(exprs@);
    let mut i: usize = 0;
    proof {
        assert(all.take(0) =~= Seq::<ExprView>::empty());
        assert(out@ =~= start + ExprView::joined(all.take(0)));
    }
    while i < exprs.len()
        invariant
            i <= exprs.len(),
            all == views(exprs@),
            out@ == start + ExprView::joined(all.take(i as int)),
        decreases exprs.len() - i,
    {
        if i > 0 {
            out.append(", ");
        }
        proof {
            let ghost whole = *exprs;
            assert(decreases_to!(whole => whole[i as int]));
        }
        exprs[i].write_text(out);
        proof {
            let next = all.take(i + 1);
            assert(next.drop_last() =~= all.take(i as int));
            assert(next.last() == exprs@[i as int]@);
            if i == 0 {
                assert(ExprView::joined(all.take(0)) =~= Seq::<char>::empty());
                assert(next[0] == next.last());
            }
            assert(out@ =~= start + ExprView::joined(next));
        }
        i += 1;
    }
    proof {
        assert(all.take(i as int) =~= all);
    }
}

impl If {
    /// Appends the text of the conditional to `out`.
    pub fn write_text(&self, out: &mut String)
        ensures
            final(out)@ == old(out)@ + self@.text(),
        decreases self,
    {
        out.append("If { cond: ");
        self.cond.write_text(out);
        out.append(", texpr: ");
        self.texpr.write_text(out);
        out.append(", fexpr: ");
        self.fexpr.write_text(out);
        out.append(", ty: ");
        self.ty.write_text(out);
        out.append(" }");
        proof {
            lemma_prefix9(
                old(out)@,
                "If { cond: "@,
                self@.cond.text(),
                ", texpr: "@,
                self@.texpr.text(),
                ", fexpr: "@,
                self@.fexpr.text(),
                ", ty: "@,
                self@.ty.text(),
                " }"@,
            );
        }
    }
}

impl Bind {
    /// Appends the text of the binding to `out`.
    pub fn write_text(&self, out: &mut String)
        ensures
            final(out)@ == old(out)@ + self@.text(),
        decreases self,
    {
        match self {
            Bind::NonRec { symbol, expr } => {
                out.append("NonRec { symbol: ");
                symbol.write_text(out);
                out.append(", expr: ");
                expr.write_text(out);
                out.append(" }");
                proof {
                    lemma_prefix5(
                        old(out)@,
                        "NonRec { symbol: "@,
                        symbol@.text(),
                        ", expr: "@,
                        expr@.text(),
                        " }"@,
                    );
                }
            },
        }
    }
}

impl Let {
    /// Appends the text of the `let` to `out`.
    pub fn write_text(&self, out: &mut String)
        ensures
            final(out)@ == old(out)@ + self@.text(),
        decreases self,
    {
        out.append("Let { bind: ");
        self.bind.write_text(out);
        out.append(", expr: ");
        self.expr.write_text(out);
        out.append(" }");
        proof {
            lemma_prefix5(
                old(out)@,
                "Let { bind: "@,
                self@.bind.text(),
                ", expr: "@,
                self@.expr.text(),
                " }"@,
            );
        }
    }
}

impl Expr {
    /// Appends the text of the expression to `out`.
    pub fn write_text(&self, out: &mut String)
        ensures
            final(out)@ == old(out)@ + self@.text(),
        decreases self,
    {
        match self {
            Expr::UnitLit => {
                out.append("UnitLit");
            },
            Expr::I32Lit(n) => {
                out.append("I32Lit(");
                write_signed_decimal(*n, out);
                out.append(")");
                proof {
                    lemma_prefix3(old(out)@, "I32Lit("@, signed_decimal(*n as int), ")"@);
                }
            },
            Expr::BoolLit(b) => {
                out.append("BoolLit(");
                write_bool(*b, out);
                out.append(")");
                proof {
                    lemma_prefix3(old(out)@, "BoolLit("@, bool_text(*b), ")"@);
                }
            },
            Expr::Var(symbol) => {
                out.append("Var(");
                symbol.write_text(out);
                out.append(")");
                proof {
                    lemma_prefix3(old(out)@, "Var("@, symbol@.text(), ")"@);
                }
            },
            Expr::If(e) => {
                out.append("If(");
                e.write_text(out);
                out.append(")");
                proof {
                    lemma_prefix3(old(out)@, "If("@, (**e)@.text(), ")"@);
                }
            },
            Expr::Let(e) => {
                out.append("Let(");
                e.write_text(out);
                out.append(")");
                proof {
                    lemma_prefix3(old(out)@, "Let("@, (**e)@.text(), ")"@);
                }
            },
            Expr::Lam(params, body, ty) => {
                out.append("Lam([");
                write_joined_symbols(params, out);
                out.append("], ");
                body.write_text(out);
                out.append(", ");
                ty.write_text(out);
                out.append(")");
                proof {
                    lemma_prefix7(
                        old(out)@,
                        "Lam(["@,
                        SymbolView::joined(views(params@)),
                        "], "@,
                        (**body)@.text(),
                        ", "@,
                        ty@.text(),
                        ")"@,
                    );
                }
            },
            Expr::App(callee, args) => {
                out.append("App(");
                callee.write_text(out);
                out.append(", [");
                write_joined_exprs(args, out);
                out.append("])");
                proof {
                    lemma_view_of_app(*callee, *args);
                    lemma_prefix5(
                        old(out)@,
                        "App("@,
                        (**callee)@.text(),
                        ", ["@,
                        ExprView::joined(views(args@)),
                        "])"@,
                    );
                }
            },
            Expr::TyApp(expr, types) => {
                out.append("TyApp(");
                expr.write_text(out);
                out.append(", [");
                write_joined(types, out);
                out.append("])");
                proof {
                    lemma_prefix5(
                        old(out)@,
                        "TyApp("@,
                        (**expr)@.text(),
                        ", ["@,
                        TypeView::joined(views(types@)),
                        "])"@,
                    );
                }
            },
        }
    }

    /// The text of the expression, as messages show it.
    pub fn describe(&self) -> (r: String)
        ensures
            r@ == self@.text(),
    {
        let mut out = String::new();
        self.write_text(&mut out);
        assert(out@ =~= self@.text());
        out
    }
}

} // verus!
