//! The tree in which every term variable carries its identity and its type.

use vstd::prelude::*;
use std::rc::Rc;
use crate::model::views;
use crate::text::{
    bool_text, decimal, lemma_prefix3, lemma_prefix5, lemma_prefix7, lemma_prefix9, signed_decimal,
    write_bool, write_decimal, write_signed_decimal,
};
use crate::typing::types::{TyVar, Type, TypeView};
use crate::typing::Kind;

verus! {

/// A term variable: its name, its identity and its type.
#[derive(Debug, Hash, Eq, PartialEq)]
pub struct TermVar {
    name: Rc<String>,
    id: u32,
    ty: Type,
}

pub struct TermVarView {
    pub name: Seq<char>,
    pub id: u32,
    pub ty: TypeView,
}

impl View for TermVar {
    type V = TermVarView;

    closed spec fn view(&self) -> TermVarView {
        TermVarView { name: self.name@, id: self.id, ty: self.ty@ }
    }
}

impl Clone for TermVar {
    fn clone(&self) -> (r: Self)
        ensures
            r@ == self@,
    {
        TermVar { name: self.name.clone(), id: self.id, ty: self.ty.clone() }
    }
}

impl TermVarView {
    /// How a term variable is written in a message: its name, an underscore,
    /// its identity, a colon and a space, and its type.
    pub open spec fn text(self) -> Seq<char> {
        self.name + "_"@ + decimal(self.id as nat) + ": "@ + self.ty.text()
    }
}

impl TermVar {
    pub fn new(name: Rc<String>, ty: Type, id: u32) -> (r: Self)
        ensures
            r@ == (TermVarView { name: name@, id, ty: ty@ }),
    {
        TermVar { name, ty, id }
    }

    /// The same variable at another type.
    pub fn with_ty(&self, ty: Type) -> (r: TermVar)
        ensures
            r@ == (TermVarView { ty: ty@, ..self@ }),
    {
        TermVar::new(self.name.clone(), ty, self.id)
    }

    pub fn name(&self) -> (r: &Rc<String>)
        ensures
            r@ == self@.name,
    {
        &self.name
    }

    pub fn ty(&self) -> (r: &Type)
        ensures
            r@ == self@.ty,
    {
        &self.ty
    }

    pub fn id(&self) -> (r: u32)
        ensures
            r == self@.id,
    {
        self.id
    }

    /// Appends the text of the variable to `out`.
    pub fn write_text(&self, out: &mut String)
        ensures
            final(out)@ == old(out)@ + self@.text(),
    {
        let name: &String = &*self.name;
        out.append(name.as_str());
        out.append("_");
        write_decimal(self.id, out);
        out.append(": ");
        self.ty.write_text(out);
        proof {
            lemma_prefix5(
                old(out)@,
                self@.name,
                "_"@,
                decimal(self@.id as nat),
                ": "@,
                self@.ty.text(),
            );
        }
    }

    /// The text of the variable, as messages show it.
    pub fn describe(&self) -> (r: String)
        ensures
            r@ == self@.text(),
    {
        let mut out = String::new();
        self.write_text(&mut out);
        assert(out@ =~= self@.text());
        out
    }
}

impl TermVarView {
    /// The texts of `vars`, with a comma and a space between neighbours.
    pub open spec fn joined(vars: Seq<TermVarView>) -> Seq<char>
        decreases vars.len(),
    {
        if vars.len() == 0 {
            Seq::empty()
        } else if vars.len() == 1 {
            vars[0].text()
        } else {
            TermVarView::joined(vars.drop_last()) + ", "@ + vars.last().text()
        }
    }
}

/// Appends the texts of `vars` to `out`, with a comma and a space between
/// neighbours.
pub fn write_joined_vars(vars: &Vec<TermVar>, out: &mut String)
    ensures
        final(out)@ == old(out)@ + TermVarView::joined(views(vars@)),
{
    let ghost start = out@;
    let ghost all = views(vars@);
    let mut i: usize = 0;
    proof {
        assert(all.take(0) =~= Seq::<TermVarView>::empty());
        assert(out@ =~= start + TermVarView::joined(all.take(0)));
    }
    while i < vars.len()
        invariant
            i <= vars.len(),
            all == views(vars@),
            out@ == start + TermVarView::joined(all.take(i as int)),
        decreases vars.len() - i,
    {
        if i > 0 {
            out.append(", ");
        }
        vars[i].write_text(out);
        proof {
            let next = all.take(i + 1);
            assert(next.drop_last() =~= all.take(i as int));
            assert(next.last() == vars@[i as int]@);
            if i == 0 {
                assert(TermVarView::joined(all.take(0)) =~= Seq::<char>::empty());
                assert(next[0] == next.last());
            }
            assert(out@ =~= start + TermVarView::joined(next));
        }
        i += 1;
    }
    proof {
        assert(all.take(i as int) =~= all);
    }
}

/// A variable of either sort.
#[derive(Debug)]
pub enum Var {
    Term(TermVar),
    Type(TyVar, Kind),
}

pub enum VarView {
    Term(TermVarView),
    Type(nat, Kind),
}

impl View for Var {
    type V = VarView;

    open spec fn view(&self) -> VarView {
        match self {
            Var::Term(var) => VarView::Term(var@),
            Var::Type(var, kind) => VarView::Type(var@, *kind),
        }
    }
}

impl Clone for Var {
    fn clone(&self) -> (r: Self)
        ensures
            r@ == self@,
    {
        match self {
            Var::Term(var) => Var::Term(var.clone()),
            Var::Type(var, kind) => Var::Type(*var, kind.clone()),
        }
    }
}

/// A binding of `id` to `bind` that holds in `expr`.
#[derive(Debug)]
pub struct Let {
    id: TermVar,
    bind: Expr,
    expr: Expr,
}

pub struct LetView {
    pub id: TermVarView,
    pub bind: ExprView,
    pub expr: ExprView,
}

/// A conditional with the type of its result.
#[derive(Debug)]
pub struct If {
    cond: Expr,
    texpr: Expr,
    fexpr: Expr,
    ty: Type,
}

pub struct IfView {
    pub cond: ExprView,
    pub texpr: ExprView,
    pub fexpr: ExprView,
    pub ty: TypeView,
}

#[derive(Debug)]
pub enum Expr {
    UnitLit,
    I32Lit(i32),
    BoolLit(bool),
    Var(TermVar),
    If(Box<If>),
    Let(Box<Let>),
    /// Parameters and body.
    Lam(Vec<TermVar>, Box<Expr>),
    /// The number of the application, the callee and the argument.
    App(u32, Box<Expr>, Box<Expr>),
}

/// The mathematical value of an [`Expr`].
pub enum ExprView {
    UnitLit,
    I32Lit(i32),
    BoolLit(bool),
    Var(TermVarView),
    If(Box<IfView>),
    Let(Box<LetView>),
    Lam(Seq<TermVarView>, Box<ExprView>),
    App(u32, Box<ExprView>, Box<ExprView>),
}

impl Expr {
    pub open spec fn model(self) -> ExprView
        decreases self,
    {
        match self {
            Expr::UnitLit => ExprView::UnitLit,
            Expr::I32Lit(n) => ExprView::I32Lit(n),
            Expr::BoolLit(b) => ExprView::BoolLit(b),
            Expr::Var(var) => ExprView::Var(var@),
            Expr::If(e) => ExprView::If(Box::new((*e).model())),
            Expr::Let(e) => ExprView::Let(Box::new((*e).model())),
            Expr::Lam(params, body) => ExprView::Lam(views(params@), Box::new((*body).model())),
            Expr::App(n, callee, arg) => ExprView::App(
                n,
                Box::new((*callee).model()),
                Box::new((*arg).model()),
            ),
        }
    }
}

impl View for Expr {
    type V = ExprView;

    open spec fn view(&self) -> ExprView {
        self.model()
    }
}

impl If {
    pub closed spec fn model(self) -> IfView
        decreases self,
    {
        IfView {
            cond: self.cond.model(),
            texpr: self.texpr.model(),
            fexpr: self.fexpr.model(),
            ty: self.ty@,
        }
    }

    pub fn new(cond: Expr, texpr: Expr, fexpr: Expr, ty: Type) -> (r: Self)
        ensures
            r@ == (IfView { cond: cond@, texpr: texpr@, fexpr: fexpr@, ty: ty@ }),
    {
        If { cond, texpr, fexpr, ty }
    }

    pub fn cond(&self) -> (r: &Expr)
        ensures
            r@ == self@.cond,
    {
        &self.cond
    }

    pub fn texpr(&self) -> (r: &Expr)
        ensures
            r@ == self@.texpr,
    {
        &self.texpr
    }

    pub fn fexpr(&self) -> (r: &Expr)
        ensures
            r@ == self@.fexpr,
    {
        &self.fexpr
    }

    pub fn ty(&self) -> (r: &Type)
        ensures
            r@ == self@.ty,
    {
        &self.ty
    }
}

impl View for If {
    type V = IfView;

    open spec fn view(&self) -> IfView {
        self.model()
    }
}

impl Let {
    pub closed spec fn model(self) -> LetView
        decreases self,
    {
        LetView { id: self.id@, bind: self.bind.model(), expr: self.expr.model() }
    }

    pub fn new(id: TermVar, bind: Expr, expr: Expr) -> (r: Self)
        ensures
            r@ == (LetView { id: id@, bind: bind@, expr: expr@ }),
    {
        Let { id, bind, expr }
    }

    pub fn id(&self) -> (r: &TermVar)
        ensures
            r@ == self@.id,
    {
        &self.id
    }

    pub fn bind(&self) -> (r: &Expr)
        ensures
            r@ == self@.bind,
    {
        &self.bind
    }

    pub fn expr(&self) -> (r: &Expr)
        ensures
            r@ == self@.expr,
    {
        &self.expr
    }
}

impl View for Let {
    type V = LetView;

    open spec fn view(&self) -> LetView {
        self.model()
    }
}

/// A declaration of a module.
#[derive(Debug)]
pub enum Decl {
    /// A variable defined elsewhere.
    Extern(TermVar),
    /// A variable and the expression it is bound to.
    Let(TermVar, Expr),
}

pub enum DeclView {
    Extern(TermVarView),
    Let(TermVarView, ExprView),
}

impl View for Decl {
    type V = DeclView;

    open spec fn view(&self) -> DeclView {
        match self {
            Decl::Extern(var) => DeclView::Extern(var@),
            Decl::Let(var, expr) => DeclView::Let(var@, expr@),
        }
    }
}

/// A module: its name and its declarations in source order.
#[derive(Debug)]
pub struct Module {
    name: String,
    decls: Vec<Decl>,
}

pub struct ModuleView {
    pub name: Seq<char>,
    pub decls: Seq<DeclView>,
}

impl View for Module {
    type V = ModuleView;

    closed spec fn view(&self) -> ModuleView {
        ModuleView { name: self.name@, decls: views(self.decls@) }
    }
}

impl Module {
    pub fn new(name: String, decls: Vec<Decl>) -> (r: Self)
        ensures
            r@ == (ModuleView { name: name@, decls: views(decls@) }),
    {
        Self { name, decls }
    }

    pub fn name(&self) -> (r: &String)
        ensures
            r@ == self@.name,
    {
        &self.name
    }

    pub fn decls(&self) -> (r: &Vec<Decl>)
        ensures
            views(r@) == self@.decls,
    {
        &self.decls
    }

    /// The declarations, out of the module.
    pub fn take_decls(self) -> (r: Vec<Decl>)
        ensures
            views(r@) == self@.decls,
    {
        self.decls
    }

    /// Puts `decl` after the declarations that are there.
    pub fn add_decl(&mut self, decl: Decl)
        ensures
            final(self)@ == (ModuleView { decls: old(self)@.decls.push(decl@), ..old(self)@ }),
    {
        self.decls.push(decl);
        assert(views(self.decls@) =~= views(old(self).decls@).push(decl@));
    }
}

impl ExprView {
    /// How an expression is written in a message: each form by its name,
    /// with its parts in round brackets and lists in square brackets.
    pub open spec fn text(self) -> Seq<char>
        decreases self,
    {
        match self {
            ExprView::UnitLit => "UnitLit"@,
            ExprView::I32Lit(n) => "I32Lit("@ + signed_decimal(n as int) + ")"@,
            ExprView::BoolLit(b) => "BoolLit("@ + bool_text(b) + ")"@,
            ExprView::Var(var) => "Var("@ + var.text() + ")"@,
            ExprView::If(e) => "If("@ + (*e).text() + ")"@,
            ExprView::Let(e) => "Let("@ + (*e).text() + ")"@,
            ExprView::Lam(params, body) => "Lam(["@ + TermVarView::joined(params) + "], "@ + (
            *body).text() + ")"@,
            ExprView::App(n, callee, arg) => "App("@ + decimal(n as nat) + ", "@ + (*callee).text()
                + ", "@ + (*arg).text() + ")"@,
        }
    }
}

impl IfView {
    /// How a conditional is written in a message: its fields by their names.
    pub open spec fn text(self) -> Seq<char>
        decreases self,
    {
        "If { cond: "@ + self.cond.text() + ", texpr: "@ + self.texpr.text() + ", fexpr: "@
            + self.fexpr.text() + ", ty: "@ + self.ty.text() + " }"@
    }
}

impl LetView {
    /// How a `let` is written in a message: the binding on one line, the
    /// expression in which it holds on the next.
    pub open spec fn text(self) -> Seq<char>
        decreases self,
    {
        "let "@ + self.id.text() + " = "@ + self.bind.text() + "\n"@ + self.expr.text()
    }
}

impl If {
    /// Appends the text of the conditional to `out`.
    pub fn write_text(&self, out: &mut String)
        ensures
            final(out)@ == old(out)@ + self@.text(),
        decreases self,
    {
        out.append("If { cond: ");
        self.cond.write_text(out);
        out.append(", texpr: ");
        self.texpr.write_text(out);
        out.append(", fexpr: ");
        self.fexpr.write_text(out);
        out.append(", ty: ");
        self.ty.write_text(out);
        out.append(" }");
        proof {
            lemma_prefix9(
                old(out)@,
                "If { cond: "@,
                self@.cond.text(),
                ", texpr: "@,
                self@.texpr.text(),
                ", fexpr: "@,
                self@.fexpr.text(),
                ", ty: "@,
                self@.ty.text(),
                " }"@,
            );
        }
    }

    /// The text of the conditional, as messages show it.
    pub fn describe(&self) -> (r: String)
        ensures
            r@ == self@.text(),
    {
        let mut out = String::new();
        self.write_text(&mut out);
        assert(out@ =~= self@.text());
        out
    }
}

impl Let {
    /// Appends the text of the `let` to `out`.
    pub fn write_text(&self, out: &mut String)
        ensures
            final(out)@ == old(out)@ + self@.text(),
        decreases self,
    {
        out.append("let ");
        self.id.write_text(out);
        out.append(" = ");
        self.bind.write_text(out);
        out.append("\n");
        self.expr.write_text(out);
        proof {
            lemma_prefix5(
                old(out)@,
                "let "@,
                self@.id.text(),
                " = "@,
                self@.bind.text(),
                "\n"@,
            );
            assert(old(out)@ + ("let "@ + self@.id.text() + " = "@ + self@.bind.text() + "\n"@)
                + self@.expr.text() =~= old(out)@ + self@.text());
        }
    }

    /// The text of the `let`, as messages show it.
    pub fn describe(&self) -> (r: String)
        ensures
            r@ == self@.text(),
    {
        let mut out = String::new();
        self.write_text(&mut out);
        assert(out@ =~= self@.text());
        out
    }
}

impl Expr {
    /// Appends the text of the expression to `out`.
    pub fn write_text(&self, out: &mut String)
        ensures
            final(out)@ == old(out)@ + self@.text(),
        decreases self,
    {
        match self {
            Expr::UnitLit => {
                out.append("UnitLit");
            },
            Expr::I32Lit(n) => {
                out.append("I32Lit(");
                write_signed_decimal(*n, out);
                out.append(")");
                proof {
                    lemma_prefix3(old(out)@, "I32Lit("@, signed_decimal(*n as int), ")"@);
                }
            },
            Expr::BoolLit(b) => {
                out.append("BoolLit(");
                write_bool(*b, out);
                out.append(")");
                proof {
                    lemma_prefix3(old(out)@, "BoolLit("@, bool_text(*b), ")"@);
                }
            },
            Expr::Var(var) => {
                out.append("Var(");
                var.write_text(out);
                out.append(")");
                proof {
                    lemma_prefix3(old(out)@, "Var("@, var@.text(), ")"@);
                }
            },
            Expr::If(e) => {
                out.append("If(");
                e.write_text(out);
                out.append(")");
                proof {
                    lemma_prefix3(old(out)@, "If("@, (**e)@.text(), ")"@);
                }
            },
            Expr::Let(e) => {
                out.append("Let(");
                e.write_text(out);
                out.append(")");
                proof {
                    lemma_prefix3(old(out)@, "Let("@, (**e)@.text(), ")"@);
                }
            },
            Expr::Lam(params, body) => {
                out.append("Lam([");
                write_joined_vars(params, out);
                out.append("], ");
                body.write_text(out);
                out.append(")");
                proof {
                    lemma_prefix5(
                        old(out)@,
                        "Lam(["@,
                        TermVarView::joined(views(params@)),
                        "], "@,
                        (**body)@.text(),
                        ")"@,
                    );
                }
            },
            Expr::App(n, callee, arg) => {
                out.append("App(");
                write_decimal(*n, out);
                out.append(", ");
                callee.write_text(out);
                out.append(", ");
                arg.write_text(out);
                out.append(")");
                proof {
                    lemma_prefix7(
                        old(out)@,
                        "App("@,
                        decimal(*n as nat),
                        ", "@,
                        (**callee)@.text(),
                        ", "@,
                        (**arg)@.text(),
                        ")"@,
                    );
                }
            },
        }
    }

    /// The text of the expression, as messages show it.
    pub fn describe(&self) -> (r: String)
        ensures
            r@ == self@.text(),
    {
        let mut out = String::new();
        self.write_text(&mut out);
        assert(out@ =~= self@.text());
        out
    }
}

} // verus!
