//! The tree of named functions that code generation reads.

use vstd::prelude::*;
use crate::idtree::{TermVar, TermVarView};
use crate::model::views;

verus! {

#[derive(PartialEq, Eq, Clone, Copy, Debug)]
pub enum BaseType {
    Unit,
    Bool,
    I32,
}

#[derive(Debug)]
pub enum Type {
    BaseType(BaseType),
    FunctionType { params_ty: Vec<Type>, return_ty: Box<Type> },
}

/// The mathematical value of a [`Type`].
pub enum TypeView {
    BaseType(BaseType),
    FunctionType { params_ty: Seq<TypeView>, return_ty: Box<TypeView> },
}

impl Type {
    pub open spec fn model(self) -> TypeView
        decreases self,
    {
        match self {
            Type::BaseType(base) => TypeView::BaseType(base),
            Type::FunctionType { params_ty, return_ty } => TypeView::FunctionType {
                params_ty: Seq::new(
                    params_ty@.len(),
                    |i: int|
                        if 0 <= i < params_ty@.len() {
                            params_ty@[i].model()
                        } else {
                            TypeView::BaseType(BaseType::Unit)
                        },
                ),
                return_ty: Box::new((*return_ty).model()),
            },
        }
    }
}

impl View for Type {
    type V = TypeView;

    open spec fn view(&self) -> TypeView {
        self.model()
    }
}

/// A reference to a variable.
pub type VarRef = TermVar;

/// The head of a function: its name, its parameters and the type of its
/// result.
#[derive(Debug)]
pub struct FnProto {
    name: VarRef,
    params: Vec<VarRef>,
    return_ty: Type,
}

pub struct FnProtoView {
    pub name: TermVarView,
    pub params: Seq<TermVarView>,
    pub return_ty: TypeView,
}

impl View for FnProto {
    type V = FnProtoView;

    closed spec fn view(&self) -> FnProtoView {
        FnProtoView { name: self.name@, params: views(self.params@), return_ty: self.return_ty@ }
    }
}

#[derive(Debug)]
pub enum Literal {
    Unit,
    I32(i32),
    Bool(bool),
}

/// A function: its head and its body.
#[derive(Debug)]
pub struct Lambda {
    proto: FnProto,
    body: Expr,
}

pub struct LambdaView {
    pub proto: FnProtoView,
    pub body: ExprView,
}

#[derive(Debug)]
pub enum Expr {
    UnitLit,
    I32Lit(i32),
    BoolLit(bool),
    Lambda(Box<Lambda>),
    App { callee: Box<Expr>, args: Vec<Expr> },
    Var(VarRef),
    If { cond: Box<Expr>, texpr: Box<Expr>, fexpr: Box<Expr> },
}

/// The mathematical value of an [`Expr`].
pub enum ExprView {
    UnitLit,
    I32Lit(i32),
    BoolLit(bool),
    Lambda(Box<LambdaView>),
    App { callee: Box<ExprView>, args: Seq<ExprView> },
    Var(TermVarView),
    If { cond: Box<ExprView>, texpr: Box<ExprView>, fexpr: Box<ExprView> },
}

impl Expr {
    pub open spec fn model(self) -> ExprView
        decreases self,
    {
        match self {
            Expr::UnitLit => ExprView::UnitLit,
            Expr::I32Lit(n) => ExprView::I32Lit(n),
            Expr::BoolLit(b) => ExprView::BoolLit(b),
            Expr::Lambda(lambda) => ExprView::Lambda(Box::new((*lambda).model())),
            Expr::App { callee, args } => ExprView::App {
                callee: Box::new((*callee).model()),
                args: Seq::new(
                    args@.len(),
                    |i: int|
                        if 0 <= i < args@.len() {
                            args@[i].model()
                        } else {
                            ExprView::UnitLit
                        },
                ),
            },
            Expr::Var(var) => ExprView::Var(var@),
            Expr::If { cond, texpr, fexpr } => ExprView::If {
                cond: Box::new((*cond).model()),
                texpr: Box::new((*texpr).model()),
                fexpr: Box::new((*fexpr).model()),
            },
        }
    }
}

impl View for Expr {
    type V = ExprView;

    open spec fn view(&self) -> ExprView {
        self.model()
    }
}

/// A module: its name, its types, its functions and the heads of the
/// functions it takes from elsewhere, each list in the order in which it was
/// filled.
#[derive(Debug)]
pub struct Module {
    name: String,
    types: Vec<Type>,
    lambdas: Vec<Lambda>,
    ext_func: Vec<FnProto>,
}

pub struct ModuleView {
    pub name: Seq<char>,
    pub types: Seq<TypeView>,
    pub lambdas: Seq<LambdaView>,
    pub externs: Seq<FnProtoView>,
}

impl View for Module {
    type V = ModuleView;

    closed spec fn view(&self) -> ModuleView {
        ModuleView {
            name: self.name@,
            types: views(self.types@),
            lambdas: views(self.lambdas@),
            externs: views(self.ext_func@),
        }
    }
}

impl Module {
    /// A module of the given name with nothing in it.
    pub fn new(name: String) -> (r: Self)
        ensures
            r@ == (ModuleView {
                name: name@,
                types: Seq::empty(),
                lambdas: Seq::empty(),
                externs: Seq::empty(),
            }),
    {
        let r = Self { name, types: vec![], lambdas: vec![], ext_func: vec![] };
        assert(views(r.types@) =~= Seq::<TypeView>::empty());
        assert(views(r.lambdas@) =~= Seq::<LambdaView>::empty());
        assert(views(r.ext_func@) =~= Seq::<FnProtoView>::empty());
        r
    }

    pub fn name(&self) -> (r: &String)
        ensures
            r@ == self@.name,
    {
        &self.name
    }

    pub fn types(&self) -> (r: &Vec<Type>)
        ensures
            views(r@) == self@.types,
    {
        &self.types
    }

    pub fn lambdas(&self) -> (r: &Vec<Lambda>)
        ensures
            views(r@) == self@.lambdas,
    {
        &self.lambdas
    }

    pub fn externs(&self) -> (r: &Vec<FnProto>)
        ensures
            views(r@) == self@.externs,
    {
        &self.ext_func
    }

    pub fn add_lambda(&mut self, lam: Lambda)
        ensures
            final(self)@ == (ModuleView { lambdas: old(self)@.lambdas.push(lam@), ..old(self)@ }),
    {
        self.lambdas.push(lam);
        assert(views(self.lambdas@) =~= views(old(self).lambdas@).push(lam@));
    }

    pub fn add_type(&mut self, ty: Type)
        ensures
            final(self)@ == (ModuleView { types: old(self)@.types.push(ty@), ..old(self)@ }),
    {
        self.types.push(ty);
        assert(views(self.types@) =~= views(old(self).types@).push(ty@));
    }

    pub fn add_extern(&mut self, proto: FnProto)
        ensures
            final(self)@ == (ModuleView { externs: old(self)@.externs.push(proto@), ..old(self)@ }),
    {
        self.ext_func.push(proto);
        assert(views(self.ext_func@) =~= views(old(self).ext_func@).push(proto@));
    }
}

impl FnProto {
    pub fn new(name: VarRef, params: Vec<VarRef>, return_ty: Type) -> (r: Self)
        ensures
            r@ == (FnProtoView { name: name@, params: views(params@), return_ty: return_ty@ }),
    {
        FnProto { name, params, return_ty }
    }

    pub fn name(&self) -> (r: &VarRef)
        ensures
            r@ == self@.name,
    {
        &self.name
    }

    pub fn return_ty(&self) -> (r: &Type)
        ensures
            r@ == self@.return_ty,
    {
        &self.return_ty
    }

    pub fn params(&self) -> (r: &Vec<VarRef>)
        ensures
            views(r@) == self@.params,
    {
        &self.params
    }
}

impl Lambda {
    pub closed spec fn model(self) -> LambdaView
        decreases self,
    {
        LambdaView { proto: self.proto@, body: self.body.model() }
    }

    pub fn new(proto: FnProto, body: Expr) -> (r: Self)
        ensures
            r@ == (LambdaView { proto: proto@, body: body@ }),
    {
        Lambda { proto, body }
    }

    pub fn name(&self) -> (r: &VarRef)
        ensures
            r@ == self@.proto.name,
    {
        &self.proto.name
    }

    pub fn body(&self) -> (r: &Expr)
        ensures
            r@ == self@.body,
    {
        &self.body
    }

    pub fn return_ty(&self) -> (r: &Type)
        ensures
            r@ == self@.proto.return_ty,
    {
        &self.proto.return_ty
    }

    pub fn params(&self) -> (r: &Vec<VarRef>)
        ensures
            views(r@) == self@.proto.params,
    {
        &self.proto.params
    }
}

impl View for Lambda {
    type V = LambdaView;

    open spec fn view(&self) -> LambdaView {
        self.model()
    }
}

} // verus!
