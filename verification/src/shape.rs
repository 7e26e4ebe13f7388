//! What lowering leaves untouched in an expression.

use vstd::prelude::*;

verus! {

/// An expression without its types: the tree of its forms, its literal
/// values, and the name and identity of every symbol in it.
pub enum Shape {
    UnitLit,
    I32Lit(i32),
    BoolLit(bool),
    Var(Seq<char>, u32),
    If(Box<Shape>, Box<Shape>, Box<Shape>),
    /// The name and identity of the bound symbol, the bound expression, and
    /// the expression in which the binding holds.
    Let(Seq<char>, u32, Box<Shape>, Box<Shape>),
    /// The names and identities of the parameters, and the body.
    Lam(Seq<(Seq<char>, u32)>, Box<Shape>),
    App(Box<Shape>, Seq<Shape>),
    TyApp(Box<Shape>),
}

} // verus!
