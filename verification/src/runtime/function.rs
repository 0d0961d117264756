use vstd::prelude::*;
use crate::parser::ast::{clone_names, view_names, Expr, ExprV};

verus! {

/// The built-in functions that the initial environment offers.
#[derive(Debug, Clone, Copy, PartialEq)]
pub enum BuiltinFunction {
    Print,
    Input,
    Int,
    Random,
    Push,
    Pop,
    Vector,
}

/// A function written in the language: its parameter names and its
/// body expression.
#[derive(Debug, PartialEq)]
pub struct UserFunction {
    pub params: Vec<String>,
    pub body: Expr,
}

/// A callable: either a built-in or a user function.
#[derive(Debug, PartialEq)]
pub enum Function {
    Builtin(BuiltinFunction),
    User(UserFunction),
}

/// Mathematical model of a callable.
pub enum FunctionV {
    Builtin(BuiltinFunction),
    User { params: Seq<Seq<char>>, body: ExprV },
}

impl View for UserFunction {
    type V = FunctionV;

    open spec fn view(&self) -> FunctionV {
        FunctionV::User { params: view_names(self.params@), body: self.body@ }
    }
}

impl View for Function {
    type V = FunctionV;

    open spec fn view(&self) -> FunctionV {
        match self {
            Function::Builtin(b) => FunctionV::Builtin(*b),
            Function::User(u) => u@,
        }
    }
}

impl UserFunction {
    /// Packs parameter names and a body into a user function.
    pub fn new(params: Vec<String>, body: Expr) -> (res: Self)
        ensures
            res@ == (FunctionV::User { params: view_names(params@), body: body@ }),
    {
        Self { params, body }
    }
}

impl Clone for UserFunction {
    /// Cloning a user function preserves its model.
    fn clone(&self) -> (res: Self)
        ensures
            res@ == self@,
    {
        UserFunction { params: clone_names(&self.params), body: self.body.clone() }
    }
}

impl Clone for Function {
    /// Cloning a callable preserves its model.
    fn clone(&self) -> (res: Self)
        ensures
            res@ == self@,
    {
        match self {
            Function::Builtin(b) => Function::Builtin(*b),
            Function::User(u) => Function::User(u.clone()),
        }
    }
}

} // verus!
