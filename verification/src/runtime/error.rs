use vstd::prelude::*;
use crate::runtime::value::{Value, ValueV, view_value};

verus! {

/// Mathematical model of an evaluation error. The human-readable
/// message carried by an error is presentation only and is not part
/// of the model; the variant and its semantic payload are.
pub enum InterpreterErrorV {
    UndefinedVariable(Seq<char>),
    InvalidOperation,
    TypeMismatch,
    UnsupportedExpression,
    Return(ValueV),
    Break,
    Continue,
    RecursionLimit,
}

/// An error raised during evaluation. `Return` is not a failure but a
/// control-flow signal: it unwinds to the nearest function-call
/// boundary, which turns it back into an ordinary value.
/// `RecursionLimit` reports that evaluation exceeded the fixed nesting
/// budget of the interpreter.
#[derive(Debug)]
pub enum InterpreterError {
    UndefinedVariable(String),
    InvalidOperation(String),
    TypeMismatch(String),
    UnsupportedExpression(String),
    Return(Value),
    Break,
    Continue,
    RecursionLimit,
}

impl View for InterpreterError {
    type V = InterpreterErrorV;

    open spec fn view(&self) -> InterpreterErrorV {
        match self {
            InterpreterError::UndefinedVariable(s) => InterpreterErrorV::UndefinedVariable(s@),
            InterpreterError::InvalidOperation(_) => InterpreterErrorV::InvalidOperation,
            InterpreterError::TypeMismatch(_) => InterpreterErrorV::TypeMismatch,
            InterpreterError::UnsupportedExpression(_) => InterpreterErrorV::UnsupportedExpression,
            InterpreterError::Return(v) => InterpreterErrorV::Return(view_value(*v)),
            InterpreterError::Break => InterpreterErrorV::Break,
            InterpreterError::Continue => InterpreterErrorV::Continue,
            InterpreterError::RecursionLimit => InterpreterErrorV::RecursionLimit,
        }
    }
}

} // verus!
