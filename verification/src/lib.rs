#![verifier::loop_isolation(false)]
use vstd::prelude::*;

pub mod laws;
pub mod lexer;
pub mod parser;
pub mod runtime;
pub mod text;

pub use runtime::environment::Environment;
pub use runtime::error::InterpreterError;
pub use runtime::function::BuiltinFunction;
pub use runtime::function::UserFunction;
pub use runtime::value::Value;
