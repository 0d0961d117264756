use vstd::prelude::*;

pub mod builtins;
pub mod environment;
pub mod eval;
pub mod error;
pub mod function;
pub(crate) mod host;
pub mod value;
