use vstd::prelude::*;
use crate::lexer::token::{Token, TokenV};

verus! {

/// Mathematical model of a parse error: what went wrong, carrying the
/// offending token where there is one.
pub enum ParserErrorKindV {
    UnexpectedToken(TokenV),
    UnexpectedEOF,
    InvalidSyntax,
}

/// What went wrong during parsing, carrying the offending token where
/// there is one.
#[derive(Debug)]
pub enum ParserErrorKind {
    UnexpectedToken(Token),
    UnexpectedEOF,
    InvalidSyntax,
}

/// A parse error: its kind and a fixed explanatory message. The
/// message is presentation only; the kind is the model.
#[derive(Debug)]
pub struct ParserError {
    kind: ParserErrorKind,
    message: &'static str,
}

impl View for ParserErrorKind {
    type V = ParserErrorKindV;

    open spec fn view(&self) -> ParserErrorKindV {
        match self {
            ParserErrorKind::UnexpectedToken(t) => ParserErrorKindV::UnexpectedToken(t@),
            ParserErrorKind::UnexpectedEOF => ParserErrorKindV::UnexpectedEOF,
            ParserErrorKind::InvalidSyntax => ParserErrorKindV::InvalidSyntax,
        }
    }
}

impl View for ParserError {
    type V = ParserErrorKindV;

    closed spec fn view(&self) -> ParserErrorKindV {
        self.kind@
    }
}

impl ParserError {
    /// Packs a kind and a message into an error.
    pub fn new(kind: ParserErrorKind, message: &'static str) -> (r: Self)
        ensures
            r@ == kind@,
    {
        Self { kind, message }
    }
}

} // verus!
