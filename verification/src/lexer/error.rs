use vstd::prelude::*;
use crate::lexer::token::Span;

verus! {

/// Mathematical model of a lexical error: the payload strings become
/// sequences of characters.
pub enum LexerErrorV {
    InvalidNumber(Seq<char>, Span),
    UnexpectedChar(char, Span),
    UnclosedString(Span),
    UnclosedComment(Span),
    InvalidEscape(char, Span),
}

/// An error raised while turning source text into tokens.
#[derive(Debug)]
pub enum LexerError {
    InvalidNumber(String, Span),
    UnexpectedChar(char, Span),
    UnclosedString(Span),
    UnclosedComment(Span),
    InvalidEscape(char, Span),
}

impl View for LexerError {
    type V = LexerErrorV;

    open spec fn view(&self) -> LexerErrorV {
        match self {
            LexerError::InvalidNumber(s, sp) => LexerErrorV::InvalidNumber(s@, *sp),
            LexerError::UnexpectedChar(c, sp) => LexerErrorV::UnexpectedChar(*c, *sp),
            LexerError::UnclosedString(sp) => LexerErrorV::UnclosedString(*sp),
            LexerError::UnclosedComment(sp) => LexerErrorV::UnclosedComment(*sp),
            LexerError::InvalidEscape(c, sp) => LexerErrorV::InvalidEscape(*c, *sp),
        }
    }
}

impl Clone for LexerError {
    /// Cloning a lexical error preserves its model.
    fn clone(&self) -> (res: Self)
        ensures
            res@ == self@,
    {
        match self {
            LexerError::InvalidNumber(s, sp) => LexerError::InvalidNumber(s.clone(), *sp),
            LexerError::UnexpectedChar(c, sp) => LexerError::UnexpectedChar(*c, *sp),
            LexerError::UnclosedString(sp) => LexerError::UnclosedString(*sp),
            LexerError::UnclosedComment(sp) => LexerError::UnclosedComment(*sp),
            LexerError::InvalidEscape(c, sp) => LexerError::InvalidEscape(*c, *sp),
        }
    }
}

} // verus!
