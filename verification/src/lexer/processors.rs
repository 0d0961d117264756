use vstd::prelude::*;
use crate::lexer::error::{LexerError, LexerErrorV};
use crate::lexer::scan::{is_ident_char, is_numlike_char, is_ws_char, keyword_kind_s,
    operator_step_s, scan_block_comment_s, scan_ident_end, scan_line_comment_end,
    scan_numlike_end, scan_string_s, skip_ws_s, symbol_kind_s, BlockScanV, StrScanV};
use crate::lexer::token::{Span, Token, TokenKind, TokenKindV, TokenV};
use crate::lexer::Lexer;
use crate::runtime::host::{chars_to_string, str_eq};
use crate::runtime::value::Number;
use crate::text::{all_digits, digits_to_i128, digits_val, is_digit_char};

verus! {

/// Consumes the run of horizontal whitespace ahead, producing no
/// token.
pub struct WhitespaceProcessor;

/// Reports the character ahead as unexpected; the processor of last
/// resort.
pub struct UnexpectedCharProcessor;

/// Reads a newline as a token of its own: newlines separate
/// statements, so they must survive tokenizing.
pub struct NewlineProcessor;

/// Reads a numeric literal.
pub struct NumberProcessor;

/// Reads a quoted string literal with escape sequences.
pub struct StringProcessor;

/// Reads an operator of one or two characters.
pub struct OperatorProcessor;

/// Reads an identifier, a keyword or a boolean literal.
pub struct IdentifierProcessor;

/// Reads a single punctuation character.
pub struct SymbolProcessor;

/// Reads a line or block comment.
pub struct CommentProcessor;

/// Is horizontal whitespace ahead?
fn ws_ahead(lexer: &Lexer) -> (b: bool)
    requires
        lexer.wf(),
    ensures
        b == (lexer.pos() < lexer.cs().len() && is_ws_char(lexer.cs()[lexer.pos()])),
{
    match lexer.peek() {
        Some(c) => c == ' ' || c == '\t' || c == '\r',
        None => false,
    }
}

/// Is a digit or a dot ahead?
fn numlike_ahead(lexer: &Lexer) -> (b: bool)
    requires
        lexer.wf(),
    ensures
        b == (lexer.pos() < lexer.cs().len() && is_numlike_char(lexer.cs()[lexer.pos()])),
{
    match lexer.peek() {
        Some(c) => ('0' <= c && c <= '9') || c == '.',
        None => false,
    }
}

/// Is an identifier character ahead?
fn ident_ahead(lexer: &Lexer) -> (b: bool)
    requires
        lexer.wf(),
    ensures
        b == (lexer.pos() < lexer.cs().len() && is_ident_char(lexer.cs()[lexer.pos()])),
{
    match lexer.peek() {
        Some(c) => ('a' <= c && c <= 'z') || ('A' <= c && c <= 'Z') || c == '_',
        None => false,
    }
}

/// Is a character other than a newline ahead?
fn line_text_ahead(lexer: &Lexer) -> (b: bool)
    requires
        lexer.wf(),
    ensures
        b == (lexer.pos() < lexer.cs().len() && lexer.cs()[lexer.pos()] != '\n'),
{
    match lexer.peek() {
        Some(c) => c != '\n',
        None => false,
    }
}

impl WhitespaceProcessor {
    /// Skips whitespace; always succeeds with no token.
    pub fn process(&self, lexer: &mut Lexer) -> (r: Result<Option<Token>, LexerError>)
        requires
            old(lexer).wf(),
        ensures
            final(lexer).wf(),
            final(lexer).cs() == old(lexer).cs(),
            r matches Ok(x) && x is None,
            (final(lexer).pos(), final(lexer).lineno(), final(lexer).colno()) == skip_ws_s(
                old(lexer).cs(),
                old(lexer).pos(),
                old(lexer).lineno(),
                old(lexer).colno(),
            ),
    {
        let ghost cs = lexer.cs();
        let ghost target = skip_ws_s(cs, lexer.pos(), lexer.lineno(), lexer.colno());
        while ws_ahead(lexer)
            invariant
                lexer.wf(),
                lexer.cs() == cs,
                target == skip_ws_s(cs, lexer.pos(), lexer.lineno(), lexer.colno()),
            decreases cs.len() - lexer.pos(),
        {
            lexer.next();
        }
        Ok(None)
    }
}

impl UnexpectedCharProcessor {
    /// Fails on any character left; succeeds with no token at the end
    /// of the input.
    pub fn process(&self, lexer: &mut Lexer) -> (r: Result<Option<Token>, LexerError>)
        requires
            old(lexer).wf(),
        ensures
            final(lexer).wf(),
            *final(lexer) == *old(lexer),
            if old(lexer).pos() < old(lexer).cs().len() {
                r matches Err(e) && e@ == LexerErrorV::UnexpectedChar(
                    old(lexer).cs()[old(lexer).pos()],
                    Span {
                        line: old(lexer).lineno() as usize,
                        column: old(lexer).colno() as usize,
                    },
                )
            } else {
                r matches Ok(x) && x is None
            },
    {
        let span = lexer.span();
        let p = lexer.peek();
        match p {
            Some(c) => Err(LexerError::UnexpectedChar(c, span)),
            None => Ok(None),
        }
    }
}

impl NewlineProcessor {
    /// Reads one newline, if a newline is ahead.
    pub fn process(&self, lexer: &mut Lexer) -> (r: Result<Option<Token>, LexerError>)
        requires
            old(lexer).wf(),
        ensures
            final(lexer).wf(),
            final(lexer).cs() == old(lexer).cs(),
            if old(lexer).pos() < old(lexer).cs().len() && old(lexer).cs()[old(lexer).pos()]
                == '\n' {
                (r matches Ok(x) && x matches Some(t) && t@ == (TokenV {
                    kind: TokenKindV::Newline,
                    span: Span {
                        line: old(lexer).lineno() as usize,
                        column: old(lexer).colno() as usize,
                    },
                })) && final(lexer).pos() == old(lexer).pos() + 1 && final(lexer).lineno() == old(lexer).lineno() + 1 && final(lexer).colno() == 1
            } else {
                (r matches Ok(x) && x is None) && *final(lexer) == *old(lexer)
            },
    {
        let span = lexer.span();
        let p = lexer.peek();
        match p {
            Some(c) => {
                if c == '\n' {
                    lexer.next();
                    Ok(Some(Token { kind: TokenKind::Newline, span }))
                } else {
                    Ok(None)
                }
            },
            None => Ok(None),
        }
    }
}

impl NumberProcessor {
    /// Reads a numeric literal, if a digit is ahead. A run holding a
    /// dot, or denoting more than the numeric range holds, is an
    /// invalid number.
    pub fn process(&self, lexer: &mut Lexer) -> (r: Result<Option<Token>, LexerError>)
        requires
            old(lexer).wf(),
        ensures
            final(lexer).wf(),
            final(lexer).cs() == old(lexer).cs(),
            ({
                let cs = old(lexer).cs();
                let j = old(lexer).pos();
                let ln = old(lexer).lineno();
                let co = old(lexer).colno();
                let sp = Span { line: ln as usize, column: co as usize };
                if j < cs.len() && is_digit_char(cs[j]) {
                    let end = scan_numlike_end(cs, j + 1);
                    let content = cs.subrange(j, end);
                    if all_digits(content) && digits_val(content) <= i128::MAX {
                        (r matches Ok(x) && x matches Some(t) && t@ == (TokenV {
                            kind: TokenKindV::Number(digits_val(content)),
                            span: sp,
                        })) && final(lexer).pos() == end && final(lexer).lineno() == ln && final(lexer).colno() == co + (end - j)
                    } else {
                        r matches Err(e) && e@ == LexerErrorV::InvalidNumber(content, sp)
                    }
                } else {
                    (r matches Ok(x) && x is None) && *final(lexer) == *old(lexer)
                }
            }),
    {
        let ghost cs = lexer.cs();
        let ghost j = lexer.pos();
        let span = lexer.span();
        let p = lexer.peek();
        let c = match p {
            Some(c) => c,
            None => {
                return Ok(None);
            },
        };
        if !('0' <= c && c <= '9') {
            return Ok(None);
        }
        let mut num: Vec<char> = Vec::new();
        num.push(c);
        lexer.next();
        proof {
            assert(num@ =~= cs.subrange(j, lexer.pos()));
        }
        while numlike_ahead(lexer)
            invariant
                lexer.wf(),
                lexer.cs() == cs,
                0 <= j < lexer.pos() <= cs.len(),
                lexer.lineno() == old(lexer).lineno(),
                lexer.colno() == old(lexer).colno() + (lexer.pos() - j),
                num@ == cs.subrange(j, lexer.pos()),
                scan_numlike_end(cs, j + 1) == scan_numlike_end(cs, lexer.pos()),
            decreases cs.len() - lexer.pos(),
        {
            let p2 = lexer.peek();
            match p2 {
                Some(c2) => {
                    num.push(c2);
                    lexer.next();
                    proof {
                        assert(num@ =~= cs.subrange(j, lexer.pos()));
                    }
                },
                None => {
                },
            }
        }
        match digits_to_i128(&num) {
            Some(v) => Ok(Some(Token { kind: TokenKind::Number(Number::Int(v)), span })),
            None => Err(LexerError::InvalidNumber(chars_to_string(&num), span)),
        }
    }
}

/// How scanning a string literal's inside ended.
enum StrOutcome {
    Closed,
    Unclosed,
    BadEscape(char),
}

impl StringProcessor {
    /// Reads a quoted string literal, if a quote is ahead, decoding
    /// escape sequences.
    pub fn process(&self, lexer: &mut Lexer) -> (r: Result<Option<Token>, LexerError>)
        requires
            old(lexer).wf(),
        ensures
            final(lexer).wf(),
            final(lexer).cs() == old(lexer).cs(),
            ({
                let cs = old(lexer).cs();
                let j = old(lexer).pos();
                let ln = old(lexer).lineno();
                let co = old(lexer).colno();
                let sp = Span { line: ln as usize, column: co as usize };
                if j < cs.len() && cs[j] == '"' {
                    match scan_string_s(cs, j + 1, ln, co + 1, Seq::empty(), false) {
                        StrScanV::Closed(content, i2, l2, c2) => (r matches Ok(x) && x matches Some(
                            t,
                        ) && t@ == (TokenV { kind: TokenKindV::Str(content), span: sp })) && final(lexer).pos() == i2 && final(lexer).lineno() == l2 && final(lexer).colno() == c2,
                        StrScanV::Unclosed => r matches Err(e) && e@
                            == LexerErrorV::UnclosedString(sp),
                        StrScanV::BadEscape(b) => r matches Err(e) && e@
                            == LexerErrorV::InvalidEscape(b, sp),
                    }
                } else {
                    (r matches Ok(x) && x is None) && *final(lexer) == *old(lexer)
                }
            }),
    {
        let ghost cs = lexer.cs();
        let ghost j = lexer.pos();
        let ghost ln = lexer.lineno();
        let ghost co = lexer.colno();
        let span = lexer.span();
        let p = lexer.peek();
        match p {
            Some(c0) => {
                if c0 != '"' {
                    return Ok(None);
                }
            },
            None => {
                return Ok(None);
            },
        }
        lexer.next();
        let mut s: Vec<char> = Vec::new();
        let mut escaped = false;
        let mut outcome: Option<StrOutcome> = None;
        proof {
            assert(s@ =~= Seq::<char>::empty());
        }
        while outcome.is_none()
            invariant
                lexer.wf(),
                lexer.cs() == cs,
                0 <= j < lexer.pos() <= cs.len(),
                match outcome {
                    None => scan_string_s(cs, j + 1, ln, co + 1, Seq::empty(), false)
                        == scan_string_s(
                        cs,
                        lexer.pos(),
                        lexer.lineno(),
                        lexer.colno(),
                        s@,
                        escaped,
                    ),
                    Some(StrOutcome::Closed) => scan_string_s(
                        cs,
                        j + 1,
                        ln,
                        co + 1,
                        Seq::empty(),
                        false,
                    ) == StrScanV::Closed(s@, lexer.pos(), lexer.lineno(), lexer.colno()),
                    Some(StrOutcome::Unclosed) => scan_string_s(
                        cs,
                        j + 1,
                        ln,
                        co + 1,
                        Seq::empty(),
                        false,
                    ) is Unclosed,
                    Some(StrOutcome::BadEscape(b)) => scan_string_s(
                        cs,
                        j + 1,
                        ln,
                        co + 1,
                        Seq::empty(),
                        false,
                    ) == StrScanV::BadEscape(b),
                },
            decreases cs.len() - lexer.pos(), (if outcome is None {
                1int
            } else {
                0int
            }),
        {
            let p2 = lexer.peek();
            match p2 {
                Some(c) => {
                    if escaped {
                        if c == 'n' {
                            s.push('\n');
                            escaped = false;
                            lexer.next();
                        } else if c == 't' {
                            s.push('\t');
                            escaped = false;
                            lexer.next();
                        } else if c == 'r' {
                            s.push('\r');
                            escaped = false;
                            lexer.next();
                        } else if c == '"' {
                            s.push('"');
                            escaped = false;
                            lexer.next();
                        } else if c == '\\' {
                            s.push('\\');
                            escaped = false;
                            lexer.next();
                        } else {
                            outcome = Some(StrOutcome::BadEscape(c));
                        }
                    } else if c == '\\' {
                        escaped = true;
                        lexer.next();
                    } else if c == '"' {
                        lexer.next();
                        outcome = Some(StrOutcome::Closed);
                    } else {
                        s.push(c);
                        lexer.next();
                    }
                },
                None => {
                    outcome = Some(StrOutcome::Unclosed);
                },
            }
        }
        match outcome {
            Some(StrOutcome::Closed) => Ok(
                Some(Token { kind: TokenKind::String(chars_to_string(&s)), span }),
            ),
            Some(StrOutcome::BadEscape(b)) => Err(LexerError::InvalidEscape(b, span)),
            _ => Err(LexerError::UnclosedString(span)),
        }
    }
}

impl OperatorProcessor {
    /// Reads an operator of one or two characters, if one is ahead.
    pub fn process(&self, lexer: &mut Lexer) -> (r: Result<Option<Token>, LexerError>)
        requires
            old(lexer).wf(),
        ensures
            final(lexer).wf(),
            final(lexer).cs() == old(lexer).cs(),
            ({
                let cs = old(lexer).cs();
                let j = old(lexer).pos();
                let ln = old(lexer).lineno();
                let co = old(lexer).colno();
                let sp = Span { line: ln as usize, column: co as usize };
                match operator_step_s(cs, j) {
                    Some((kindv, k)) => (r matches Ok(x) && x matches Some(t) && t@ == (TokenV {
                        kind: kindv,
                        span: sp,
                    })) && final(lexer).pos() == j + k && final(lexer).lineno() == ln && final(lexer).colno() == co + k,
                    None => (r matches Ok(x) && x is None) && *final(lexer) == *old(lexer),
                }
            }),
    {
        let span = lexer.span();
        let p = lexer.peek();
        let c = match p {
            Some(c) => c,
            None => {
                return Ok(None);
            },
        };
        let kind = match c {
            '+' => TokenKind::Plus,
            '-' => TokenKind::Minus,
            '*' => TokenKind::Multiply,
            '/' => TokenKind::Divide,
            '=' => {
                if let Some('=') = lexer.peek_next() {
                    lexer.next();
                    TokenKind::Equal
                } else {
                    TokenKind::Assign
                }
            },
            '!' => {
                if let Some('=') = lexer.peek_next() {
                    lexer.next();
                    TokenKind::NotEqual
                } else {
                    return Ok(None);
                }
            },
            '>' => {
                if let Some('=') = lexer.peek_next() {
                    lexer.next();
                    TokenKind::GreaterThanOrEqual
                } else {
                    TokenKind::GreaterThan
                }
            },
            '<' => {
                if let Some('=') = lexer.peek_next() {
                    lexer.next();
                    TokenKind::LessThanOrEqual
                } else {
                    TokenKind::LessThan
                }
            },
            _ => {
                return Ok(None);
            },
        };
        lexer.next();
        Ok(Some(Token { kind, span }))
    }
}

impl IdentifierProcessor {
    /// Reads an identifier, a keyword or a boolean literal, if a
    /// letter or underscore is ahead.
    pub fn process(&self, lexer: &mut Lexer) -> (r: Result<Option<Token>, LexerError>)
        requires
            old(lexer).wf(),
        ensures
            final(lexer).wf(),
            final(lexer).cs() == old(lexer).cs(),
            ({
                let cs = old(lexer).cs();
                let j = old(lexer).pos();
                let ln = old(lexer).lineno();
                let co = old(lexer).colno();
                let sp = Span { line: ln as usize, column: co as usize };
                if j < cs.len() && is_ident_char(cs[j]) {
                    let end = scan_ident_end(cs, j);
                    (r matches Ok(x) && x matches Some(t) && t@ == (TokenV {
                        kind: keyword_kind_s(cs.subrange(j, end)),
                        span: sp,
                    })) && final(lexer).pos() == end && final(lexer).lineno() == ln && final(lexer).colno() == co + (end - j)
                } else {
                    (r matches Ok(x) && x is None) && *final(lexer) == *old(lexer)
                }
            }),
    {
        let ghost cs = lexer.cs();
        let ghost j = lexer.pos();
        let span = lexer.span();
        if !ident_ahead(lexer) {
            return Ok(None);
        }
        let mut ident: Vec<char> = Vec::new();
        proof {
            assert(ident@ =~= cs.subrange(j, lexer.pos()));
        }
        while ident_ahead(lexer)
            invariant
                lexer.wf(),
                lexer.cs() == cs,
                0 <= j <= lexer.pos() <= cs.len(),
                lexer.lineno() == old(lexer).lineno(),
                lexer.colno() == old(lexer).colno() + (lexer.pos() - j),
                ident@ == cs.subrange(j, lexer.pos()),
                scan_ident_end(cs, j) == scan_ident_end(cs, lexer.pos()),
            decreases cs.len() - lexer.pos(),
        {
            let p2 = lexer.peek();
            match p2 {
                Some(c2) => {
                    ident.push(c2);
                    lexer.next();
                    proof {
                        assert(ident@ =~= cs.subrange(j, lexer.pos()));
                    }
                },
                None => {
                },
            }
        }
        let text = chars_to_string(&ident);
        let kind = if str_eq(text.as_str(), "let") {
            TokenKind::Let
        } else if str_eq(text.as_str(), "fn") {
            TokenKind::Fn
        } else if str_eq(text.as_str(), "if") {
            TokenKind::If
        } else if str_eq(text.as_str(), "else") {
            TokenKind::Else
        } else if str_eq(text.as_str(), "while") {
            TokenKind::While
        } else if str_eq(text.as_str(), "return") {
            TokenKind::Return
        } else if str_eq(text.as_str(), "true") {
            TokenKind::Boolean(true)
        } else if str_eq(text.as_str(), "false") {
            TokenKind::Boolean(false)
        } else {
            TokenKind::Identifier(text)
        };
        Ok(Some(Token { kind, span }))
    }
}

impl SymbolProcessor {
    /// Reads one punctuation character, if one is ahead.
    pub fn process(&self, lexer: &mut Lexer) -> (r: Result<Option<Token>, LexerError>)
        requires
            old(lexer).wf(),
        ensures
            final(lexer).wf(),
            final(lexer).cs() == old(lexer).cs(),
            ({
                let cs = old(lexer).cs();
                let j = old(lexer).pos();
                let ln = old(lexer).lineno();
                let co = old(lexer).colno();
                let sp = Span { line: ln as usize, column: co as usize };
                if j < cs.len() && symbol_kind_s(cs[j]) is Some {
                    (r matches Ok(x) && x matches Some(t) && t@ == (TokenV {
                        kind: symbol_kind_s(cs[j])->Some_0,
                        span: sp,
                    })) && final(lexer).pos() == j + 1 && final(lexer).lineno() == ln && final(lexer).colno() == co + 1
                } else {
                    (r matches Ok(x) && x is None) && *final(lexer) == *old(lexer)
                }
            }),
    {
        let span = lexer.span();
        let p = lexer.peek();
        let c = match p {
            Some(c) => c,
            None => {
                return Ok(None);
            },
        };
        let kind = match c {
            '(' => TokenKind::LeftParen,
            ')' => TokenKind::RightParen,
            '[' => TokenKind::LeftBracket,
            ']' => TokenKind::RightBracket,
            '{' => TokenKind::LeftBrace,
            '}' => TokenKind::RightBrace,
            ',' => TokenKind::Comma,
            ';' => TokenKind::Semicolon,
            ':' => TokenKind::Colon,
            _ => {
                return Ok(None);
            },
        };
        lexer.next();
        Ok(Some(Token { kind, span }))
    }
}

/// How scanning a block comment's inside ended.
enum BlockOutcome {
    Closed,
    Unclosed,
}

impl CommentProcessor {
    /// Reads a line or block comment, if a comment opener is ahead.
    pub fn process(&self, lexer: &mut Lexer) -> (r: Result<Option<Token>, LexerError>)
        requires
            old(lexer).wf(),
        ensures
            final(lexer).wf(),
            final(lexer).cs() == old(lexer).cs(),
            ({
                let cs = old(lexer).cs();
                let j = old(lexer).pos();
                let ln = old(lexer).lineno();
                let co = old(lexer).colno();
                let sp = Span { line: ln as usize, column: co as usize };
                if j < cs.len() && cs[j] == '/' && j + 1 < cs.len() && cs[j + 1] == '/' {
                    let end = scan_line_comment_end(cs, j + 2);
                    (r matches Ok(x) && x matches Some(t) && t@ == (TokenV {
                        kind: TokenKindV::Comment(cs.subrange(j + 2, end)),
                        span: sp,
                    })) && final(lexer).pos() == end && final(lexer).lineno() == ln && final(lexer).colno() == co + (end - j)
                } else if j < cs.len() && cs[j] == '/' && j + 1 < cs.len() && cs[j + 1] == '*' {
                    match scan_block_comment_s(cs, j + 2, ln, co + 2, Seq::empty()) {
                        BlockScanV::Closed(content, i2, l2, c2) => (r matches Ok(x) && x matches
                            Some(t) && t@ == (TokenV {
                            kind: TokenKindV::Comment(content),
                            span: sp,
                        })) && final(lexer).pos() == i2 && final(lexer).lineno() == l2 && final(lexer).colno() == c2,
                        BlockScanV::Unclosed => r matches Err(e) && e@
                            == LexerErrorV::UnclosedComment(sp),
                    }
                } else {
                    (r matches Ok(x) && x is None) && *final(lexer) == *old(lexer)
                }
            }),
    {
        let ghost cs = lexer.cs();
        let ghost j = lexer.pos();
        let ghost ln = lexer.lineno();
        let ghost co = lexer.colno();
        let span = lexer.span();
        match lexer.peek() {
            Some(c0) => {
                if c0 != '/' {
                    return Ok(None);
                }
            },
            None => {
                return Ok(None);
            },
        }
        let second = lexer.peek_next();
        let is_line = match second {
            Some('/') => true,
            _ => false,
        };
        let is_block = match second {
            Some('*') => true,
            _ => false,
        };
        if is_line {
            lexer.next();
            lexer.next();
            let mut comment: Vec<char> = Vec::new();
            proof {
                assert(comment@ =~= cs.subrange(j + 2, lexer.pos()));
            }
            while line_text_ahead(lexer)
                invariant
                    lexer.wf(),
                    lexer.cs() == cs,
                    0 <= j,
                    j + 2 <= lexer.pos() <= cs.len(),
                    lexer.lineno() == ln,
                    lexer.colno() == co + (lexer.pos() - j),
                    comment@ == cs.subrange(j + 2, lexer.pos()),
                    scan_line_comment_end(cs, j + 2) == scan_line_comment_end(cs, lexer.pos()),
                decreases cs.len() - lexer.pos(),
            {
                let p2 = lexer.peek();
                match p2 {
                    Some(c2) => {
                        comment.push(c2);
                        lexer.next();
                        proof {
                            assert(comment@ =~= cs.subrange(j + 2, lexer.pos()));
                        }
                    },
                    None => {
                    },
                }
            }
            return Ok(Some(Token { kind: TokenKind::Comment(chars_to_string(&comment)), span }));
        }
        if is_block {
            lexer.next();
            lexer.next();
            let mut comment: Vec<char> = Vec::new();
            let mut outcome: Option<BlockOutcome> = None;
            proof {
                assert(comment@ =~= Seq::<char>::empty());
            }
            while outcome.is_none()
                invariant
                    lexer.wf(),
                    lexer.cs() == cs,
                    0 <= j,
                    j + 2 <= lexer.pos() <= cs.len(),
                    match outcome {
                        None => scan_block_comment_s(cs, j + 2, ln, co + 2, Seq::empty())
                            == scan_block_comment_s(
                            cs,
                            lexer.pos(),
                            lexer.lineno(),
                            lexer.colno(),
                            comment@,
                        ),
                        Some(BlockOutcome::Closed) => scan_block_comment_s(
                            cs,
                            j + 2,
                            ln,
                            co + 2,
                            Seq::empty(),
                        ) == BlockScanV::Closed(
                            comment@,
                            lexer.pos(),
                            lexer.lineno(),
                            lexer.colno(),
                        ),
                        Some(BlockOutcome::Unclosed) => scan_block_comment_s(
                            cs,
                            j + 2,
                            ln,
                            co + 2,
                            Seq::empty(),
                        ) is Unclosed,
                    },
                decreases cs.len() - lexer.pos(), (if outcome is None {
                    1int
                } else {
                    0int
                }),
            {
                let p2 = lexer.peek();
                match p2 {
                    Some(c2) => {
                        if c2 == '*' {
                            if let Some('/') = lexer.peek_next() {
                                lexer.next();
                                lexer.next();
                                outcome = Some(BlockOutcome::Closed);
                            } else {
                                lexer.next();
                            }
                        } else {
                            comment.push(c2);
                            lexer.next();
                        }
                    },
                    None => {
                        outcome = Some(BlockOutcome::Unclosed);
                    },
                }
            }
            return match outcome {
                Some(BlockOutcome::Closed) => Ok(
                    Some(Token { kind: TokenKind::Comment(chars_to_string(&comment)), span }),
                ),
                _ => Err(LexerError::UnclosedComment(span)),
            };
        }
        Ok(None)
    }
}

} // verus!
