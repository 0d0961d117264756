use vstd::prelude::*;
use crate::lexer::error::LexerErrorV;
use crate::lexer::token::{Span, TokenKindV, TokenV};
use crate::text::{all_digits, digits_val, is_digit_char};

verus! {

/// The position after reading one character: a newline starts the
/// next line, anything else moves one column right.
pub open spec fn advance_pos(line: int, col: int, c: char) -> (int, int) {
    if c == '\n' {
        (line + 1, 1)
    } else {
        (line, col + 1)
    }
}

/// Is `c` horizontal whitespace (a newline is a token of its own)?
pub open spec fn is_ws_char(c: char) -> bool {
    c == ' ' || c == '\t' || c == '\r'
}

/// May `c` appear in an identifier?
pub open spec fn is_ident_char(c: char) -> bool {
    ('a' <= c <= 'z') || ('A' <= c <= 'Z') || c == '_'
}

/// May `c` appear in a numeric literal's character run?
pub open spec fn is_numlike_char(c: char) -> bool {
    is_digit_char(c) || c == '.'
}

/// The position, line and column after skipping whitespace.
pub open spec fn skip_ws_s(cs: Seq<char>, i: int, line: int, col: int) -> (int, int, int)
    decreases cs.len() - i,
{
    if 0 <= i < cs.len() && is_ws_char(cs[i]) {
        let (l2, c2) = advance_pos(line, col, cs[i]);
        skip_ws_s(cs, i + 1, l2, c2)
    } else {
        (i, line, col)
    }
}

/// The end of the numeric character run starting at `i`.
pub open spec fn scan_numlike_end(cs: Seq<char>, i: int) -> int
    decreases cs.len() - i,
{
    if 0 <= i < cs.len() && is_numlike_char(cs[i]) {
        scan_numlike_end(cs, i + 1)
    } else {
        i
    }
}

/// The end of the identifier character run starting at `i`.
pub open spec fn scan_ident_end(cs: Seq<char>, i: int) -> int
    decreases cs.len() - i,
{
    if 0 <= i < cs.len() && is_ident_char(cs[i]) {
        scan_ident_end(cs, i + 1)
    } else {
        i
    }
}

/// The end of a line comment: everything up to the next newline or
/// the end of the input.
pub open spec fn scan_line_comment_end(cs: Seq<char>, i: int) -> int
    decreases cs.len() - i,
{
    if 0 <= i < cs.len() && cs[i] != '\n' {
        scan_line_comment_end(cs, i + 1)
    } else {
        i
    }
}

/// What scanning the inside of a string literal comes to.
pub enum StrScanV {
    Closed(Seq<char>, int, int, int),
    Unclosed,
    BadEscape(char),
}

/// Scans the inside of a string literal from `i`: escape sequences
/// are decoded, an unescaped quote closes the string, and running out
/// of input leaves it unclosed.
pub open spec fn scan_string_s(
    cs: Seq<char>,
    i: int,
    line: int,
    col: int,
    acc: Seq<char>,
    escaped: bool,
) -> StrScanV
    decreases cs.len() - i,
{
    if !(0 <= i < cs.len()) {
        StrScanV::Unclosed
    } else {
        let c = cs[i];
        let (l2, c2) = advance_pos(line, col, c);
        if escaped {
            if c == 'n' {
                scan_string_s(cs, i + 1, l2, c2, acc.push('\n'), false)
            } else if c == 't' {
                scan_string_s(cs, i + 1, l2, c2, acc.push('\t'), false)
            } else if c == 'r' {
                scan_string_s(cs, i + 1, l2, c2, acc.push('\r'), false)
            } else if c == '"' {
                scan_string_s(cs, i + 1, l2, c2, acc.push('"'), false)
            } else if c == '\\' {
                scan_string_s(cs, i + 1, l2, c2, acc.push('\\'), false)
            } else {
                StrScanV::BadEscape(c)
            }
        } else if c == '\\' {
            scan_string_s(cs, i + 1, l2, c2, acc, true)
        } else if c == '"' {
            StrScanV::Closed(acc, i + 1, l2, c2)
        } else {
            scan_string_s(cs, i + 1, l2, c2, acc.push(c), false)
        }
    }
}

/// What scanning the inside of a block comment comes to.
pub enum BlockScanV {
    Closed(Seq<char>, int, int, int),
    Unclosed,
}

/// Scans the inside of a block comment from `i`: a star directly
/// before a slash closes it; a star not followed by a slash is
/// dropped from the text; running out of input leaves it unclosed.
pub open spec fn scan_block_comment_s(
    cs: Seq<char>,
    i: int,
    line: int,
    col: int,
    acc: Seq<char>,
) -> BlockScanV
    decreases cs.len() - i,
{
    if !(0 <= i < cs.len()) {
        BlockScanV::Unclosed
    } else {
        let c = cs[i];
        let (l2, c2) = advance_pos(line, col, c);
        if c == '*' && i + 1 < cs.len() && cs[i + 1] == '/' {
            let (l3, c3) = advance_pos(l2, c2, cs[i + 1]);
            BlockScanV::Closed(acc, i + 2, l3, c3)
        } else if c == '*' {
            scan_block_comment_s(cs, i + 1, l2, c2, acc)
        } else {
            scan_block_comment_s(cs, i + 1, l2, c2, acc.push(c))
        }
    }
}

/// The operator starting at `i`, with how many characters it spans.
/// A lone `!` is no operator.
pub open spec fn operator_step_s(cs: Seq<char>, i: int) -> Option<(TokenKindV, int)> {
    if !(0 <= i < cs.len()) {
        None
    } else {
        let c = cs[i];
        let two = i + 1 < cs.len() && cs[i + 1] == '=';
        if c == '+' {
            Some((TokenKindV::Plus, 1))
        } else if c == '-' {
            Some((TokenKindV::Minus, 1))
        } else if c == '*' {
            Some((TokenKindV::Multiply, 1))
        } else if c == '/' {
            Some((TokenKindV::Divide, 1))
        } else if c == '=' {
            if two {
                Some((TokenKindV::Equal, 2))
            } else {
                Some((TokenKindV::Assign, 1))
            }
        } else if c == '!' {
            if two {
                Some((TokenKindV::NotEqual, 2))
            } else {
                None
            }
        } else if c == '>' {
            if two {
                Some((TokenKindV::GreaterThanOrEqual, 2))
            } else {
                Some((TokenKindV::GreaterThan, 1))
            }
        } else if c == '<' {
            if two {
                Some((TokenKindV::LessThanOrEqual, 2))
            } else {
                Some((TokenKindV::LessThan, 1))
            }
        } else {
            None
        }
    }
}

/// The punctuation token that `c` stands for, if any.
pub open spec fn symbol_kind_s(c: char) -> Option<TokenKindV> {
    if c == '(' {
        Some(TokenKindV::LeftParen)
    } else if c == ')' {
        Some(TokenKindV::RightParen)
    } else if c == '[' {
        Some(TokenKindV::LeftBracket)
    } else if c == ']' {
        Some(TokenKindV::RightBracket)
    } else if c == '{' {
        Some(TokenKindV::LeftBrace)
    } else if c == '}' {
        Some(TokenKindV::RightBrace)
    } else if c == ',' {
        Some(TokenKindV::Comma)
    } else if c == ';' {
        Some(TokenKindV::Semicolon)
    } else if c == ':' {
        Some(TokenKindV::Colon)
    } else {
        None
    }
}

/// The token kind of an identifier run: a keyword, a boolean literal
/// or a plain identifier.
pub open spec fn keyword_kind_s(s: Seq<char>) -> TokenKindV {
    if s == "let"@ {
        TokenKindV::Let
    } else if s == "fn"@ {
        TokenKindV::Fn
    } else if s == "if"@ {
        TokenKindV::If
    } else if s == "else"@ {
        TokenKindV::Else
    } else if s == "while"@ {
        TokenKindV::While
    } else if s == "return"@ {
        TokenKindV::Return
    } else if s == "true"@ {
        TokenKindV::Boolean(true)
    } else if s == "false"@ {
        TokenKindV::Boolean(false)
    } else {
        TokenKindV::Identifier(s)
    }
}

/// What one attempt to read a token comes to: a token with the state
/// after it, only trailing whitespace, or a lexical error.
pub enum LexStepV {
    Tok(TokenV, int, int, int),
    Skip(int, int, int),
    Fail(LexerErrorV),
}

/// Reads one token starting at `i`: whitespace is skipped, then the
/// first matching form decides, in this order: newline, number,
/// string, comment, operator, identifier or keyword, punctuation.
/// Anything else is an unexpected character.
pub open spec fn lex_step_s(cs: Seq<char>, i: int, line: int, col: int) -> LexStepV {
    let (j, ln, co) = skip_ws_s(cs, i, line, col);
    if !(j < cs.len()) {
        LexStepV::Skip(j, ln, co)
    } else {
        let c = cs[j];
        let sp = Span { line: ln as usize, column: co as usize };
        if c == '\n' {
            LexStepV::Tok(TokenV { kind: TokenKindV::Newline, span: sp }, j + 1, ln + 1, 1)
        } else if is_digit_char(c) {
            let end = scan_numlike_end(cs, j + 1);
            let content = cs.subrange(j, end);
            if all_digits(content) && digits_val(content) <= i128::MAX {
                LexStepV::Tok(
                    TokenV { kind: TokenKindV::Number(digits_val(content)), span: sp },
                    end,
                    ln,
                    co + (end - j),
                )
            } else {
                LexStepV::Fail(LexerErrorV::InvalidNumber(content, sp))
            }
        } else if c == '"' {
            match scan_string_s(cs, j + 1, ln, co + 1, Seq::empty(), false) {
                StrScanV::Closed(content, i2, l2, c2) => LexStepV::Tok(
                    TokenV { kind: TokenKindV::Str(content), span: sp },
                    i2,
                    l2,
                    c2,
                ),
                StrScanV::Unclosed => LexStepV::Fail(LexerErrorV::UnclosedString(sp)),
                StrScanV::BadEscape(b) => LexStepV::Fail(LexerErrorV::InvalidEscape(b, sp)),
            }
        } else if c == '/' && j + 1 < cs.len() && cs[j + 1] == '/' {
            let end = scan_line_comment_end(cs, j + 2);
            LexStepV::Tok(
                TokenV { kind: TokenKindV::Comment(cs.subrange(j + 2, end)), span: sp },
                end,
                ln,
                co + (end - j),
            )
        } else if c == '/' && j + 1 < cs.len() && cs[j + 1] == '*' {
            match scan_block_comment_s(cs, j + 2, ln, co + 2, Seq::empty()) {
                BlockScanV::Closed(content, i2, l2, c2) => LexStepV::Tok(
                    TokenV { kind: TokenKindV::Comment(content), span: sp },
                    i2,
                    l2,
                    c2,
                ),
                BlockScanV::Unclosed => LexStepV::Fail(LexerErrorV::UnclosedComment(sp)),
            }
        } else {
            match operator_step_s(cs, j) {
                Some((kind, k)) => LexStepV::Tok(
                    TokenV { kind: kind, span: sp },
                    j + k,
                    ln,
                    co + k,
                ),
                None => if is_ident_char(c) {
                    let end = scan_ident_end(cs, j);
                    LexStepV::Tok(
                        TokenV { kind: keyword_kind_s(cs.subrange(j, end)), span: sp },
                        end,
                        ln,
                        co + (end - j),
                    )
                } else {
                    match symbol_kind_s(c) {
                        Some(kind) => LexStepV::Tok(
                            TokenV { kind: kind, span: sp },
                            j + 1,
                            ln,
                            co + 1,
                        ),
                        None => LexStepV::Fail(LexerErrorV::UnexpectedChar(c, sp)),
                    }
                },
            }
        }
    }
}

/// Turns the rest of the input into tokens. Each step must consume at
/// least one character; the end of the input appends the end marker.
pub open spec fn lex_s(
    cs: Seq<char>,
    i: int,
    line: int,
    col: int,
    acc: Seq<TokenV>,
) -> Result<Seq<TokenV>, LexerErrorV>
    decreases cs.len() - i,
{
    if !(0 <= i < cs.len()) {
        Ok(
            acc.push(
                TokenV {
                    kind: TokenKindV::Eof,
                    span: Span { line: line as usize, column: col as usize },
                },
            ),
        )
    } else {
        match lex_step_s(cs, i, line, col) {
            LexStepV::Tok(t, i2, l2, c2) => if i < i2 <= cs.len() {
                lex_s(cs, i2, l2, c2, acc.push(t))
            } else {
                // A step that fails to make progress cannot arise;
                // the guard keeps the recursion well-founded.
                Err(
                    LexerErrorV::UnexpectedChar(
                        cs[i],
                        Span { line: line as usize, column: col as usize },
                    ),
                )
            },
            LexStepV::Skip(_, l2, c2) => Ok(
                acc.push(
                    TokenV {
                        kind: TokenKindV::Eof,
                        span: Span { line: l2 as usize, column: c2 as usize },
                    },
                ),
            ),
            LexStepV::Fail(e) => Err(e),
        }
    }
}

/// The tokens of a piece of source text, with their positions,
/// terminated by the end marker; or the first lexical error.
pub open spec fn tokenize_s(s: Seq<char>) -> Result<Seq<TokenV>, LexerErrorV> {
    lex_s(s, 0, 1, 1, Seq::empty())
}

/// A token stream fit for parsing: non-empty and terminated by the
/// end marker.
pub open spec fn tokens_wf(ts: Seq<TokenV>) -> bool {
    ts.len() >= 1 && ts.last().kind is Eof
}

/// Skipping whitespace never moves backwards nor past the end.
pub proof fn lemma_skip_ws_bounds(cs: Seq<char>, i: int, line: int, col: int)
    requires
        0 <= i <= cs.len(),
    ensures
        i <= skip_ws_s(cs, i, line, col).0 <= cs.len(),
    decreases cs.len() - i,
{
    if 0 <= i < cs.len() && is_ws_char(cs[i]) {
        let (l2, c2) = advance_pos(line, col, cs[i]);
        lemma_skip_ws_bounds(cs, i + 1, l2, c2);
    }
}

/// A numeric run never moves backwards nor past the end.
pub proof fn lemma_scan_numlike_bounds(cs: Seq<char>, i: int)
    requires
        0 <= i <= cs.len(),
    ensures
        i <= scan_numlike_end(cs, i) <= cs.len(),
    decreases cs.len() - i,
{
    if 0 <= i < cs.len() && is_numlike_char(cs[i]) {
        lemma_scan_numlike_bounds(cs, i + 1);
    }
}

/// An identifier run never moves backwards nor past the end.
pub proof fn lemma_scan_ident_bounds(cs: Seq<char>, i: int)
    requires
        0 <= i <= cs.len(),
    ensures
        i <= scan_ident_end(cs, i) <= cs.len(),
    decreases cs.len() - i,
{
    if 0 <= i < cs.len() && is_ident_char(cs[i]) {
        lemma_scan_ident_bounds(cs, i + 1);
    }
}

/// A line comment never moves backwards nor past the end.
pub proof fn lemma_scan_line_comment_bounds(cs: Seq<char>, i: int)
    requires
        0 <= i <= cs.len(),
    ensures
        i <= scan_line_comment_end(cs, i) <= cs.len(),
    decreases cs.len() - i,
{
    if 0 <= i < cs.len() && cs[i] != '\n' {
        lemma_scan_line_comment_bounds(cs, i + 1);
    }
}

/// A closed string literal ends strictly beyond where its inside
/// began and within the input.
pub proof fn lemma_scan_string_bounds(
    cs: Seq<char>,
    i: int,
    line: int,
    col: int,
    acc: Seq<char>,
    escaped: bool,
)
    requires
        0 <= i <= cs.len(),
    ensures
        scan_string_s(cs, i, line, col, acc, escaped) matches StrScanV::Closed(_, i2, _, _)
            ==> i < i2 <= cs.len(),
    decreases cs.len() - i,
{
    if 0 <= i < cs.len() {
        let c = cs[i];
        let (l2, c2) = advance_pos(line, col, c);
        if escaped {
            if c == 'n' {
                lemma_scan_string_bounds(cs, i + 1, l2, c2, acc.push('\n'), false);
            } else if c == 't' {
                lemma_scan_string_bounds(cs, i + 1, l2, c2, acc.push('\t'), false);
            } else if c == 'r' {
                lemma_scan_string_bounds(cs, i + 1, l2, c2, acc.push('\r'), false);
            } else if c == '"' {
                lemma_scan_string_bounds(cs, i + 1, l2, c2, acc.push('"'), false);
            } else if c == '\\' {
                lemma_scan_string_bounds(cs, i + 1, l2, c2, acc.push('\\'), false);
            }
        } else if c == '\\' {
            lemma_scan_string_bounds(cs, i + 1, l2, c2, acc, true);
        } else if c == '"' {
        } else {
            lemma_scan_string_bounds(cs, i + 1, l2, c2, acc.push(c), false);
        }
    }
}

/// A closed block comment ends strictly beyond where its inside
/// began and within the input.
pub proof fn lemma_scan_block_bounds(cs: Seq<char>, i: int, line: int, col: int, acc: Seq<char>)
    requires
        0 <= i <= cs.len(),
    ensures
        scan_block_comment_s(cs, i, line, col, acc) matches BlockScanV::Closed(_, i2, _, _)
            ==> i < i2 <= cs.len(),
    decreases cs.len() - i,
{
    if 0 <= i < cs.len() {
        let c = cs[i];
        let (l2, c2) = advance_pos(line, col, c);
        if c == '*' && i + 1 < cs.len() && cs[i + 1] == '/' {
        } else if c == '*' {
            lemma_scan_block_bounds(cs, i + 1, l2, c2, acc);
        } else {
            lemma_scan_block_bounds(cs, i + 1, l2, c2, acc.push(c));
        }
    }
}

} // verus!
