use vstd::prelude::*;
use vstd::string::StringExecFns;

pub mod error;
pub mod processors;
pub mod scan;
pub mod token;

pub use error::LexerError;
pub use token::Span;
pub use token::Token;
pub use token::TokenKind;

use crate::lexer::error::LexerErrorV;
use crate::lexer::processors::{CommentProcessor, IdentifierProcessor, NewlineProcessor,
    NumberProcessor, OperatorProcessor, StringProcessor, SymbolProcessor, UnexpectedCharProcessor,
    WhitespaceProcessor};
use crate::lexer::scan::{advance_pos, lemma_scan_block_bounds, lemma_scan_ident_bounds,
    lemma_scan_line_comment_bounds, lemma_scan_numlike_bounds, lemma_scan_string_bounds,
    lemma_skip_ws_bounds, is_ident_char, lex_s, lex_step_s, skip_ws_s, tokenize_s, tokens_wf, LexStepV};
use crate::lexer::token::TokenV;
use crate::runtime::host::str_to_chars;

verus! {

/// Tracks the 1-based line and column of the character about to be
/// read.
pub struct PositionTracker {
    line: usize,
    column: usize,
}

impl PositionTracker {
    /// The current line, 1-based.
    pub closed spec fn line_s(&self) -> int {
        self.line as int
    }

    /// The current column, 1-based.
    pub closed spec fn col_s(&self) -> int {
        self.column as int
    }

    /// A tracker standing at the very start of the text.
    pub fn new() -> (r: Self)
        ensures
            r.line_s() == 1,
            r.col_s() == 1,
    {
        PositionTracker { line: 1, column: 1 }
    }

    /// Steps past one character.
    pub fn advance(&mut self, c: char)
        requires
            old(self).line_s() < usize::MAX,
            old(self).col_s() < usize::MAX,
        ensures
            (final(self).line_s(), final(self).col_s()) == advance_pos(
                old(self).line_s(),
                old(self).col_s(),
                c,
            ),
    {
        if c == '\n' {
            self.new_line();
        } else {
            self.column += 1;
        }
    }

    /// Steps onto the start of the next line.
    pub fn new_line(&mut self)
        requires
            old(self).line_s() < usize::MAX,
        ensures
            final(self).line_s() == old(self).line_s() + 1,
            final(self).col_s() == 1,
    {
        self.line += 1;
        self.column = 1;
    }
}

/// Reads source text character by character, tracking positions.
pub struct Lexer {
    input: Vec<char>,
    position: usize,
    pos_tracker: PositionTracker,
}

impl Lexer {
    /// The characters of the input.
    pub closed spec fn cs(&self) -> Seq<char> {
        self.input@
    }

    /// The index of the next character to read.
    pub closed spec fn pos(&self) -> int {
        self.position as int
    }

    /// The line of the next character, 1-based.
    pub closed spec fn lineno(&self) -> int {
        self.pos_tracker.line_s()
    }

    /// The column of the next character, 1-based.
    pub closed spec fn colno(&self) -> int {
        self.pos_tracker.col_s()
    }

    /// The reading position sits inside the input and the tracked
    /// position cannot outgrow it.
    pub open spec fn wf(&self) -> bool {
        0 <= self.pos() <= self.cs().len() && self.cs().len() < usize::MAX && 1 <= self.lineno()
            <= self.pos() + 1 && 1 <= self.colno() <= self.pos() + 1
    }

    /// A lexer over the given source text, standing at its start.
    pub fn new(input: String) -> (r: Self)
        requires
            input@.len() < usize::MAX,
        ensures
            r.wf(),
            r.cs() == input@,
            r.pos() == 0,
            r.lineno() == 1,
            r.colno() == 1,
    {
        Lexer {
            input: str_to_chars(input.as_str()),
            position: 0,
            pos_tracker: PositionTracker::new(),
        }
    }

    /// Reads and returns the next character, if any is left.
    pub fn next(&mut self) -> (r: Option<char>)
        requires
            old(self).wf(),
        ensures
            final(self).wf(),
            final(self).cs() == old(self).cs(),
            match r {
                Some(c) => old(self).pos() < old(self).cs().len() && c == old(self).cs()[old(self).pos()] && final(self).pos() == old(self).pos() + 1 && (
                final(self).lineno(),
                final(self).colno(),
                ) == advance_pos(old(self).lineno(), old(self).colno(), c),
                None => old(self).pos() == old(self).cs().len() && *final(self) == *old(self),
            },
    {
        let c = self.peek();
        if let Some(ch) = c {
            self.position += 1;
            self.pos_tracker.advance(ch);
        }
        c
    }

    /// The next character, without reading it.
    pub fn peek(&self) -> (r: Option<char>)
        requires
            self.wf(),
        ensures
            r == (if self.pos() < self.cs().len() {
                Some(self.cs()[self.pos()])
            } else {
                Option::<char>::None
            }),
    {
        if self.position < self.input.len() {
            Some(self.input[self.position])
        } else {
            None
        }
    }

    /// The character after the next one, without reading anything.
    pub fn peek_next(&self) -> (r: Option<char>)
        requires
            self.wf(),
        ensures
            r == (if self.pos() + 1 < self.cs().len() {
                Some(self.cs()[self.pos() + 1])
            } else {
                Option::<char>::None
            }),
    {
        if self.position < usize::MAX && self.position + 1 < self.input.len() {
            Some(self.input[self.position + 1])
        } else {
            None
        }
    }

    /// The position of the next character.
    pub fn span(&self) -> (r: Span)
        ensures
            r == (Span { line: self.lineno() as usize, column: self.colno() as usize }),
    {
        Span { line: self.pos_tracker.line, column: self.pos_tracker.column }
    }

    /// Tries each form of token in order and returns the first that
    /// matches, `None` when only trailing whitespace was left, or the
    /// first lexical error.
    fn next_token(&mut self) -> (r: Result<Option<Token>, LexerError>)
        requires
            old(self).wf(),
        ensures
            final(self).wf(),
            final(self).cs() == old(self).cs(),
            match lex_step_s(old(self).cs(), old(self).pos(), old(self).lineno(), old(self).colno()) {
                LexStepV::Tok(t, i2, l2, c2) => (r matches Ok(x) && x matches Some(tok) && tok@
                    == t) && final(self).pos() == i2 && final(self).lineno() == l2 && final(self).colno() == c2 && old(self).pos() < i2,
                LexStepV::Skip(i2, l2, c2) => (r matches Ok(x) && x is None) && final(self).pos()
                    == i2 && final(self).lineno() == l2 && final(self).colno() == c2 && i2
                    == old(self).cs().len(),
                LexStepV::Fail(e) => r matches Err(x) && x@ == e,
            },
    {
        let ws = WhitespaceProcessor;
        match ws.process(self) {
            Ok(_) => (),
            Err(e) => {
                return Err(e);
            },
        }
        proof {
            let cs0 = old(self).cs();
            let p0 = old(self).pos();
            let l0 = old(self).lineno();
            let c0 = old(self).colno();
            lemma_skip_ws_bounds(cs0, p0, l0, c0);
            let j = skip_ws_s(cs0, p0, l0, c0).0;
            let ln = skip_ws_s(cs0, p0, l0, c0).1;
            let co = skip_ws_s(cs0, p0, l0, c0).2;
            if j < cs0.len() {
                lemma_scan_numlike_bounds(cs0, j + 1);
                lemma_scan_ident_bounds(cs0, j);
                if is_ident_char(cs0[j]) {
                    lemma_scan_ident_bounds(cs0, j + 1);
                }
                lemma_scan_string_bounds(cs0, j + 1, ln, co + 1, Seq::empty(), false);
                if j + 2 <= cs0.len() {
                    lemma_scan_line_comment_bounds(cs0, j + 2);
                    lemma_scan_block_bounds(cs0, j + 2, ln, co + 2, Seq::empty());
                }
            }
        }
        let nl = NewlineProcessor;
        match nl.process(self) {
            Ok(Some(t)) => {
                return Ok(Some(t));
            },
            Ok(None) => (),
            Err(e) => {
                return Err(e);
            },
        }
        let num = NumberProcessor;
        match num.process(self) {
            Ok(Some(t)) => {
                return Ok(Some(t));
            },
            Ok(None) => (),
            Err(e) => {
                return Err(e);
            },
        }
        let st = StringProcessor;
        match st.process(self) {
            Ok(Some(t)) => {
                return Ok(Some(t));
            },
            Ok(None) => (),
            Err(e) => {
                return Err(e);
            },
        }
        let cm = CommentProcessor;
        match cm.process(self) {
            Ok(Some(t)) => {
                return Ok(Some(t));
            },
            Ok(None) => (),
            Err(e) => {
                return Err(e);
            },
        }
        let op = OperatorProcessor;
        match op.process(self) {
            Ok(Some(t)) => {
                return Ok(Some(t));
            },
            Ok(None) => (),
            Err(e) => {
                return Err(e);
            },
        }
        let id = IdentifierProcessor;
        match id.process(self) {
            Ok(Some(t)) => {
                return Ok(Some(t));
            },
            Ok(None) => (),
            Err(e) => {
                return Err(e);
            },
        }
        let sy = SymbolProcessor;
        match sy.process(self) {
            Ok(Some(t)) => {
                return Ok(Some(t));
            },
            Ok(None) => (),
            Err(e) => {
                return Err(e);
            },
        }
        let ux = UnexpectedCharProcessor;
        match ux.process(self) {
            Ok(_) => Ok(None),
            Err(e) => Err(e),
        }
    }

    /// Turns the whole input into tokens, ending with the end marker,
    /// or reports the first lexical error.
    pub fn tokenize(&mut self) -> (r: Result<Vec<Token>, LexerError>)
        requires
            old(self).wf(),
        ensures
            match r {
                Ok(ts) => (lex_s(
                    old(self).cs(),
                    old(self).pos(),
                    old(self).lineno(),
                    old(self).colno(),
                    Seq::empty(),
                ) matches Ok(tv) && view_tokens(ts@) == tv) && tokens_wf(view_tokens(ts@)),
                Err(e) => lex_s(
                    old(self).cs(),
                    old(self).pos(),
                    old(self).lineno(),
                    old(self).colno(),
                    Seq::empty(),
                ) matches Err(ev) && e@ == ev,
            },
    {
        let ghost cs = self.cs();
        let ghost total = lex_s(cs, self.pos(), self.lineno(), self.colno(), Seq::empty());
        let mut tokens: Vec<Token> = Vec::new();
        proof {
            assert(view_tokens(Seq::<Token>::empty()) =~= Seq::<TokenV>::empty());
        }
        while self.position < self.input.len()
            invariant
                self.wf(),
                self.cs() == cs,
                total == lex_s(cs, self.pos(), self.lineno(), self.colno(), view_tokens(tokens@)),
            decreases cs.len() - self.pos(),
        {
            let step = self.next_token();
            match step {
                Ok(Some(t)) => {
                    proof {
                        lemma_view_tokens_push(tokens@, t);
                    }
                    tokens.push(t);
                },
                Ok(None) => {
                },
                Err(e) => {
                    return Err(e);
                },
            }
        }
        let sp = self.span();
        let t = Token { kind: TokenKind::Eof, span: sp };
        proof {
            lemma_view_tokens_push(tokens@, t);
        }
        tokens.push(t);
        Ok(tokens)
    }
}

/// The source text of a token stream: each token's spelling, joined
/// by single spaces.
pub open spec fn render_tokens_s(ts: Seq<TokenV>) -> Seq<char>
    decreases ts,
{
    if ts.len() == 0 {
        Seq::empty()
    } else if ts.len() == 1 {
        crate::lexer::token::token_text(ts[0].kind)
    } else {
        render_tokens_s(ts.drop_last()) + seq![' '] + crate::lexer::token::token_text(
            ts.last().kind,
        )
    }
}

/// Renders a token stream back to source text that lexes to the same
/// kinds of tokens.
pub fn render_tokens(tokens: &Vec<Token>) -> (r: String)
    ensures
        r@ == render_tokens_s(view_tokens(tokens@)),
{
    let ghost tv = view_tokens(tokens@);
    let mut out = String::new();
    let mut i: usize = 0;
    proof {
        assert(tv.take(0) =~= Seq::<TokenV>::empty());
        assert(out@ =~= render_tokens_s(tv.take(0)));
    }
    while i < tokens.len()
        invariant
            i <= tokens@.len(),
            tv == view_tokens(tokens@),
            out@ == render_tokens_s(tv.take(i as int)),
        decreases tokens@.len() - i,
    {
        let piece = tokens[i].kind.source_text();
        if i > 0 {
            out.append(" ");
        }
        out.append(piece.as_str());
        proof {
            assert(tv.take(i + 1).drop_last() =~= tv.take(i as int));
            assert(tv.take(i + 1).last() == tv[i as int]);
            assert(tv[i as int] == tokens@[i as int]@);
            assert(tv[i as int].kind == tokens@[i as int].kind@);
            if i == 0 {
                assert(out@ =~= render_tokens_s(tv.take(1)));
            } else {
                reveal_strlit(" ");
                assert(out@ =~= render_tokens_s(tv.take(i as int)) + seq![' ']
                    + crate::lexer::token::token_text(tv[i as int].kind));
            }
        }
        i += 1;
    }
    proof {
        assert(tv.take(tokens@.len() as int) =~= tv);
    }
    out
}

/// The models of a sequence of tokens, token by token.
pub open spec fn view_tokens(ts: Seq<Token>) -> Seq<TokenV> {
    Seq::new(ts.len(), |i: int| ts[i]@)
}

/// Appending a token appends its model.
pub proof fn lemma_view_tokens_push(ts: Seq<Token>, t: Token)
    ensures
        view_tokens(ts.push(t)) == view_tokens(ts).push(t@),
{
    assert(view_tokens(ts.push(t)) =~= view_tokens(ts).push(t@));
}

/// Turns source text into tokens with their positions, ending with
/// the end marker, or reports the first lexical error.
pub fn tokenize(input: &str) -> (r: Result<Vec<Token>, LexerError>)
    requires
        input@.len() < usize::MAX,
    ensures
        match r {
            Ok(ts) => (tokenize_s(input@) matches Ok(tv) && view_tokens(ts@) == tv) && tokens_wf(
                view_tokens(ts@),
            ),
            Err(e) => tokenize_s(input@) matches Err(ev) && e@ == ev,
        },
{
    let mut lexer = Lexer::new(input.to_owned());
    lexer.tokenize()
}

} // verus!
