use vstd::prelude::*;
use vstd::string::StringExecFns;
use crate::runtime::value::Number;
use crate::text::{dec_int, i128_to_string};

verus! {

/// Position of a token in the source text: 1-based line and column.
#[derive(Debug, Clone, Copy, PartialEq, Eq, Structural)]
pub struct Span {
    pub line: usize,
    pub column: usize,
}

/// Mathematical model of a token kind: string payloads become
/// sequences of characters, numbers become unbounded integers.
pub enum TokenKindV {
    Number(int),
    Boolean(bool),
    Str(Seq<char>),
    Comment(Seq<char>),
    Comma,
    Plus,
    Minus,
    Multiply,
    Divide,
    Assign,
    Equal,
    NotEqual,
    GreaterThan,
    GreaterThanOrEqual,
    LessThan,
    LessThanOrEqual,
    LeftParen,
    RightParen,
    LeftBracket,
    RightBracket,
    LeftBrace,
    RightBrace,
    Semicolon,
    Colon,
    Newline,
    Identifier(Seq<char>),
    Let,
    Fn,
    If,
    Else,
    While,
    Break,
    Continue,
    Return,
    Eof,
}

/// Mathematical model of a token: its kind together with its span.
pub struct TokenV {
    pub kind: TokenKindV,
    pub span: Span,
}

/// The kinds of token the lexer produces.
#[derive(Debug, PartialEq)]
pub enum TokenKind {
    Number(Number),
    Boolean(bool),
    String(String),
    Comment(String),
    Comma,
    Plus,
    Minus,
    Multiply,
    Divide,
    Assign,
    Equal,
    NotEqual,
    GreaterThan,
    GreaterThanOrEqual,
    LessThan,
    LessThanOrEqual,
    LeftParen,
    RightParen,
    LeftBracket,
    RightBracket,
    LeftBrace,
    RightBrace,
    Semicolon,
    Colon,
    Newline,
    Identifier(String),
    Let,
    Fn,
    If,
    Else,
    While,
    Break,
    Continue,
    Return,
    Eof,
}

/// A token: a kind paired with the span where it starts.
#[derive(Debug, PartialEq)]
pub struct Token {
    pub kind: TokenKind,
    pub span: Span,
}

impl View for TokenKind {
    type V = TokenKindV;

    open spec fn view(&self) -> TokenKindV {
        match self {
            TokenKind::Number(n) => TokenKindV::Number(n@),
            TokenKind::Boolean(b) => TokenKindV::Boolean(*b),
            TokenKind::String(s) => TokenKindV::Str(s@),
            TokenKind::Comment(s) => TokenKindV::Comment(s@),
            TokenKind::Comma => TokenKindV::Comma,
            TokenKind::Plus => TokenKindV::Plus,
            TokenKind::Minus => TokenKindV::Minus,
            TokenKind::Multiply => TokenKindV::Multiply,
            TokenKind::Divide => TokenKindV::Divide,
            TokenKind::Assign => TokenKindV::Assign,
            TokenKind::Equal => TokenKindV::Equal,
            TokenKind::NotEqual => TokenKindV::NotEqual,
            TokenKind::GreaterThan => TokenKindV::GreaterThan,
            TokenKind::GreaterThanOrEqual => TokenKindV::GreaterThanOrEqual,
            TokenKind::LessThan => TokenKindV::LessThan,
            TokenKind::LessThanOrEqual => TokenKindV::LessThanOrEqual,
            TokenKind::LeftParen => TokenKindV::LeftParen,
            TokenKind::RightParen => TokenKindV::RightParen,
            TokenKind::LeftBracket => TokenKindV::LeftBracket,
            TokenKind::RightBracket => TokenKindV::RightBracket,
            TokenKind::LeftBrace => TokenKindV::LeftBrace,
            TokenKind::RightBrace => TokenKindV::RightBrace,
            TokenKind::Semicolon => TokenKindV::Semicolon,
            TokenKind::Colon => TokenKindV::Colon,
            TokenKind::Newline => TokenKindV::Newline,
            TokenKind::Identifier(s) => TokenKindV::Identifier(s@),
            TokenKind::Let => TokenKindV::Let,
            TokenKind::Fn => TokenKindV::Fn,
            TokenKind::If => TokenKindV::If,
            TokenKind::Else => TokenKindV::Else,
            TokenKind::While => TokenKindV::While,
            TokenKind::Break => TokenKindV::Break,
            TokenKind::Continue => TokenKindV::Continue,
            TokenKind::Return => TokenKindV::Return,
            TokenKind::Eof => TokenKindV::Eof,
        }
    }
}

impl View for Token {
    type V = TokenV;

    open spec fn view(&self) -> TokenV {
        TokenV { kind: self.kind@, span: self.span }
    }
}

impl Clone for TokenKind {
    /// Cloning a token kind preserves its model.
    fn clone(&self) -> (res: Self)
        ensures
            res@ == self@,
    {
        match self {
            TokenKind::Number(n) => TokenKind::Number(n.clone()),
            TokenKind::Boolean(b) => TokenKind::Boolean(*b),
            TokenKind::String(s) => TokenKind::String(s.clone()),
            TokenKind::Comment(s) => TokenKind::Comment(s.clone()),
            TokenKind::Comma => TokenKind::Comma,
            TokenKind::Plus => TokenKind::Plus,
            TokenKind::Minus => TokenKind::Minus,
            TokenKind::Multiply => TokenKind::Multiply,
            TokenKind::Divide => TokenKind::Divide,
            TokenKind::Assign => TokenKind::Assign,
            TokenKind::Equal => TokenKind::Equal,
            TokenKind::NotEqual => TokenKind::NotEqual,
            TokenKind::GreaterThan => TokenKind::GreaterThan,
            TokenKind::GreaterThanOrEqual => TokenKind::GreaterThanOrEqual,
            TokenKind::LessThan => TokenKind::LessThan,
            TokenKind::LessThanOrEqual => TokenKind::LessThanOrEqual,
            TokenKind::LeftParen => TokenKind::LeftParen,
            TokenKind::RightParen => TokenKind::RightParen,
            TokenKind::LeftBracket => TokenKind::LeftBracket,
            TokenKind::RightBracket => TokenKind::RightBracket,
            TokenKind::LeftBrace => TokenKind::LeftBrace,
            TokenKind::RightBrace => TokenKind::RightBrace,
            TokenKind::Semicolon => TokenKind::Semicolon,
            TokenKind::Colon => TokenKind::Colon,
            TokenKind::Newline => TokenKind::Newline,
            TokenKind::Identifier(s) => TokenKind::Identifier(s.clone()),
            TokenKind::Let => TokenKind::Let,
            TokenKind::Fn => TokenKind::Fn,
            TokenKind::If => TokenKind::If,
            TokenKind::Else => TokenKind::Else,
            TokenKind::While => TokenKind::While,
            TokenKind::Break => TokenKind::Break,
            TokenKind::Continue => TokenKind::Continue,
            TokenKind::Return => TokenKind::Return,
            TokenKind::Eof => TokenKind::Eof,
        }
    }
}

impl Clone for Token {
    /// Cloning a token preserves its model.
    fn clone(&self) -> (res: Self)
        ensures
            res@ == self@,
    {
        Token { kind: self.kind.clone(), span: self.span }
    }
}

/// The text that a token kind displays as.
pub open spec fn render_token_kind(k: TokenKindV) -> Seq<char> {
    match k {
        TokenKindV::Number(n) => "Number("@ + dec_int(n) + ")"@,
        TokenKindV::Boolean(b) => if b {
            "Boolean(true)"@
        } else {
            "Boolean(false)"@
        },
        TokenKindV::Str(s) => "String("@ + s + ")"@,
        TokenKindV::Comment(s) => "Comment("@ + s + ")"@,
        TokenKindV::Comma => ","@,
        TokenKindV::Plus => "+"@,
        TokenKindV::Minus => "-"@,
        TokenKindV::Multiply => "*"@,
        TokenKindV::Divide => "/"@,
        TokenKindV::Assign => "="@,
        TokenKindV::Equal => "=="@,
        TokenKindV::NotEqual => "!="@,
        TokenKindV::GreaterThan => ">"@,
        TokenKindV::GreaterThanOrEqual => ">="@,
        TokenKindV::LessThan => "<"@,
        TokenKindV::LessThanOrEqual => "<="@,
        TokenKindV::LeftParen => "("@,
        TokenKindV::RightParen => ")"@,
        TokenKindV::LeftBracket => "["@,
        TokenKindV::RightBracket => "]"@,
        TokenKindV::LeftBrace => "{"@,
        TokenKindV::RightBrace => "}"@,
        TokenKindV::Semicolon => ";"@,
        TokenKindV::Colon => ":"@,
        TokenKindV::Newline => "Newline"@,
        TokenKindV::Identifier(s) => "Identifier("@ + s + ")"@,
        TokenKindV::Let => "let"@,
        TokenKindV::Fn => "function"@,
        TokenKindV::If => "if"@,
        TokenKindV::Else => "else"@,
        TokenKindV::While => "while"@,
        TokenKindV::Break => "break"@,
        TokenKindV::Continue => "continue"@,
        TokenKindV::Return => "return"@,
        TokenKindV::Eof => "End of file"@,
    }
}

/// Wraps a payload's text in a labelled pair of parentheses.
fn wrap_labelled(label: &str, payload: &str) -> (r: String)
    ensures
        r@ == label@ + payload@ + ")"@,
{
    let mut out = String::new();
    out.append(label);
    out.append(payload);
    out.append(")");
    proof {
        assert(out@ =~= label@ + payload@ + ")"@);
    }
    out
}

/// The escaped source spelling of a string literal's content.
pub open spec fn escape_chars(s: Seq<char>) -> Seq<char>
    decreases s,
{
    if s.len() == 0 {
        Seq::empty()
    } else {
        escape_chars(s.drop_last()) + escape_one(s.last())
    }
}

/// The escaped source spelling of one character inside a string
/// literal.
pub open spec fn escape_one(c: char) -> Seq<char> {
    if c == '\\' {
        seq!['\\', '\\']
    } else if c == '"' {
        seq!['\\', '"']
    } else if c == '\n' {
        seq!['\\', 'n']
    } else if c == '\t' {
        seq!['\\', 't']
    } else if c == '\r' {
        seq!['\\', 'r']
    } else {
        seq![c]
    }
}

/// Source text that lexes back to this token kind: literals are
/// spelled out, strings are quoted and escaped, comments are wrapped
/// in block markers, and the end marker is empty.
pub open spec fn token_text(k: TokenKindV) -> Seq<char> {
    match k {
        TokenKindV::Number(n) => dec_int(n),
        TokenKindV::Boolean(b) => if b {
            "true"@
        } else {
            "false"@
        },
        TokenKindV::Str(s) => seq!['"'] + escape_chars(s) + seq!['"'],
        TokenKindV::Comment(s) => "/*"@ + s + "*/"@,
        TokenKindV::Comma => ","@,
        TokenKindV::Plus => "+"@,
        TokenKindV::Minus => "-"@,
        TokenKindV::Multiply => "*"@,
        TokenKindV::Divide => "/"@,
        TokenKindV::Assign => "="@,
        TokenKindV::Equal => "=="@,
        TokenKindV::NotEqual => "!="@,
        TokenKindV::GreaterThan => ">"@,
        TokenKindV::GreaterThanOrEqual => ">="@,
        TokenKindV::LessThan => "<"@,
        TokenKindV::LessThanOrEqual => "<="@,
        TokenKindV::LeftParen => "("@,
        TokenKindV::RightParen => ")"@,
        TokenKindV::LeftBracket => "["@,
        TokenKindV::RightBracket => "]"@,
        TokenKindV::LeftBrace => "{"@,
        TokenKindV::RightBrace => "}"@,
        TokenKindV::Semicolon => ";"@,
        TokenKindV::Colon => ":"@,
        TokenKindV::Newline => "\n"@,
        TokenKindV::Identifier(s) => s,
        TokenKindV::Let => "let"@,
        TokenKindV::Fn => "fn"@,
        TokenKindV::If => "if"@,
        TokenKindV::Else => "else"@,
        TokenKindV::While => "while"@,
        TokenKindV::Break => "break"@,
        TokenKindV::Continue => "continue"@,
        TokenKindV::Return => "return"@,
        TokenKindV::Eof => ""@,
    }
}

/// Escapes a string literal's content for re-lexing.
fn escape_exec(s: &str) -> (r: Vec<char>)
    ensures
        r@ == escape_chars(s@),
{
    let cs = crate::runtime::host::str_to_chars(s);
    let mut out: Vec<char> = Vec::new();
    let mut i: usize = 0;
    proof {
        assert(s@.take(0) =~= Seq::<char>::empty());
        assert(out@ =~= escape_chars(s@.take(0)));
    }
    while i < cs.len()
        invariant
            i <= cs@.len(),
            cs@ == s@,
            out@ == escape_chars(s@.take(i as int)),
        decreases cs@.len() - i,
    {
        let c = cs[i];
        if c == '\\' {
            out.push('\\');
            out.push('\\');
        } else if c == '"' {
            out.push('\\');
            out.push('"');
        } else if c == '\n' {
            out.push('\\');
            out.push('n');
        } else if c == '\t' {
            out.push('\\');
            out.push('t');
        } else if c == '\r' {
            out.push('\\');
            out.push('r');
        } else {
            out.push(c);
        }
        proof {
            assert(s@.take(i + 1).drop_last() =~= s@.take(i as int));
            assert(s@.take(i + 1).last() == s@[i as int]);
            assert(out@ =~= escape_chars(s@.take(i as int)) + escape_one(s@[i as int]));
        }
        i += 1;
    }
    proof {
        assert(s@.take(cs@.len() as int) =~= s@);
    }
    out
}

impl TokenKind {
    /// Source text that lexes back to this token kind.
    #[verifier::rlimit(100)]
    #[verifier::spinoff_prover]
    pub fn source_text(&self) -> (r: String)
        ensures
            r@ == token_text(self@),
    {
        match self {
            TokenKind::Number(n) => i128_to_string(n.to_int()),
            TokenKind::Boolean(b) => {
                if *b {
                    "true".to_owned()
                } else {
                    "false".to_owned()
                }
            },
            TokenKind::String(s) => {
                let mut out: Vec<char> = Vec::new();
                out.push('"');
                let mut body = escape_exec(s.as_str());
                out.append(&mut body);
                out.push('"');
                proof {
                    assert(out@ =~= seq!['"'] + escape_chars(s@) + seq!['"']);
                }
                crate::runtime::host::chars_to_string(&out)
            },
            TokenKind::Comment(s) => {
                let mut out = String::new();
                out.append("/*");
                out.append(s.as_str());
                out.append("*/");
                proof {
                    assert(out@ =~= "/*"@ + s@ + "*/"@);
                }
                out
            },
            TokenKind::Comma => ",".to_owned(),
            TokenKind::Plus => "+".to_owned(),
            TokenKind::Minus => "-".to_owned(),
            TokenKind::Multiply => "*".to_owned(),
            TokenKind::Divide => "/".to_owned(),
            TokenKind::Assign => "=".to_owned(),
            TokenKind::Equal => "==".to_owned(),
            TokenKind::NotEqual => "!=".to_owned(),
            TokenKind::GreaterThan => ">".to_owned(),
            TokenKind::GreaterThanOrEqual => ">=".to_owned(),
            TokenKind::LessThan => "<".to_owned(),
            TokenKind::LessThanOrEqual => "<=".to_owned(),
            TokenKind::LeftParen => "(".to_owned(),
            TokenKind::RightParen => ")".to_owned(),
            TokenKind::LeftBracket => "[".to_owned(),
            TokenKind::RightBracket => "]".to_owned(),
            TokenKind::LeftBrace => "{".to_owned(),
            TokenKind::RightBrace => "}".to_owned(),
            TokenKind::Semicolon => ";".to_owned(),
            TokenKind::Colon => ":".to_owned(),
            TokenKind::Newline => "\n".to_owned(),
            TokenKind::Identifier(s) => s.clone(),
            TokenKind::Let => "let".to_owned(),
            TokenKind::Fn => "fn".to_owned(),
            TokenKind::If => "if".to_owned(),
            TokenKind::Else => "else".to_owned(),
            TokenKind::While => "while".to_owned(),
            TokenKind::Break => "break".to_owned(),
            TokenKind::Continue => "continue".to_owned(),
            TokenKind::Return => "return".to_owned(),
            TokenKind::Eof => "".to_owned(),
        }
    }

    /// The text that this token kind displays as.
    #[verifier::rlimit(100)]
    #[verifier::spinoff_prover]
    pub fn display_string(&self) -> (r: String)
        ensures
            r@ == render_token_kind(self@),
    {
        match self {
            TokenKind::Number(n) => {
                let num = i128_to_string(n.to_int());
                wrap_labelled("Number(", num.as_str())
            },
            TokenKind::Boolean(b) => {
                if *b {
                    "Boolean(true)".to_owned()
                } else {
                    "Boolean(false)".to_owned()
                }
            },
            TokenKind::String(s) => wrap_labelled("String(", s.as_str()),
            TokenKind::Comment(s) => wrap_labelled("Comment(", s.as_str()),
            TokenKind::Comma => ",".to_owned(),
            TokenKind::Plus => "+".to_owned(),
            TokenKind::Minus => "-".to_owned(),
            TokenKind::Multiply => "*".to_owned(),
            TokenKind::Divide => "/".to_owned(),
            TokenKind::Assign => "=".to_owned(),
            TokenKind::Equal => "==".to_owned(),
            TokenKind::NotEqual => "!=".to_owned(),
            TokenKind::GreaterThan => ">".to_owned(),
            TokenKind::GreaterThanOrEqual => ">=".to_owned(),
            TokenKind::LessThan => "<".to_owned(),
            TokenKind::LessThanOrEqual => "<=".to_owned(),
            TokenKind::LeftParen => "(".to_owned(),
            TokenKind::RightParen => ")".to_owned(),
            TokenKind::LeftBracket => "[".to_owned(),
            TokenKind::RightBracket => "]".to_owned(),
            TokenKind::LeftBrace => "{".to_owned(),
            TokenKind::RightBrace => "}".to_owned(),
            TokenKind::Semicolon => ";".to_owned(),
            TokenKind::Colon => ":".to_owned(),
            TokenKind::Newline => "Newline".to_owned(),
            TokenKind::Identifier(s) => wrap_labelled("Identifier(", s.as_str()),
            TokenKind::Let => "let".to_owned(),
            TokenKind::Fn => "function".to_owned(),
            TokenKind::If => "if".to_owned(),
            TokenKind::Else => "else".to_owned(),
            TokenKind::While => "while".to_owned(),
            TokenKind::Break => "break".to_owned(),
            TokenKind::Continue => "continue".to_owned(),
            TokenKind::Return => "return".to_owned(),
            TokenKind::Eof => "End of file".to_owned(),
        }
    }

    /// Structural equality of two token kinds, exactly when their models agree.
    #[verifier::rlimit(100)]
    #[verifier::spinoff_prover]
    pub fn kind_eq(&self, other: &TokenKind) -> (r: bool)
        ensures
            r == (self@ == other@),
    {
        match (self, other) {
            (TokenKind::Number(a), TokenKind::Number(b)) => a.num_eq(b),
            (TokenKind::Boolean(a), TokenKind::Boolean(b)) => *a == *b,
            (TokenKind::String(a), TokenKind::String(b)) => *a == *b,
            (TokenKind::Comment(a), TokenKind::Comment(b)) => *a == *b,
            (TokenKind::Comma, TokenKind::Comma) => true,
            (TokenKind::Plus, TokenKind::Plus) => true,
            (TokenKind::Minus, TokenKind::Minus) => true,
            (TokenKind::Multiply, TokenKind::Multiply) => true,
            (TokenKind::Divide, TokenKind::Divide) => true,
            (TokenKind::Assign, TokenKind::Assign) => true,
            (TokenKind::Equal, TokenKind::Equal) => true,
            (TokenKind::NotEqual, TokenKind::NotEqual) => true,
            (TokenKind::GreaterThan, TokenKind::GreaterThan) => true,
            (TokenKind::GreaterThanOrEqual, TokenKind::GreaterThanOrEqual) => true,
            (TokenKind::LessThan, TokenKind::LessThan) => true,
            (TokenKind::LessThanOrEqual, TokenKind::LessThanOrEqual) => true,
            (TokenKind::LeftParen, TokenKind::LeftParen) => true,
            (TokenKind::RightParen, TokenKind::RightParen) => true,
            (TokenKind::LeftBracket, TokenKind::LeftBracket) => true,
            (TokenKind::RightBracket, TokenKind::RightBracket) => true,
            (TokenKind::LeftBrace, TokenKind::LeftBrace) => true,
            (TokenKind::RightBrace, TokenKind::RightBrace) => true,
            (TokenKind::Semicolon, TokenKind::Semicolon) => true,
            (TokenKind::Colon, TokenKind::Colon) => true,
            (TokenKind::Newline, TokenKind::Newline) => true,
            (TokenKind::Identifier(a), TokenKind::Identifier(b)) => *a == *b,
            (TokenKind::Let, TokenKind::Let) => true,
            (TokenKind::Fn, TokenKind::Fn) => true,
            (TokenKind::If, TokenKind::If) => true,
            (TokenKind::Else, TokenKind::Else) => true,
            (TokenKind::While, TokenKind::While) => true,
            (TokenKind::Break, TokenKind::Break) => true,
            (TokenKind::Continue, TokenKind::Continue) => true,
            (TokenKind::Return, TokenKind::Return) => true,
            (TokenKind::Eof, TokenKind::Eof) => true,
            _ => false,
        }
    }
}

} // verus!
