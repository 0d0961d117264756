use vstd::prelude::*;
use crate::lexer::token::{Span, TokenKindV, TokenV};
use crate::parser::ast::{ExprV, StmtV};
use crate::parser::error::ParserErrorKindV;

verus! {

/// What one parsing step comes to: a parsed piece with the position
/// after it, a parse error, or an exhausted nesting budget.
pub enum ParseStepV<T> {
    Done(T, int),
    Fail(ParserErrorKindV),
    OutOfFuel,
}

/// The token at position `i`; past the end it reads as the end
/// marker.
pub open spec fn cur_tok(toks: Seq<TokenV>, i: int) -> TokenV {
    if 0 <= i < toks.len() {
        toks[i]
    } else {
        TokenV { kind: TokenKindV::Eof, span: Span { line: 0, column: 0 } }
    }
}

/// Does position `i` stand at the end marker?
pub open spec fn at_end_s(toks: Seq<TokenV>, i: int) -> bool {
    cur_tok(toks, i).kind is Eof
}

/// Does the token at `i` have exactly kind `k`?
pub open spec fn check_s(toks: Seq<TokenV>, i: int, k: TokenKindV) -> bool {
    !at_end_s(toks, i) && cur_tok(toks, i).kind == k
}

/// The position after the run of tokens of kind `k` starting at `i`.
pub open spec fn del_cont_s(toks: Seq<TokenV>, i: int, k: TokenKindV) -> int
    decreases toks.len() - i,
{
    if 0 <= i < toks.len() && check_s(toks, i, k) {
        del_cont_s(toks, i + 1, k)
    } else {
        i
    }
}

/// The position after any run of newlines at `i`.
pub open spec fn del_empty_lines_s(toks: Seq<TokenV>, i: int) -> int {
    del_cont_s(toks, i, TokenKindV::Newline)
}

/// The position after any run of semicolons, then newlines, at `i`.
pub open spec fn del_empty_stmts_s(toks: Seq<TokenV>, i: int) -> int {
    del_cont_s(toks, del_cont_s(toks, i, TokenKindV::Semicolon), TokenKindV::Newline)
}

/// The token stream with comment tokens removed.
pub open spec fn filter_comments_s(ts: Seq<TokenV>) -> Seq<TokenV>
    decreases ts,
{
    if ts.len() == 0 {
        Seq::empty()
    } else {
        let p = filter_comments_s(ts.drop_last());
        if ts.last().kind is Comment {
            p
        } else {
            p.push(ts.last())
        }
    }
}

/// Reading a name: the identifier at `i`, stepping past it. Anything
/// else is an unexpected token, reported as the parser stands after
/// stepping.
pub open spec fn consume_ident_s(toks: Seq<TokenV>, i: int) -> ParseStepV<Seq<char>> {
    let stepped = if at_end_s(toks, i) {
        i
    } else {
        i + 1
    };
    match cur_tok(toks, i).kind {
        TokenKindV::Identifier(name) => if !at_end_s(toks, i) {
            ParseStepV::Done(name, i + 1)
        } else {
            ParseStepV::Fail(ParserErrorKindV::UnexpectedToken(cur_tok(toks, stepped)))
        },
        _ => ParseStepV::Fail(ParserErrorKindV::UnexpectedToken(cur_tok(toks, stepped))),
    }
}

/// An expression: a conditional, a loop, or an assignment chain.
#[verifier::opaque]
pub open spec fn expression_s(f: nat, toks: Seq<TokenV>, i: int) -> ParseStepV<ExprV>
    decreases f,
{
    if f == 0 {
        ParseStepV::OutOfFuel
    } else if check_s(toks, i, TokenKindV::If) {
        if_expression_s((f - 1) as nat, toks, i + 1)
    } else if check_s(toks, i, TokenKindV::While) {
        while_expression_s((f - 1) as nat, toks, i + 1)
    } else {
        assignment_s((f - 1) as nat, toks, i)
    }
}

/// An assignment: right-associative, and only onto a bare variable.
#[verifier::opaque]
pub open spec fn assignment_s(f: nat, toks: Seq<TokenV>, i: int) -> ParseStepV<ExprV>
    decreases f,
{
    if f == 0 {
        ParseStepV::OutOfFuel
    } else {
        match equality_s((f - 1) as nat, toks, i) {
            ParseStepV::Done(e, i1) => if check_s(toks, i1, TokenKindV::Assign) {
                match assignment_s((f - 1) as nat, toks, i1 + 1) {
                    ParseStepV::Done(v, i2) => match e {
                        ExprV::Variable(name) => ParseStepV::Done(
                            ExprV::BinaryOp {
                                left: Box::new(ExprV::Variable(name)),
                                op: TokenKindV::Assign,
                                right: Box::new(v),
                            },
                            i2,
                        ),
                        _ => ParseStepV::Fail(ParserErrorKindV::InvalidSyntax),
                    },
                    ParseStepV::Fail(k) => ParseStepV::Fail(k),
                    ParseStepV::OutOfFuel => ParseStepV::OutOfFuel,
                }
            } else {
                ParseStepV::Done(e, i1)
            },
            ParseStepV::Fail(k) => ParseStepV::Fail(k),
            ParseStepV::OutOfFuel => ParseStepV::OutOfFuel,
        }
    }
}

/// A left-associative chain of binary operators at one precedence
/// level: is the token at `i` one of the operators of the level?
pub open spec fn level_op(level: int, toks: Seq<TokenV>, i: int) -> bool {
    if level == 0 {
        check_s(toks, i, TokenKindV::Equal) || check_s(toks, i, TokenKindV::NotEqual)
    } else if level == 1 {
        check_s(toks, i, TokenKindV::GreaterThan) || check_s(
            toks,
            i,
            TokenKindV::GreaterThanOrEqual,
        ) || check_s(toks, i, TokenKindV::LessThan) || check_s(
            toks,
            i,
            TokenKindV::LessThanOrEqual,
        )
    } else if level == 2 {
        check_s(toks, i, TokenKindV::Plus) || check_s(toks, i, TokenKindV::Minus)
    } else {
        check_s(toks, i, TokenKindV::Multiply) || check_s(toks, i, TokenKindV::Divide)
    }
}

/// Folds further operators of the level onto `e`, left-associatively.
#[verifier::opaque]
pub open spec fn level_loop_s(level: int, f: nat, toks: Seq<TokenV>, i: int, e: ExprV) -> ParseStepV<
    ExprV,
>
    decreases f, 0int,
{
    if f == 0 {
        ParseStepV::OutOfFuel
    } else if level_op(level, toks, i) {
        let op = cur_tok(toks, i).kind;
        let operand = if level < 3 {
            level_s(level + 1, (f - 1) as nat, toks, i + 1)
        } else {
            unary_s((f - 1) as nat, toks, i + 1)
        };
        match operand {
            ParseStepV::Done(r, i2) => level_loop_s(
                level,
                (f - 1) as nat,
                toks,
                i2,
                ExprV::BinaryOp { left: Box::new(e), op: op, right: Box::new(r) },
            ),
            ParseStepV::Fail(k) => ParseStepV::Fail(k),
            ParseStepV::OutOfFuel => ParseStepV::OutOfFuel,
        }
    } else {
        ParseStepV::Done(e, i)
    }
}

/// One precedence level: an operand one level tighter, then a chain
/// of the level's operators.
#[verifier::opaque]
pub open spec fn level_s(level: int, f: nat, toks: Seq<TokenV>, i: int) -> ParseStepV<ExprV>
    decreases f, 1int,
{
    if f == 0 {
        ParseStepV::OutOfFuel
    } else {
        let operand = if level < 3 {
            level_s(level + 1, (f - 1) as nat, toks, i)
        } else {
            unary_s((f - 1) as nat, toks, i)
        };
        match operand {
            ParseStepV::Done(e, i1) => level_loop_s(level, (f - 1) as nat, toks, i1, e),
            ParseStepV::Fail(k) => ParseStepV::Fail(k),
            ParseStepV::OutOfFuel => ParseStepV::OutOfFuel,
        }
    }
}

/// Equality operators over comparisons.
pub open spec fn equality_s(f: nat, toks: Seq<TokenV>, i: int) -> ParseStepV<ExprV>
    decreases f, 2int,
{
    level_s(0, f, toks, i)
}

/// Comparison operators over additive expressions.
pub open spec fn comparison_s(f: nat, toks: Seq<TokenV>, i: int) -> ParseStepV<ExprV>
    decreases f, 2int,
{
    level_s(1, f, toks, i)
}

/// Additive operators over multiplicative expressions.
pub open spec fn term_s(f: nat, toks: Seq<TokenV>, i: int) -> ParseStepV<ExprV>
    decreases f, 2int,
{
    level_s(2, f, toks, i)
}

/// Multiplicative operators over unary expressions.
pub open spec fn factor_s(f: nat, toks: Seq<TokenV>, i: int) -> ParseStepV<ExprV>
    decreases f, 2int,
{
    level_s(3, f, toks, i)
}

/// A prefix minus, or a primary expression.
#[verifier::opaque]
pub open spec fn unary_s(f: nat, toks: Seq<TokenV>, i: int) -> ParseStepV<ExprV>
    decreases f,
{
    if f == 0 {
        ParseStepV::OutOfFuel
    } else if check_s(toks, i, TokenKindV::Minus) {
        match unary_s((f - 1) as nat, toks, i + 1) {
            ParseStepV::Done(e, i2) => ParseStepV::Done(
                ExprV::UnaryOp { op: TokenKindV::Minus, expr: Box::new(e) },
                i2,
            ),
            ParseStepV::Fail(k) => ParseStepV::Fail(k),
            ParseStepV::OutOfFuel => ParseStepV::OutOfFuel,
        }
    } else {
        primary_s((f - 1) as nat, toks, i)
    }
}

/// Does a brace at `i` open an object literal rather than a block?
/// It does when a string key and a colon follow.
pub open spec fn object_ahead_s(toks: Seq<TokenV>, i: int) -> bool {
    cur_tok(toks, i + 1).kind is Str && cur_tok(toks, i + 2).kind is Colon
}

/// Comma-separated call arguments, at least one.
#[verifier::opaque]
pub open spec fn args_loop_s(f: nat, toks: Seq<TokenV>, i: int, acc: Seq<ExprV>) -> ParseStepV<
    Seq<ExprV>,
>
    decreases f,
{
    if f == 0 {
        ParseStepV::OutOfFuel
    } else {
        match expression_s((f - 1) as nat, toks, i) {
            ParseStepV::Done(e, i1) => if check_s(toks, i1, TokenKindV::Comma) {
                args_loop_s((f - 1) as nat, toks, i1 + 1, acc.push(e))
            } else {
                ParseStepV::Done(acc.push(e), i1)
            },
            ParseStepV::Fail(k) => ParseStepV::Fail(k),
            ParseStepV::OutOfFuel => ParseStepV::OutOfFuel,
        }
    }
}

/// Comma-separated object entries, at least one; each a string key, a
/// colon, and a value expression.
#[verifier::opaque]
pub open spec fn object_entries_s(
    f: nat,
    toks: Seq<TokenV>,
    i: int,
    acc: Seq<(Seq<char>, ExprV)>,
) -> ParseStepV<Seq<(Seq<char>, ExprV)>>
    decreases f,
{
    if f == 0 {
        ParseStepV::OutOfFuel
    } else {
        match cur_tok(toks, i).kind {
            TokenKindV::Str(k) => if !at_end_s(toks, i) && check_s(toks, i + 1, TokenKindV::Colon) {
                match expression_s((f - 1) as nat, toks, i + 2) {
                    ParseStepV::Done(v, i2) => if check_s(toks, i2, TokenKindV::Comma) {
                        object_entries_s((f - 1) as nat, toks, i2 + 1, acc.push((k, v)))
                    } else {
                        ParseStepV::Done(acc.push((k, v)), i2)
                    },
                    ParseStepV::Fail(kk) => ParseStepV::Fail(kk),
                    ParseStepV::OutOfFuel => ParseStepV::OutOfFuel,
                }
            } else {
                ParseStepV::Fail(ParserErrorKindV::UnexpectedToken(cur_tok(toks, i + 1)))
            },
            _ => ParseStepV::Fail(ParserErrorKindV::UnexpectedToken(cur_tok(toks, i))),
        }
    }
}

/// The statements of a brace-delimited body, up to the closing brace
/// or the end of the input.
#[verifier::opaque]
pub open spec fn block_stmts_s(f: nat, toks: Seq<TokenV>, i: int, acc: Seq<StmtV>) -> ParseStepV<
    Seq<StmtV>,
>
    decreases f,
{
    if f == 0 {
        ParseStepV::OutOfFuel
    } else if check_s(toks, i, TokenKindV::RightBrace) || at_end_s(toks, i) {
        ParseStepV::Done(acc, i)
    } else {
        match statement_s((f - 1) as nat, toks, i) {
            ParseStepV::Done(st, i2) => block_stmts_s((f - 1) as nat, toks, i2, acc.push(st)),
            ParseStepV::Fail(k) => ParseStepV::Fail(k),
            ParseStepV::OutOfFuel => ParseStepV::OutOfFuel,
        }
    }
}

/// A variable reference or a call: `i` stands just past the
/// identifier.
#[verifier::opaque]
pub open spec fn primary_ident_s(f: nat, toks: Seq<TokenV>, i: int, name: Seq<char>) -> ParseStepV<
    ExprV,
>
    decreases f, 0int,
{
    if f == 0 {
        ParseStepV::OutOfFuel
    } else {
        if check_s(toks, i, TokenKindV::LeftParen) {
            if check_s(toks, i + 1, TokenKindV::RightParen) {
                ParseStepV::Done(ExprV::FunctionCall { name: name, args: Seq::empty() }, i + 2)
            } else {
                match args_loop_s((f - 1) as nat, toks, i + 1, Seq::empty()) {
                    ParseStepV::Done(args, i2) => if check_s(toks, i2, TokenKindV::RightParen) {
                        ParseStepV::Done(ExprV::FunctionCall { name: name, args: args }, i2 + 1)
                    } else {
                        ParseStepV::Fail(ParserErrorKindV::UnexpectedToken(cur_tok(toks, i2)))
                    },
                    ParseStepV::Fail(k) => ParseStepV::Fail(k),
                    ParseStepV::OutOfFuel => ParseStepV::OutOfFuel,
                }
            }
        } else {
            ParseStepV::Done(ExprV::Variable(name), i)
        }
    }
}

/// A block or an object literal: `i` stands at the opening brace.
#[verifier::opaque]
pub open spec fn primary_brace_s(f: nat, toks: Seq<TokenV>, i: int) -> ParseStepV<ExprV>
    decreases f, 0int,
{
    if f == 0 {
        ParseStepV::OutOfFuel
    } else {
        if object_ahead_s(toks, i) {
            match object_entries_s((f - 1) as nat, toks, i + 1, Seq::empty()) {
                ParseStepV::Done(entries, i2) => if check_s(toks, i2, TokenKindV::RightBrace) {
                    ParseStepV::Done(ExprV::Object(entries), i2 + 1)
                } else {
                    ParseStepV::Fail(ParserErrorKindV::UnexpectedToken(cur_tok(toks, i2)))
                },
                ParseStepV::Fail(k) => ParseStepV::Fail(k),
                ParseStepV::OutOfFuel => ParseStepV::OutOfFuel,
            }
        } else {
            match block_stmts_s((f - 1) as nat, toks, i + 1, Seq::empty()) {
                ParseStepV::Done(ss, i2) => if check_s(toks, i2, TokenKindV::RightBrace) {
                    ParseStepV::Done(ExprV::Block(ss), i2 + 1)
                } else {
                    ParseStepV::Fail(ParserErrorKindV::UnexpectedToken(cur_tok(toks, i2)))
                },
                ParseStepV::Fail(k) => ParseStepV::Fail(k),
                ParseStepV::OutOfFuel => ParseStepV::OutOfFuel,
            }
        }
    }
}

/// An array literal: `i` stands just past the opening bracket.
#[verifier::opaque]
pub open spec fn primary_bracket_s(f: nat, toks: Seq<TokenV>, i: int) -> ParseStepV<ExprV>
    decreases f, 0int,
{
    if f == 0 {
        ParseStepV::OutOfFuel
    } else {
        if check_s(toks, i, TokenKindV::RightBracket) {
            ParseStepV::Done(ExprV::Array(Seq::empty()), i + 1)
        } else {
            match args_loop_s((f - 1) as nat, toks, i, Seq::empty()) {
                ParseStepV::Done(items, i2) => if check_s(toks, i2, TokenKindV::RightBracket) {
                    ParseStepV::Done(ExprV::Array(items), i2 + 1)
                } else {
                    ParseStepV::Fail(ParserErrorKindV::UnexpectedToken(cur_tok(toks, i2)))
                },
                ParseStepV::Fail(k) => ParseStepV::Fail(k),
                ParseStepV::OutOfFuel => ParseStepV::OutOfFuel,
            }
        }
    }
}

/// A parenthesized expression: `i` stands just past the opening
/// parenthesis.
#[verifier::opaque]
pub open spec fn primary_paren_s(f: nat, toks: Seq<TokenV>, i: int) -> ParseStepV<ExprV>
    decreases f, 0int,
{
    if f == 0 {
        ParseStepV::OutOfFuel
    } else {
        match expression_s((f - 1) as nat, toks, i) {
            ParseStepV::Done(e, i2) => if check_s(toks, i2, TokenKindV::RightParen) {
                ParseStepV::Done(e, i2 + 1)
            } else {
                ParseStepV::Fail(ParserErrorKindV::UnexpectedToken(cur_tok(toks, i2)))
            },
            ParseStepV::Fail(k) => ParseStepV::Fail(k),
            ParseStepV::OutOfFuel => ParseStepV::OutOfFuel,
        }
    }
}

/// A primary expression: a literal, a variable or call, a
/// parenthesized expression, a block, or an array or object literal.
#[verifier::opaque]
pub open spec fn primary_s(f: nat, toks: Seq<TokenV>, i: int) -> ParseStepV<ExprV>
    decreases f, 1int,
{
    if f == 0 {
        ParseStepV::OutOfFuel
    } else if at_end_s(toks, i) {
        ParseStepV::Fail(ParserErrorKindV::UnexpectedEOF)
    } else {
        let t = cur_tok(toks, i);
        match t.kind {
            TokenKindV::Number(n) => ParseStepV::Done(ExprV::Number(n), i + 1),
            TokenKindV::Boolean(b) => ParseStepV::Done(ExprV::Boolean(b), i + 1),
            TokenKindV::Str(s) => ParseStepV::Done(ExprV::Str(s), i + 1),
            TokenKindV::Identifier(name) => primary_ident_s(f, toks, i + 1, name),
            TokenKindV::LeftParen => primary_paren_s(f, toks, i + 1),
            TokenKindV::LeftBrace => primary_brace_s(f, toks, i),
            TokenKindV::LeftBracket => primary_bracket_s(f, toks, i + 1),
            _ => ParseStepV::Fail(ParserErrorKindV::UnexpectedToken(t)),
        }
    }
}

/// A conditional: a condition, a then-expression, and optionally
/// `else` with an else-expression.
#[verifier::opaque]
pub open spec fn if_expression_s(f: nat, toks: Seq<TokenV>, i: int) -> ParseStepV<ExprV>
    decreases f,
{
    if f == 0 {
        ParseStepV::OutOfFuel
    } else {
        match expression_s((f - 1) as nat, toks, i) {
            ParseStepV::Done(c, i1) => match expression_s((f - 1) as nat, toks, i1) {
                ParseStepV::Done(t, i2) => if check_s(toks, i2, TokenKindV::Else) {
                    match expression_s((f - 1) as nat, toks, i2 + 1) {
                        ParseStepV::Done(e, i3) => ParseStepV::Done(
                            ExprV::If {
                                condition: Box::new(c),
                                then_branch: Box::new(t),
                                else_branch: Some(Box::new(e)),
                            },
                            i3,
                        ),
                        ParseStepV::Fail(k) => ParseStepV::Fail(k),
                        ParseStepV::OutOfFuel => ParseStepV::OutOfFuel,
                    }
                } else {
                    ParseStepV::Done(
                        ExprV::If {
                            condition: Box::new(c),
                            then_branch: Box::new(t),
                            else_branch: None,
                        },
                        i2,
                    )
                },
                ParseStepV::Fail(k) => ParseStepV::Fail(k),
                ParseStepV::OutOfFuel => ParseStepV::OutOfFuel,
            },
            ParseStepV::Fail(k) => ParseStepV::Fail(k),
            ParseStepV::OutOfFuel => ParseStepV::OutOfFuel,
        }
    }
}

/// A loop: a condition, then a brace-delimited body of statements.
#[verifier::opaque]
pub open spec fn while_expression_s(f: nat, toks: Seq<TokenV>, i: int) -> ParseStepV<ExprV>
    decreases f,
{
    if f == 0 {
        ParseStepV::OutOfFuel
    } else {
        match expression_s((f - 1) as nat, toks, i) {
            ParseStepV::Done(c, i1) => if check_s(toks, i1, TokenKindV::LeftBrace) {
                match block_stmts_s((f - 1) as nat, toks, i1 + 1, Seq::empty()) {
                    ParseStepV::Done(body, i2) => if check_s(toks, i2, TokenKindV::RightBrace) {
                        ParseStepV::Done(
                            ExprV::While { condition: Box::new(c), body: body },
                            i2 + 1,
                        )
                    } else {
                        ParseStepV::Fail(ParserErrorKindV::UnexpectedToken(cur_tok(toks, i2)))
                    },
                    ParseStepV::Fail(k) => ParseStepV::Fail(k),
                    ParseStepV::OutOfFuel => ParseStepV::OutOfFuel,
                }
            } else {
                ParseStepV::Fail(ParserErrorKindV::UnexpectedToken(cur_tok(toks, i1)))
            },
            ParseStepV::Fail(k) => ParseStepV::Fail(k),
            ParseStepV::OutOfFuel => ParseStepV::OutOfFuel,
        }
    }
}

/// A `let` binding: a name, the assignment sign, and an initializer.
#[verifier::opaque]
pub open spec fn let_statement_s(f: nat, toks: Seq<TokenV>, i: int) -> ParseStepV<StmtV>
    decreases f,
{
    if f == 0 {
        ParseStepV::OutOfFuel
    } else {
        match consume_ident_s(toks, i) {
            ParseStepV::Done(name, i1) => if check_s(toks, i1, TokenKindV::Assign) {
                match expression_s((f - 1) as nat, toks, i1 + 1) {
                    ParseStepV::Done(v, i2) => ParseStepV::Done(
                        StmtV::Let { name: name, value: v },
                        i2,
                    ),
                    ParseStepV::Fail(k) => ParseStepV::Fail(k),
                    ParseStepV::OutOfFuel => ParseStepV::OutOfFuel,
                }
            } else {
                ParseStepV::Fail(ParserErrorKindV::UnexpectedToken(cur_tok(toks, i1)))
            },
            ParseStepV::Fail(k) => ParseStepV::Fail(k),
            ParseStepV::OutOfFuel => ParseStepV::OutOfFuel,
        }
    }
}

/// Comma-separated parameter names, at least one.
#[verifier::opaque]
pub open spec fn params_loop_s(
    f: nat,
    toks: Seq<TokenV>,
    i: int,
    acc: Seq<Seq<char>>,
) -> ParseStepV<Seq<Seq<char>>>
    decreases f,
{
    if f == 0 {
        ParseStepV::OutOfFuel
    } else {
        match consume_ident_s(toks, i) {
            ParseStepV::Done(name, i1) => if check_s(toks, i1, TokenKindV::Comma) {
                params_loop_s((f - 1) as nat, toks, i1 + 1, acc.push(name))
            } else {
                ParseStepV::Done(acc.push(name), i1)
            },
            ParseStepV::Fail(k) => ParseStepV::Fail(k),
            ParseStepV::OutOfFuel => ParseStepV::OutOfFuel,
        }
    }
}

/// A function declaration: a name, a parenthesized parameter list,
/// and a body expression.
#[verifier::opaque]
pub open spec fn function_statement_s(f: nat, toks: Seq<TokenV>, i: int) -> ParseStepV<StmtV>
    decreases f,
{
    if f == 0 {
        ParseStepV::OutOfFuel
    } else {
        match consume_ident_s(toks, i) {
            ParseStepV::Done(name, i1) => if check_s(toks, i1, TokenKindV::LeftParen) {
                let pr: ParseStepV<Seq<Seq<char>>> = if check_s(
                    toks,
                    i1 + 1,
                    TokenKindV::RightParen,
                ) {
                    ParseStepV::Done(Seq::empty(), i1 + 2)
                } else {
                    match params_loop_s((f - 1) as nat, toks, i1 + 1, Seq::empty()) {
                        ParseStepV::Done(ps, i2) => if check_s(toks, i2, TokenKindV::RightParen) {
                            ParseStepV::Done(ps, i2 + 1)
                        } else {
                            ParseStepV::Fail(
                                ParserErrorKindV::UnexpectedToken(cur_tok(toks, i2)),
                            )
                        },
                        ParseStepV::Fail(k) => ParseStepV::Fail(k),
                        ParseStepV::OutOfFuel => ParseStepV::OutOfFuel,
                    }
                };
                match pr {
                    ParseStepV::Done(ps, i3) => match expression_s((f - 1) as nat, toks, i3) {
                        ParseStepV::Done(body, i4) => ParseStepV::Done(
                            StmtV::Function { name: name, params: ps, body: body },
                            i4,
                        ),
                        ParseStepV::Fail(k) => ParseStepV::Fail(k),
                        ParseStepV::OutOfFuel => ParseStepV::OutOfFuel,
                    },
                    ParseStepV::Fail(k) => ParseStepV::Fail(k),
                    ParseStepV::OutOfFuel => ParseStepV::OutOfFuel,
                }
            } else {
                ParseStepV::Fail(ParserErrorKindV::UnexpectedToken(cur_tok(toks, i1)))
            },
            ParseStepV::Fail(k) => ParseStepV::Fail(k),
            ParseStepV::OutOfFuel => ParseStepV::OutOfFuel,
        }
    }
}

/// Closes a statement: a semicolon or newline separator is taken when
/// present; otherwise the statement must stand at the end of its
/// block or of the program, or be a bare or tail expression. Any
/// separator run after it is consumed.
pub open spec fn finish_stmt_s(toks: Seq<TokenV>, i: int, st: StmtV) -> ParseStepV<StmtV> {
    let consumed = check_s(toks, i, TokenKindV::Semicolon) || check_s(
        toks,
        i,
        TokenKindV::Newline,
    );
    let i1 = if consumed {
        i + 1
    } else {
        i
    };
    if !consumed && !at_end_s(toks, i1) && !check_s(toks, i1, TokenKindV::RightBrace) && !(
    st is Expr || st is Result) {
        ParseStepV::Fail(ParserErrorKindV::UnexpectedToken(cur_tok(toks, i1)))
    } else {
        ParseStepV::Done(st, del_empty_stmts_s(toks, i1))
    }
}

/// One statement: separators are skipped; `let`, `fn` and `return`
/// open their forms; a bare expression becomes a tail-`Result` when
/// it stands on the last non-empty line of its block or of the
/// program, and a discarded expression statement otherwise.
#[verifier::opaque]
pub open spec fn statement_s(f: nat, toks: Seq<TokenV>, i: int) -> ParseStepV<StmtV>
    decreases f,
{
    if f == 0 {
        ParseStepV::OutOfFuel
    } else {
        let i0 = del_empty_stmts_s(toks, i);
        if check_s(toks, i0, TokenKindV::Let) {
            match let_statement_s((f - 1) as nat, toks, i0 + 1) {
                ParseStepV::Done(st, i1) => finish_stmt_s(toks, i1, st),
                ParseStepV::Fail(k) => ParseStepV::Fail(k),
                ParseStepV::OutOfFuel => ParseStepV::OutOfFuel,
            }
        } else if check_s(toks, i0, TokenKindV::Fn) {
            match function_statement_s((f - 1) as nat, toks, i0 + 1) {
                ParseStepV::Done(st, i1) => finish_stmt_s(toks, i1, st),
                ParseStepV::Fail(k) => ParseStepV::Fail(k),
                ParseStepV::OutOfFuel => ParseStepV::OutOfFuel,
            }
        } else if check_s(toks, i0, TokenKindV::Return) {
            let i1 = i0 + 1;
            if !check_s(toks, i1, TokenKindV::Semicolon) && !check_s(
                toks,
                i1,
                TokenKindV::Newline,
            ) {
                match expression_s((f - 1) as nat, toks, i1) {
                    ParseStepV::Done(e, i2) => finish_stmt_s(toks, i2, StmtV::Return(Some(e))),
                    ParseStepV::Fail(k) => ParseStepV::Fail(k),
                    ParseStepV::OutOfFuel => ParseStepV::OutOfFuel,
                }
            } else {
                finish_stmt_s(toks, i1, StmtV::Return(None))
            }
        } else {
            match expression_s((f - 1) as nat, toks, i0) {
                ParseStepV::Done(e, i1) => if check_s(toks, i1, TokenKindV::Semicolon) {
                    finish_stmt_s(toks, i1, StmtV::Expr(e))
                } else if check_s(toks, i1, TokenKindV::Newline) {
                    let ib = del_empty_lines_s(toks, i1);
                    if !check_s(toks, ib, TokenKindV::RightBrace) && !at_end_s(toks, ib) {
                        finish_stmt_s(toks, ib, StmtV::Expr(e))
                    } else {
                        finish_stmt_s(toks, ib, StmtV::Result(e))
                    }
                } else if at_end_s(toks, i1) || check_s(toks, i1, TokenKindV::RightBrace) {
                    finish_stmt_s(toks, i1, StmtV::Result(e))
                } else {
                    ParseStepV::Fail(ParserErrorKindV::UnexpectedToken(cur_tok(toks, i1)))
                },
                ParseStepV::Fail(k) => ParseStepV::Fail(k),
                ParseStepV::OutOfFuel => ParseStepV::OutOfFuel,
            }
        }
    }
}

/// The statements of a whole program, up to the end of the input.
#[verifier::opaque]
pub open spec fn parse_program_s(f: nat, toks: Seq<TokenV>, i: int, acc: Seq<StmtV>) -> ParseStepV<
    Seq<StmtV>,
>
    decreases f,
{
    if at_end_s(toks, i) {
        ParseStepV::Done(acc, i)
    } else if f == 0 {
        ParseStepV::OutOfFuel
    } else {
        match statement_s((f - 1) as nat, toks, i) {
            ParseStepV::Done(st, i2) => parse_program_s((f - 1) as nat, toks, i2, acc.push(st)),
            ParseStepV::Fail(k) => ParseStepV::Fail(k),
            ParseStepV::OutOfFuel => ParseStepV::OutOfFuel,
        }
    }
}

/// What parsing a token stream comes to: comments are dropped, then
/// the statements are read to the end of the input.
pub open spec fn parse_spec(ts: Seq<TokenV>) -> ParseStepV<Seq<StmtV>> {
    parse_program_s(u64::MAX as nat, filter_comments_s(ts), 0, Seq::empty())
}

} // verus!
