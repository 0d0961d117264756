use vstd::prelude::*;
use crate::lexer::render_tokens_s;
use crate::lexer::scan::{is_ws_char, lex_s, lex_step_s, scan_numlike_end, skip_ws_s, tokenize_s,
    LexStepV};
use crate::lexer::token::{token_text, Span, TokenKindV, TokenV};
use crate::parser::ast::{ExprV, StmtV};
use crate::parser::grammar::{assignment_s, del_cont_s, del_empty_stmts_s, equality_s,
    expression_s, filter_comments_s, finish_stmt_s, level_loop_s, level_s, parse_program_s,
    parse_spec, primary_s, statement_s, unary_s, ParseStepV};
use crate::runtime::builtins::CallResultV;
use crate::runtime::environment::{initial_env, BindingV};
use crate::runtime::error::InterpreterErrorV;
use crate::runtime::eval::{call_function_s, eval_expr_s, eval_stmt_s, eval_stmts_s, EvalResultV,
    DEFAULT_FUEL};
use crate::runtime::function::FunctionV;
use crate::runtime::value::ValueV;
use crate::text::{all_digits, dec_digits, is_digit_char, lemma_dec_digits_val};

verus! {

/// A run of digits scans to the end of the input.
proof fn lemma_scan_numlike_all(cs: Seq<char>, i: int)
    requires
        all_digits(cs),
        0 <= i <= cs.len(),
    ensures
        scan_numlike_end(cs, i) == cs.len(),
    decreases cs.len() - i,
{
    if i < cs.len() {
        assert(is_digit_char(cs[i]));
        lemma_scan_numlike_all(cs, i + 1);
    }
}

/// Tokenizing the decimal text of a number yields exactly one number
/// token carrying its value, then the end marker.
proof fn lemma_tokenize_decimal(n: int)
    requires
        0 <= n <= i128::MAX,
    ensures
        ({
            let r = tokenize_s(dec_digits(n as nat));
            r matches Ok(ts) && ts.len() == 2 && ts[0].kind == TokenKindV::Number(n)
                && ts[1].kind is Eof
        }),
{
    let cs = dec_digits(n as nat);
    lemma_dec_digits_val(n as nat);
    assert(cs.len() >= 1);
    assert(is_digit_char(cs[0]));
    assert(!is_ws_char(cs[0]));
    assert(skip_ws_s(cs, 0, 1, 1) == (0int, 1int, 1int));
    lemma_scan_numlike_all(cs, 1);
    assert(cs.subrange(0, cs.len() as int) =~= cs);
    let step = lex_step_s(cs, 0, 1, 1);
    assert(step == LexStepV::Tok(
        TokenV { kind: TokenKindV::Number(n), span: Span { line: 1, column: 1 } },
        cs.len() as int,
        1int,
        (1 + cs.len()) as int,
    ));
    let t0 = TokenV { kind: TokenKindV::Number(n), span: Span { line: 1, column: 1 } };
    assert(lex_s(cs, 0, 1, 1, Seq::empty()) == lex_s(
        cs,
        cs.len() as int,
        1int,
        (1 + cs.len()) as int,
        Seq::empty().push(t0),
    ));
    let ts = Seq::empty().push(t0).push(
        TokenV {
            kind: TokenKindV::Eof,
            span: Span { line: 1, column: (1 + cs.len()) as usize },
        },
    );
    assert(tokenize_s(cs) == Ok::<Seq<TokenV>, crate::lexer::error::LexerErrorV>(ts));
    assert(ts[0].kind == TokenKindV::Number(n));
    assert(ts[1].kind is Eof);
}

/// Parsing a stream of one number token yields one tail statement
/// holding the number literal.
proof fn lemma_parse_number_token(ts: Seq<TokenV>, n: int)
    requires
        ts.len() == 2,
        ts[0].kind == TokenKindV::Number(n),
        ts[1].kind is Eof,
    ensures
        ({
            let r = parse_spec(ts);
            r matches ParseStepV::Done(ss, _) && ss =~= seq![StmtV::Result(ExprV::Number(n))]
        }),
{
    reveal_with_fuel(filter_comments_s, 3);
    assert(ts.drop_last() =~= seq![ts[0]]);
    assert(seq![ts[0]].drop_last() =~= Seq::<TokenV>::empty());
    assert(filter_comments_s(ts) =~= ts);
    let f0 = u64::MAX as nat;
    reveal(parse_program_s);
    reveal(statement_s);
    reveal(expression_s);
    reveal(assignment_s);
    reveal_with_fuel(level_s, 5);
    reveal_with_fuel(level_loop_s, 5);
    reveal(unary_s);
    reveal(primary_s);
    reveal_with_fuel(del_cont_s, 2);
    let f1 = (f0 - 1) as nat;
    assert(del_empty_stmts_s(ts, 0) == 0);
    let e = ExprV::Number(n);
    assert(primary_s((f1 - 8) as nat, ts, 0) == ParseStepV::Done(e, 1));
    assert(unary_s((f1 - 7) as nat, ts, 0) == ParseStepV::Done(e, 1));
    assert(level_loop_s(3, (f1 - 7) as nat, ts, 1, e) == ParseStepV::Done(e, 1));
    assert(level_s(3, (f1 - 6) as nat, ts, 0) == ParseStepV::Done(e, 1));
    assert(level_loop_s(2, (f1 - 6) as nat, ts, 1, e) == ParseStepV::Done(e, 1));
    assert(level_s(2, (f1 - 5) as nat, ts, 0) == ParseStepV::Done(e, 1));
    assert(level_loop_s(1, (f1 - 5) as nat, ts, 1, e) == ParseStepV::Done(e, 1));
    assert(level_s(1, (f1 - 4) as nat, ts, 0) == ParseStepV::Done(e, 1));
    assert(level_loop_s(0, (f1 - 4) as nat, ts, 1, e) == ParseStepV::Done(e, 1));
    assert(level_s(0, (f1 - 3) as nat, ts, 0) == ParseStepV::Done(e, 1));
    assert(equality_s((f1 - 3) as nat, ts, 0) == ParseStepV::Done(e, 1));
    assert(assignment_s((f1 - 2) as nat, ts, 0) == ParseStepV::Done(e, 1));
    assert(expression_s((f1 - 1) as nat, ts, 0) == ParseStepV::Done(e, 1));
    assert(del_empty_stmts_s(ts, 1) == 1);
    assert(finish_stmt_s(ts, 1, StmtV::Result(e)) == ParseStepV::Done(StmtV::Result(e), 1));
    assert(statement_s(f1, ts, 0) == ParseStepV::Done(StmtV::Result(e), 1));
    assert(parse_program_s((f0 - 1) as nat, ts, 1, Seq::empty().push(StmtV::Result(e)))
        == ParseStepV::Done(Seq::empty().push(StmtV::Result(e)), 1));
    assert(parse_program_s(f0, ts, 0, Seq::empty()) == ParseStepV::Done(
        Seq::empty().push(StmtV::Result(e)),
        1,
    ));
    assert(Seq::empty().push(StmtV::Result(e)) =~= seq![StmtV::Result(ExprV::Number(n))]);
}

/// Every valid numeric literal evaluates to its own number: the
/// decimal text of `n` tokenizes to a number token, that token parses
/// to a tail statement holding the literal, and the program made of
/// it evaluates to exactly `Number(n)` in a fresh environment.
pub proof fn lemma_numeric_literal_round_trip(n: int)
    requires
        0 <= n <= i128::MAX,
    ensures
        ({
            let lexed = tokenize_s(dec_digits(n as nat));
            lexed matches Ok(ts) && (parse_spec(ts) matches ParseStepV::Done(ss, _) && (
            eval_stmts_s(DEFAULT_FUEL as nat, ss, initial_env(), ValueV::Nil) matches
                EvalResultV::Val(v, _) && v == ValueV::Number(n)))
        }),
{
    lemma_tokenize_decimal(n);
    let ts = tokenize_s(dec_digits(n as nat))->Ok_0;
    lemma_parse_number_token(ts, n);
    let ss = parse_spec(ts)->Done_0;
    let f = DEFAULT_FUEL as nat;
    assert(eval_expr_s(f, ExprV::Number(n), initial_env()) == EvalResultV::Val(
        ValueV::Number(n),
        initial_env(),
    ));
    assert(eval_stmt_s(f, StmtV::Result(ExprV::Number(n)), initial_env()) == EvalResultV::Val(
        ValueV::Number(n),
        initial_env(),
    ));
    reveal_with_fuel(eval_stmts_s, 3);
    assert(ss.subrange(1, ss.len() as int) =~= Seq::<StmtV>::empty());
    assert(eval_stmts_s(f, ss, initial_env(), ValueV::Nil) == EvalResultV::Val(
        ValueV::Number(n),
        initial_env(),
    ));
}

/// A digit run followed by one space scans exactly to the space.
proof fn lemma_scan_numlike_digits_then_space(dd: Seq<char>, i: int)
    requires
        all_digits(dd),
        0 <= i <= dd.len(),
    ensures
        scan_numlike_end(dd + seq![' '], i) == dd.len(),
    decreases dd.len() - i,
{
    let cs = dd + seq![' '];
    if i < dd.len() {
        assert(cs[i] == dd[i]);
        assert(is_digit_char(dd[i]));
        lemma_scan_numlike_digits_then_space(dd, i + 1);
    } else {
        assert(cs[i] == ' ');
    }
}

/// Printing the token stream of a single numeric literal back to
/// source text and tokenizing that text again gives a stream that
/// parses to the structurally identical program. This is the
/// round-trip property, shown for one-literal programs; wider
/// programs are exercised by tests.
pub proof fn lemma_print_parse_number_round_trip(ts: Seq<TokenV>, n: int)
    requires
        0 <= n <= i128::MAX,
        ts.len() == 2,
        ts[0].kind == TokenKindV::Number(n),
        ts[1].kind is Eof,
    ensures
        ({
            let relexed = tokenize_s(render_tokens_s(ts));
            relexed matches Ok(ts2) && (parse_spec(ts2) matches ParseStepV::Done(ss2, _) && (
            parse_spec(ts) matches ParseStepV::Done(ss1, _) && ss1 == ss2))
        }),
{
    lemma_dec_digits_val(n as nat);
    let dd = dec_digits(n as nat);
    reveal_with_fuel(render_tokens_s, 3);
    reveal_with_fuel(skip_ws_s, 3);
    reveal_with_fuel(lex_s, 3);
    assert(ts.drop_last() =~= seq![ts[0]]);
    assert(seq![ts[0]].drop_last() =~= Seq::<TokenV>::empty());
    reveal_strlit("");
    let cs = render_tokens_s(ts);
    assert(token_text(ts[0].kind) == dd);
    assert(token_text(ts[1].kind).len() == 0);
    assert(cs =~= dd + seq![' ']);
    // Tokenizing the rendered text: the digits make one number token,
    // the trailing space is skipped, then the end marker follows.
    assert(is_digit_char(cs[0]));
    assert(!is_ws_char(cs[0]));
    assert(skip_ws_s(cs, 0, 1, 1) == (0int, 1int, 1int));
    lemma_scan_numlike_digits_then_space(dd, 1);
    assert(cs.subrange(0, dd.len() as int) =~= dd);
    let t0 = TokenV { kind: TokenKindV::Number(n), span: Span { line: 1, column: 1 } };
    assert(lex_step_s(cs, 0, 1, 1) == LexStepV::Tok(t0, dd.len() as int, 1int, (1 + dd.len()) as int));
    assert(lex_s(cs, 0, 1, 1, Seq::empty()) == lex_s(
        cs,
        dd.len() as int,
        1int,
        (1 + dd.len()) as int,
        Seq::empty().push(t0),
    ));
    assert(is_ws_char(cs[dd.len() as int]));
    assert(skip_ws_s(cs, dd.len() as int, 1, (1 + dd.len()) as int) == (
        cs.len() as int,
        1int,
        (2 + dd.len()) as int,
    ));
    assert(lex_step_s(cs, dd.len() as int, 1, (1 + dd.len()) as int) == LexStepV::Skip(
        cs.len() as int,
        1int,
        (2 + dd.len()) as int,
    ));
    let ts2 = Seq::empty().push(t0).push(
        TokenV {
            kind: TokenKindV::Eof,
            span: Span { line: 1, column: (2 + dd.len()) as usize },
        },
    );
    assert(tokenize_s(cs) == Ok::<Seq<TokenV>, crate::lexer::error::LexerErrorV>(ts2));
    assert(ts2[0].kind == TokenKindV::Number(n));
    assert(ts2[1].kind is Eof);
    lemma_parse_number_token(ts2, n);
    lemma_parse_number_token(ts, n);
    assert(parse_spec(ts)->Done_0 =~= parse_spec(ts2)->Done_0);
}

/// Calling a user function with the wrong number of arguments always
/// fails with `InvalidOperation`, whatever the callee's body, the
/// arguments and the caller's bindings are.
pub proof fn lemma_call_arity_mismatch(
    fuel: nat,
    params: Seq<Seq<char>>,
    body: ExprV,
    argv: Seq<ValueV>,
    caller: Map<Seq<char>, BindingV>,
)
    requires
        params.len() != argv.len(),
    ensures
        call_function_s(fuel, FunctionV::User { params, body }, argv, caller)
            == CallResultV::Fail(InterpreterErrorV::InvalidOperation),
{
}

} // verus!
