use vstd::prelude::*;
use crate::lexer::token::{TokenKind, TokenKindV};
use crate::parser::ast::{clone_names, lemma_view_exprs_index, lemma_view_obj_entries_index,
    lemma_view_stmts_index, view_exprs, view_names, view_obj_entries, view_stmts, Expr, ExprV,
    Stmt, StmtV};
use crate::runtime::builtins::{builtin_call_s, CallResultV};
use crate::runtime::environment::{call_base, initial_env, BindingV, Environment};
use crate::runtime::error::{InterpreterError, InterpreterErrorV};
use crate::runtime::function::{Function, FunctionV, UserFunction};
use crate::runtime::host::str_eq;
use crate::runtime::value::{lemma_view_entries_index, lemma_view_values_index,
    lemma_view_values_push, view_entries, view_value, view_values, Number, Value, ValueV};

verus! {

/// The nesting budget of the interpreter: evaluation deeper than this
/// many calls and loop turns reports `RecursionLimit`.
pub const DEFAULT_FUEL: u64 = u64::MAX;

/// What evaluating a piece of program comes to: a value or an error,
/// each with the environment as it stands afterwards, or an answer
/// that involved the host (input, randomness), of which nothing is
/// claimed.
pub enum EvalResultV {
    Val(ValueV, Map<Seq<char>, BindingV>),
    Fail(InterpreterErrorV, Map<Seq<char>, BindingV>),
    Host,
}

/// What evaluating a list of expressions comes to.
pub enum ArgsResultV {
    Vals(Seq<ValueV>, Map<Seq<char>, BindingV>),
    Fail(InterpreterErrorV, Map<Seq<char>, BindingV>),
    Host,
}

/// What evaluating the entries of an object literal comes to.
pub enum EntriesResultV {
    Vals(Seq<(Seq<char>, ValueV)>, Map<Seq<char>, BindingV>),
    Fail(InterpreterErrorV, Map<Seq<char>, BindingV>),
    Host,
}

/// The size of an expression, for termination measures.
pub open spec fn size_expr(e: ExprV) -> nat
    decreases e,
{
    match e {
        ExprV::Number(_) => 1,
        ExprV::Boolean(_) => 1,
        ExprV::Str(_) => 1,
        ExprV::Variable(_) => 1,
        ExprV::Array(es) => 1 + size_exprs(es),
        ExprV::Object(ps) => 1 + size_obj_entries(ps),
        ExprV::If { condition, then_branch, else_branch } => 1 + size_expr(*condition) + size_expr(
            *then_branch,
        ) + (match else_branch {
            Some(b) => size_expr(*b),
            None => 0,
        }),
        ExprV::Block(ss) => 1 + size_stmts(ss),
        ExprV::BinaryOp { left, op: _, right } => 1 + size_expr(*left) + size_expr(*right),
        ExprV::UnaryOp { op: _, expr } => 1 + size_expr(*expr),
        ExprV::FunctionCall { name: _, args } => 1 + size_exprs(args),
        ExprV::While { condition, body } => 2 + size_expr(*condition) + size_stmts(body),
    }
}

/// The size of a list of expressions.
pub open spec fn size_exprs(es: Seq<ExprV>) -> nat
    decreases es,
{
    if es.len() == 0 {
        0
    } else {
        1 + size_expr(es[0]) + size_exprs(es.subrange(1, es.len() as int))
    }
}

/// The size of a list of object-literal entries.
pub open spec fn size_obj_entries(ps: Seq<(Seq<char>, ExprV)>) -> nat
    decreases ps,
{
    if ps.len() == 0 {
        0
    } else {
        1 + size_expr(ps[0].1) + size_obj_entries(ps.subrange(1, ps.len() as int))
    }
}

/// The size of a statement.
pub open spec fn size_stmt(s: StmtV) -> nat
    decreases s,
{
    match s {
        StmtV::Expr(e) => 1 + size_expr(e),
        StmtV::Let { name: _, value } => 1 + size_expr(value),
        StmtV::Function { .. } => 1,
        StmtV::Result(e) => 1 + size_expr(e),
        StmtV::Return(oe) => match oe {
            Some(e) => 1 + size_expr(e),
            None => 1,
        },
    }
}

/// The size of a list of statements.
pub open spec fn size_stmts(ss: Seq<StmtV>) -> nat
    decreases ss,
{
    if ss.len() == 0 {
        0
    } else {
        1 + size_stmt(ss[0]) + size_stmts(ss.subrange(1, ss.len() as int))
    }
}

/// Every element of a statement list is smaller than the list.
pub proof fn lemma_size_stmts_element(ss: Seq<StmtV>, i: int)
    requires
        0 <= i < ss.len(),
    ensures
        size_stmt(ss[i]) < size_stmts(ss),
        size_stmts(ss.subrange(i, ss.len() as int)) <= size_stmts(ss),
        size_stmt(ss[i]) < size_stmts(ss.subrange(i, ss.len() as int)),
    decreases i,
{
    let tail = ss.subrange(1, ss.len() as int);
    if i == 0 {
        assert(ss.subrange(0, ss.len() as int) =~= ss);
    } else {
        lemma_size_stmts_element(tail, i - 1);
        assert(tail[i - 1] == ss[i]);
        assert(tail.subrange(i - 1, tail.len() as int) =~= ss.subrange(i, ss.len() as int));
    }
}

/// Every element of an expression list is smaller than the list.
pub proof fn lemma_size_exprs_element(es: Seq<ExprV>, i: int)
    requires
        0 <= i < es.len(),
    ensures
        size_expr(es[i]) < size_exprs(es),
        size_exprs(es.subrange(i, es.len() as int)) <= size_exprs(es),
        size_expr(es[i]) < size_exprs(es.subrange(i, es.len() as int)),
    decreases i,
{
    let tail = es.subrange(1, es.len() as int);
    if i == 0 {
        assert(es.subrange(0, es.len() as int) =~= es);
    } else {
        lemma_size_exprs_element(tail, i - 1);
        assert(tail[i - 1] == es[i]);
        assert(tail.subrange(i - 1, tail.len() as int) =~= es.subrange(i, es.len() as int));
    }
}

/// Every entry of an object-literal list is smaller than the list.
pub proof fn lemma_size_obj_entries_element(ps: Seq<(Seq<char>, ExprV)>, i: int)
    requires
        0 <= i < ps.len(),
    ensures
        size_expr(ps[i].1) < size_obj_entries(ps),
        size_obj_entries(ps.subrange(i, ps.len() as int)) <= size_obj_entries(ps),
        size_expr(ps[i].1) < size_obj_entries(ps.subrange(i, ps.len() as int)),
    decreases i,
{
    let tail = ps.subrange(1, ps.len() as int);
    if i == 0 {
        assert(ps.subrange(0, ps.len() as int) =~= ps);
    } else {
        lemma_size_obj_entries_element(tail, i - 1);
        assert(tail[i - 1] == ps[i]);
        assert(tail.subrange(i - 1, tail.len() as int) =~= ps.subrange(i, ps.len() as int));
    }
}

/// Does `x` fit in a signed 128-bit integer?
pub open spec fn in_i128(x: int) -> bool {
    i128::MIN <= x <= i128::MAX
}

/// Division truncated towards zero, as machine division behaves.
pub open spec fn trunc_div(x: int, d: int) -> int {
    if x == 0 {
        0
    } else if x > 0 && d > 0 {
        x / d
    } else if x < 0 && d < 0 {
        (x * -1) / (d * -1)
    } else if x < 0 {
        ((x * -1) / d) * -1
    } else {
        (x / (d * -1)) * -1
    }
}

/// What a binary operator yields on two numbers. Arithmetic that
/// leaves the 128-bit range, and division by zero, are invalid
/// operations, as is an operator with no numeric meaning.
pub open spec fn binop_num(op: TokenKindV, a: int, b: int) -> Result<ValueV, InterpreterErrorV> {
    match op {
        TokenKindV::Plus => if in_i128(a + b) {
            Ok(ValueV::Number(a + b))
        } else {
            Err(InterpreterErrorV::InvalidOperation)
        },
        TokenKindV::Minus => if in_i128(a - b) {
            Ok(ValueV::Number(a - b))
        } else {
            Err(InterpreterErrorV::InvalidOperation)
        },
        TokenKindV::Multiply => if in_i128(a * b) {
            Ok(ValueV::Number(a * b))
        } else {
            Err(InterpreterErrorV::InvalidOperation)
        },
        TokenKindV::Divide => if b == 0 || !in_i128(trunc_div(a, b)) {
            Err(InterpreterErrorV::InvalidOperation)
        } else {
            Ok(ValueV::Number(trunc_div(a, b)))
        },
        TokenKindV::GreaterThan => Ok(ValueV::Boolean(a > b)),
        TokenKindV::GreaterThanOrEqual => Ok(ValueV::Boolean(a >= b)),
        TokenKindV::LessThan => Ok(ValueV::Boolean(a < b)),
        TokenKindV::LessThanOrEqual => Ok(ValueV::Boolean(a <= b)),
        TokenKindV::Equal => Ok(ValueV::Boolean(a == b)),
        TokenKindV::NotEqual => Ok(ValueV::Boolean(a != b)),
        _ => Err(InterpreterErrorV::InvalidOperation),
    }
}

/// What a binary operator yields on two evaluated operands. Numbers
/// support arithmetic and comparisons, booleans only equality; any
/// other pairing is a type mismatch.
pub open spec fn binop_vals(op: TokenKindV, l: ValueV, r: ValueV) -> Result<
    ValueV,
    InterpreterErrorV,
> {
    match (l, r) {
        (ValueV::Number(a), ValueV::Number(b)) => binop_num(op, a, b),
        (ValueV::Boolean(a), ValueV::Boolean(b)) => match op {
            TokenKindV::Equal => Ok(ValueV::Boolean(a == b)),
            TokenKindV::NotEqual => Ok(ValueV::Boolean(a != b)),
            _ => Err(InterpreterErrorV::InvalidOperation),
        },
        _ => Err(InterpreterErrorV::TypeMismatch),
    }
}

/// What a unary operator yields: only numeric negation is defined.
pub open spec fn unop_vals(op: TokenKindV, v: ValueV) -> Result<ValueV, InterpreterErrorV> {
    match (op, v) {
        (TokenKindV::Minus, ValueV::Number(n)) => if in_i128(-n) {
            Ok(ValueV::Number(-n))
        } else {
            Err(InterpreterErrorV::InvalidOperation)
        },
        _ => Err(InterpreterErrorV::InvalidOperation),
    }
}

/// Inserts an entry into an object: an existing key keeps its place
/// and takes the new value, a new key goes at the end.
pub open spec fn obj_insert(
    entries: Seq<(Seq<char>, ValueV)>,
    k: Seq<char>,
    v: ValueV,
) -> Seq<(Seq<char>, ValueV)>
    decreases entries,
{
    if entries.len() == 0 {
        seq![(k, v)]
    } else if entries[0].0 == k {
        seq![(k, v)] + entries.subrange(1, entries.len() as int)
    } else {
        seq![entries[0]] + obj_insert(entries.subrange(1, entries.len() as int), k, v)
    }
}

/// Binds each parameter to its argument, left to right.
pub open spec fn bind_params(
    base: Map<Seq<char>, BindingV>,
    params: Seq<Seq<char>>,
    argv: Seq<ValueV>,
) -> Map<Seq<char>, BindingV>
    decreases params.len(),
{
    if params.len() == 0 || argv.len() == 0 {
        base
    } else {
        bind_params(
            base.insert(params[0], BindingV::Variable(argv[0])),
            params.subrange(1, params.len() as int),
            argv.subrange(1, argv.len() as int),
        )
    }
}

/// What evaluating an expression comes to, with a fuel bound on the
/// nesting of calls and loop turns.
pub open spec fn eval_expr_s(
    fuel: nat,
    e: ExprV,
    env: Map<Seq<char>, BindingV>,
) -> EvalResultV
    decreases fuel, size_expr(e), 0nat,
{
    match e {
        ExprV::Number(n) => EvalResultV::Val(ValueV::Number(n), env),
        ExprV::Boolean(b) => EvalResultV::Val(ValueV::Boolean(b), env),
        ExprV::Str(s) => EvalResultV::Val(ValueV::Str(s), env),
        ExprV::Variable(x) => if env.dom().contains(x) && env[x] is Variable {
            EvalResultV::Val(env[x]->Variable_0, env)
        } else {
            EvalResultV::Fail(InterpreterErrorV::UndefinedVariable(x), env)
        },
        ExprV::Array(es) => match eval_args_s(fuel, es, env, Seq::empty()) {
            ArgsResultV::Vals(vs, m) => EvalResultV::Val(ValueV::Array(vs), m),
            ArgsResultV::Fail(er, m) => EvalResultV::Fail(er, m),
            ArgsResultV::Host => EvalResultV::Host,
        },
        ExprV::Object(ps) => match eval_entries_s(fuel, ps, env, Seq::empty()) {
            EntriesResultV::Vals(out, m) => EvalResultV::Val(ValueV::Object(out), m),
            EntriesResultV::Fail(er, m) => EvalResultV::Fail(er, m),
            EntriesResultV::Host => EvalResultV::Host,
        },
        ExprV::If { condition, then_branch, else_branch } => match eval_expr_s(
            fuel,
            *condition,
            env,
        ) {
            EvalResultV::Val(ValueV::Boolean(true), m) => eval_expr_s(fuel, *then_branch, m),
            EvalResultV::Val(ValueV::Boolean(false), m) => match else_branch {
                Some(b) => eval_expr_s(fuel, *b, m),
                None => EvalResultV::Val(ValueV::Nil, m),
            },
            EvalResultV::Val(_, m) => EvalResultV::Fail(InterpreterErrorV::TypeMismatch, m),
            EvalResultV::Fail(er, m) => EvalResultV::Fail(er, m),
            EvalResultV::Host => EvalResultV::Host,
        },
        ExprV::Block(ss) => match eval_stmts_s(fuel, ss, env, ValueV::Nil) {
            EvalResultV::Val(v, _) => EvalResultV::Val(v, env),
            EvalResultV::Fail(er, _) => EvalResultV::Fail(er, env),
            EvalResultV::Host => EvalResultV::Host,
        },
        ExprV::BinaryOp { left, op, right } => if op is Assign {
            match *left {
                ExprV::Variable(x) => match eval_expr_s(fuel, *right, env) {
                    EvalResultV::Val(rv, m) => EvalResultV::Val(
                        rv,
                        m.insert(x, BindingV::Variable(rv)),
                    ),
                    EvalResultV::Fail(er, m) => EvalResultV::Fail(er, m),
                    EvalResultV::Host => EvalResultV::Host,
                },
                _ => EvalResultV::Fail(InterpreterErrorV::InvalidOperation, env),
            }
        } else {
            match eval_expr_s(fuel, *left, env) {
                EvalResultV::Val(lv, m1) => match eval_expr_s(fuel, *right, m1) {
                    EvalResultV::Val(rv, m2) => match binop_vals(op, lv, rv) {
                        Ok(v) => EvalResultV::Val(v, m2),
                        Err(er) => EvalResultV::Fail(er, m2),
                    },
                    EvalResultV::Fail(er, m2) => EvalResultV::Fail(er, m2),
                    EvalResultV::Host => EvalResultV::Host,
                },
                EvalResultV::Fail(er, m1) => EvalResultV::Fail(er, m1),
                EvalResultV::Host => EvalResultV::Host,
            }
        },
        ExprV::UnaryOp { op, expr } => match eval_expr_s(fuel, *expr, env) {
            EvalResultV::Val(v, m) => match unop_vals(op, v) {
                Ok(x) => EvalResultV::Val(x, m),
                Err(er) => EvalResultV::Fail(er, m),
            },
            EvalResultV::Fail(er, m) => EvalResultV::Fail(er, m),
            EvalResultV::Host => EvalResultV::Host,
        },
        ExprV::FunctionCall { name, args } => match eval_args_s(fuel, args, env, Seq::empty()) {
            ArgsResultV::Vals(argv, m) => if m.dom().contains(name) && m[name] is Function {
                match call_function_s(fuel, m[name]->Function_0, argv, m) {
                    CallResultV::Val(v) => EvalResultV::Val(v, m),
                    CallResultV::Fail(er) => EvalResultV::Fail(er, m),
                    CallResultV::Host => EvalResultV::Host,
                }
            } else {
                EvalResultV::Fail(InterpreterErrorV::UndefinedVariable(name), m)
            },
            ArgsResultV::Fail(er, m) => EvalResultV::Fail(er, m),
            ArgsResultV::Host => EvalResultV::Host,
        },
        ExprV::While { condition, body } => eval_while_s(fuel, *condition, body, env, Seq::empty()),
    }
}

/// What one more turn of a while loop comes to. The value of each
/// turn's last statement is collected; the loop's value is the array
/// of those, or nil after zero turns.
pub open spec fn eval_while_s(
    fuel: nat,
    cond: ExprV,
    body: Seq<StmtV>,
    env: Map<Seq<char>, BindingV>,
    acc: Seq<ValueV>,
) -> EvalResultV
    decreases fuel, 1 + size_expr(cond) + size_stmts(body), 0nat,
{
    if fuel == 0 {
        EvalResultV::Fail(InterpreterErrorV::RecursionLimit, env)
    } else {
        match eval_expr_s(fuel, cond, env) {
            EvalResultV::Val(ValueV::Boolean(true), m) => if body.len() == 0 {
                EvalResultV::Fail(InterpreterErrorV::InvalidOperation, m)
            } else {
                match eval_stmts_s(fuel, body, m, ValueV::Nil) {
                    EvalResultV::Val(v, m2) => eval_while_s(
                        (fuel - 1) as nat,
                        cond,
                        body,
                        m2,
                        acc.push(v),
                    ),
                    EvalResultV::Fail(er, m2) => EvalResultV::Fail(er, m2),
                    EvalResultV::Host => EvalResultV::Host,
                }
            },
            EvalResultV::Val(ValueV::Boolean(false), m) => EvalResultV::Val(
                if acc.len() == 0 {
                    ValueV::Nil
                } else {
                    ValueV::Array(acc)
                },
                m,
            ),
            EvalResultV::Val(_, m) => EvalResultV::Fail(InterpreterErrorV::TypeMismatch, m),
            EvalResultV::Fail(er, m) => EvalResultV::Fail(er, m),
            EvalResultV::Host => EvalResultV::Host,
        }
    }
}

/// What evaluating one statement comes to. A bare expression
/// statement discards its value; `let` and `fn` bind names; `return`
/// raises its value as a control-flow signal.
pub open spec fn eval_stmt_s(
    fuel: nat,
    s: StmtV,
    env: Map<Seq<char>, BindingV>,
) -> EvalResultV
    decreases fuel, size_stmt(s), 0nat,
{
    match s {
        StmtV::Expr(e) => match eval_expr_s(fuel, e, env) {
            EvalResultV::Val(_, m) => EvalResultV::Val(ValueV::Nil, m),
            EvalResultV::Fail(er, m) => EvalResultV::Fail(er, m),
            EvalResultV::Host => EvalResultV::Host,
        },
        StmtV::Let { name, value } => match eval_expr_s(fuel, value, env) {
            EvalResultV::Val(v, m) => EvalResultV::Val(
                ValueV::Nil,
                m.insert(name, BindingV::Variable(v)),
            ),
            EvalResultV::Fail(er, m) => EvalResultV::Fail(er, m),
            EvalResultV::Host => EvalResultV::Host,
        },
        StmtV::Function { name, params, body } => EvalResultV::Val(
            ValueV::Nil,
            env.insert(name, BindingV::Function(FunctionV::User { params, body })),
        ),
        StmtV::Result(e) => eval_expr_s(fuel, e, env),
        StmtV::Return(oe) => match oe {
            Some(e) => match eval_expr_s(fuel, e, env) {
                EvalResultV::Val(v, m) => EvalResultV::Fail(InterpreterErrorV::Return(v), m),
                EvalResultV::Fail(er, m) => EvalResultV::Fail(er, m),
                EvalResultV::Host => EvalResultV::Host,
            },
            None => EvalResultV::Fail(InterpreterErrorV::Return(ValueV::Nil), env),
        },
    }
}

/// What running a list of statements comes to: the value of the last
/// statement executed, starting from `last` when the list is empty.
pub open spec fn eval_stmts_s(
    fuel: nat,
    ss: Seq<StmtV>,
    env: Map<Seq<char>, BindingV>,
    last: ValueV,
) -> EvalResultV
    decreases fuel, size_stmts(ss), 0nat,
{
    if ss.len() == 0 {
        EvalResultV::Val(last, env)
    } else {
        match eval_stmt_s(fuel, ss[0], env) {
            EvalResultV::Val(v, m) => eval_stmts_s(fuel, ss.subrange(1, ss.len() as int), m, v),
            EvalResultV::Fail(er, m) => EvalResultV::Fail(er, m),
            EvalResultV::Host => EvalResultV::Host,
        }
    }
}

/// What evaluating a list of expressions left to right comes to.
pub open spec fn eval_args_s(
    fuel: nat,
    es: Seq<ExprV>,
    env: Map<Seq<char>, BindingV>,
    acc: Seq<ValueV>,
) -> ArgsResultV
    decreases fuel, size_exprs(es), 0nat,
{
    if es.len() == 0 {
        ArgsResultV::Vals(acc, env)
    } else {
        match eval_expr_s(fuel, es[0], env) {
            EvalResultV::Val(v, m) => eval_args_s(
                fuel,
                es.subrange(1, es.len() as int),
                m,
                acc.push(v),
            ),
            EvalResultV::Fail(er, m) => ArgsResultV::Fail(er, m),
            EvalResultV::Host => ArgsResultV::Host,
        }
    }
}

/// What evaluating the entries of an object literal comes to; a
/// repeated key keeps its place and its last value wins.
pub open spec fn eval_entries_s(
    fuel: nat,
    ps: Seq<(Seq<char>, ExprV)>,
    env: Map<Seq<char>, BindingV>,
    acc: Seq<(Seq<char>, ValueV)>,
) -> EntriesResultV
    decreases fuel, size_obj_entries(ps), 0nat,
{
    if ps.len() == 0 {
        EntriesResultV::Vals(acc, env)
    } else {
        match eval_expr_s(fuel, ps[0].1, env) {
            EvalResultV::Val(v, m) => eval_entries_s(
                fuel,
                ps.subrange(1, ps.len() as int),
                m,
                obj_insert(acc, ps[0].0, v),
            ),
            EvalResultV::Fail(er, m) => EntriesResultV::Fail(er, m),
            EvalResultV::Host => EntriesResultV::Host,
        }
    }
}

/// What calling a function on evaluated arguments comes to. A user
/// function demands its exact arity, runs its body in a fresh scope
/// built from the caller's function bindings and the parameters, and
/// turns a `return` signal back into an ordinary value. The caller's
/// environment is never changed by a call.
pub open spec fn call_function_s(
    fuel: nat,
    f: FunctionV,
    argv: Seq<ValueV>,
    caller: Map<Seq<char>, BindingV>,
) -> CallResultV
    decreases fuel, 0nat, 0nat,
{
    match f {
        FunctionV::Builtin(b) => builtin_call_s(b, argv),
        FunctionV::User { params, body } => if params.len() != argv.len() {
            CallResultV::Fail(InterpreterErrorV::InvalidOperation)
        } else if fuel == 0 {
            CallResultV::Fail(InterpreterErrorV::RecursionLimit)
        } else {
            match eval_expr_s((fuel - 1) as nat, body, bind_params(call_base(caller), params, argv)) {
                EvalResultV::Val(v, _) => CallResultV::Val(v),
                EvalResultV::Fail(InterpreterErrorV::Return(v), _) => CallResultV::Val(v),
                EvalResultV::Fail(er, _) => CallResultV::Fail(er),
                EvalResultV::Host => CallResultV::Host,
            }
        },
    }
}

/// Does the executable result and final environment agree with what
/// the specification says? Where the host decided, nothing is
/// claimed.
pub open spec fn outcome_ok(
    o: EvalResultV,
    r: Result<Value, InterpreterError>,
    envp: Map<Seq<char>, BindingV>,
) -> bool {
    match o {
        EvalResultV::Val(v, m) => (r matches Ok(x) && x@ == v) && envp == m,
        EvalResultV::Fail(ev, m) => (r matches Err(x) && x@ == ev) && envp == m,
        EvalResultV::Host => true,
    }
}

/// Applies a non-assignment binary operator to evaluated operands.
fn apply_binop(op: &TokenKind, l: Value, r: Value) -> (res: Result<Value, InterpreterError>)
    ensures
        match binop_vals(op@, l@, r@) {
            Ok(v) => res matches Ok(x) && x@ == v,
            Err(e) => res matches Err(x) && x@ == e,
        },
{
    match (l, r) {
        (Value::Number(Number::Int(a)), Value::Number(Number::Int(b))) => match op {
            TokenKind::Plus => match a.checked_add(b) {
                Some(v) => Ok(Value::Number(Number::Int(v))),
                None => Err(InterpreterError::InvalidOperation("numeric overflow".to_owned())),
            },
            TokenKind::Minus => match a.checked_sub(b) {
                Some(v) => Ok(Value::Number(Number::Int(v))),
                None => Err(InterpreterError::InvalidOperation("numeric overflow".to_owned())),
            },
            TokenKind::Multiply => match a.checked_mul(b) {
                Some(v) => Ok(Value::Number(Number::Int(v))),
                None => Err(InterpreterError::InvalidOperation("numeric overflow".to_owned())),
            },
            TokenKind::Divide => match a.checked_div(b) {
                Some(v) => Ok(Value::Number(Number::Int(v))),
                None => Err(
                    InterpreterError::InvalidOperation("division by zero or overflow".to_owned()),
                ),
            },
            TokenKind::GreaterThan => Ok(Value::Boolean(a > b)),
            TokenKind::GreaterThanOrEqual => Ok(Value::Boolean(a >= b)),
            TokenKind::LessThan => Ok(Value::Boolean(a < b)),
            TokenKind::LessThanOrEqual => Ok(Value::Boolean(a <= b)),
            TokenKind::Equal => Ok(Value::Boolean(a == b)),
            TokenKind::NotEqual => Ok(Value::Boolean(a != b)),
            _ => Err(InterpreterError::InvalidOperation("unsupported operator".to_owned())),
        },
        (Value::Boolean(a), Value::Boolean(b)) => match op {
            TokenKind::Equal => Ok(Value::Boolean(a == b)),
            TokenKind::NotEqual => Ok(Value::Boolean(a != b)),
            _ => Err(InterpreterError::InvalidOperation("unsupported operator".to_owned())),
        },
        _ => Err(InterpreterError::TypeMismatch("operand types do not match".to_owned())),
    }
}

/// Applies a unary operator to an evaluated operand.
fn apply_unop(op: &TokenKind, v: Value) -> (res: Result<Value, InterpreterError>)
    ensures
        match unop_vals(op@, v@) {
            Ok(x) => res matches Ok(y) && y@ == x,
            Err(e) => res matches Err(y) && y@ == e,
        },
{
    match (op, v) {
        (TokenKind::Minus, Value::Number(Number::Int(n))) => match (0 as i128).checked_sub(n) {
            Some(m) => Ok(Value::Number(Number::Int(m))),
            None => Err(InterpreterError::InvalidOperation("numeric overflow".to_owned())),
        },
        _ => Err(InterpreterError::InvalidOperation("unsupported unary operator".to_owned())),
    }
}

/// Inserting under a fresh key appends the entry.
proof fn lemma_obj_insert_absent(s: Seq<(Seq<char>, ValueV)>, k: Seq<char>, v: ValueV)
    requires
        forall|i: int| 0 <= i < s.len() ==> (#[trigger] s[i]).0 != k,
    ensures
        obj_insert(s, k, v) == s.push((k, v)),
    decreases s,
{
    if s.len() == 0 {
        assert(obj_insert(s, k, v) =~= s.push((k, v)));
    } else {
        let tail = s.subrange(1, s.len() as int);
        lemma_obj_insert_absent(tail, k, v);
        assert(obj_insert(s, k, v) =~= s.push((k, v)));
    }
}

/// Inserting under the key of entry `i`, the first entry with that
/// key, replaces that entry's value in place.
proof fn lemma_obj_insert_found(s: Seq<(Seq<char>, ValueV)>, k: Seq<char>, v: ValueV, i: int)
    requires
        0 <= i < s.len(),
        s[i].0 == k,
        forall|j: int| 0 <= j < i ==> (#[trigger] s[j]).0 != k,
    ensures
        obj_insert(s, k, v) == s.update(i, (k, v)),
    decreases i,
{
    if i == 0 {
        assert(obj_insert(s, k, v) =~= s.update(0, (k, v)));
    } else {
        let tail = s.subrange(1, s.len() as int);
        lemma_obj_insert_found(tail, k, v, i - 1);
        assert(obj_insert(s, k, v) =~= s.update(i, (k, v)));
    }
}

/// Inserts an entry into an object under construction, replacing the
/// value of an existing key in place or appending a new key.
fn obj_insert_exec(entries: &mut Vec<(String, Value)>, k: String, v: Value)
    ensures
        view_entries(final(entries)@) == obj_insert(view_entries(old(entries)@), k@, view_value(v)),
{
    proof {
        lemma_view_entries_index(entries@);
    }
    let n = entries.len();
    let mut i: usize = 0;
    while i < n
        invariant
            i <= n,
            n == entries@.len(),
            entries@ == old(entries)@,
            forall|j: int| 0 <= j < i ==> (#[trigger] entries@[j]).0@ != k@,
        decreases n - i,
    {
        if str_eq(entries[i].0.as_str(), k.as_str()) {
            let ghost pre = entries@;
            entries.remove(i);
            entries.insert(i, (k, v));
            proof {
                assert(entries@ =~= pre.update(i as int, (entries@[i as int].0, entries@[
                    i as int
                ].1)));
                lemma_view_entries_index(entries@);
                lemma_view_entries_index(pre);
                lemma_obj_insert_found(
                    view_entries(pre),
                    pre[i as int].0@,
                    view_value(entries@[i as int].1),
                    i as int,
                );
                assert(view_entries(entries@) =~= view_entries(pre).update(
                    i as int,
                    (pre[i as int].0@, view_value(entries@[i as int].1)),
                ));
            }
            return ;
        }
        i += 1;
    }
    let ghost pre = entries@;
    entries.push((k, v));
    proof {
        lemma_view_entries_index(entries@);
        lemma_view_entries_index(pre);
        lemma_obj_insert_absent(view_entries(pre), entries@[pre.len() as int].0@, view_value(
            entries@[pre.len() as int].1,
        ));
        assert(view_entries(entries@) =~= view_entries(pre).push(
            (entries@[pre.len() as int].0@, view_value(entries@[pre.len() as int].1)),
        ));
    }
}

/// Evaluates a list of expressions left to right in the caller's
/// environment.
#[verifier::rlimit(100)]
#[verifier::spinoff_prover]
fn eval_args_fuel(args: &Vec<Expr>, env: &mut Environment, fuel: u64) -> (r: Result<
    Vec<Value>,
    InterpreterError,
>)
    requires
        old(env).wf(),
    ensures
        final(env).wf(),
        match eval_args_s(fuel as nat, view_exprs(args@), old(env)@, Seq::empty()) {
            ArgsResultV::Vals(vs, m) => (r matches Ok(x) && view_values(x@) == vs) && final(env)@
                == m,
            ArgsResultV::Fail(er, m) => (r matches Err(x) && x@ == er) && final(env)@ == m,
            ArgsResultV::Host => true,
        },
    decreases fuel, size_exprs(view_exprs(args@)), 0nat,
{
    let ghost esv = view_exprs(args@);
    let ghost total = eval_args_s(fuel as nat, esv, old(env)@, Seq::empty());
    proof {
        lemma_view_exprs_index(args@);
        assert(esv.subrange(0, esv.len() as int) =~= esv);
        assert(view_values(Seq::<Value>::empty()) =~= Seq::<ValueV>::empty());
    }
    let mut out: Vec<Value> = Vec::new();
    let mut i: usize = 0;
    while i < args.len()
        invariant
            i <= args@.len(),
            env.wf(),
            total == eval_args_s(
                fuel as nat,
                esv.subrange(i as int, esv.len() as int),
                env@,
                view_values(out@),
            ) || total == ArgsResultV::Host,
        decreases args@.len() - i,
    {
        proof {
            lemma_size_exprs_element(esv, i as int);
            assert(esv.subrange(i as int, esv.len() as int)[0] == esv[i as int]);
            assert(esv.subrange(i as int, esv.len() as int).subrange(
                1,
                esv.len() - i,
            ) =~= esv.subrange(i + 1, esv.len() as int));
        }
        let rv = eval_expr_fuel(&args[i], env, fuel);
        match rv {
            Ok(v) => {
                proof {
                    lemma_view_values_push(out@, v);
                }
                out.push(v);
            },
            Err(e) => {
                return Err(e);
            },
        }
        i += 1;
    }
    proof {
        assert(esv.subrange(i as int, esv.len() as int) =~= Seq::<ExprV>::empty());
    }
    Ok(out)
}

/// Evaluates the entries of an object literal left to right; a
/// repeated key keeps its place and its last value wins.
#[verifier::rlimit(100)]
#[verifier::spinoff_prover]
fn eval_entries_fuel(entries: &Vec<(String, Expr)>, env: &mut Environment, fuel: u64) -> (r: Result<
    Vec<(String, Value)>,
    InterpreterError,
>)
    requires
        old(env).wf(),
    ensures
        final(env).wf(),
        match eval_entries_s(fuel as nat, view_obj_entries(entries@), old(env)@, Seq::empty()) {
            EntriesResultV::Vals(ps, m) => (r matches Ok(x) && view_entries(x@) == ps)
                && final(env)@ == m,
            EntriesResultV::Fail(er, m) => (r matches Err(x) && x@ == er) && final(env)@ == m,
            EntriesResultV::Host => true,
        },
    decreases fuel, size_obj_entries(view_obj_entries(entries@)), 0nat,
{
    let ghost psv = view_obj_entries(entries@);
    let ghost total = eval_entries_s(fuel as nat, psv, old(env)@, Seq::empty());
    proof {
        lemma_view_obj_entries_index(entries@);
        assert(psv.subrange(0, psv.len() as int) =~= psv);
        assert(view_entries(Seq::<(String, Value)>::empty()) =~= Seq::<(Seq<char>, ValueV)>::empty());
    }
    let mut out: Vec<(String, Value)> = Vec::new();
    let mut i: usize = 0;
    while i < entries.len()
        invariant
            i <= entries@.len(),
            env.wf(),
            total == eval_entries_s(
                fuel as nat,
                psv.subrange(i as int, psv.len() as int),
                env@,
                view_entries(out@),
            ) || total == EntriesResultV::Host,
        decreases entries@.len() - i,
    {
        proof {
            lemma_size_obj_entries_element(psv, i as int);
            assert(psv.subrange(i as int, psv.len() as int)[0] == psv[i as int]);
            assert(psv.subrange(i as int, psv.len() as int).subrange(
                1,
                psv.len() - i,
            ) =~= psv.subrange(i + 1, psv.len() as int));
        }
        let rv = eval_expr_fuel(&entries[i].1, env, fuel);
        match rv {
            Ok(v) => {
                let key = entries[i].0.clone();
                obj_insert_exec(&mut out, key, v);
            },
            Err(e) => {
                return Err(e);
            },
        }
        i += 1;
    }
    proof {
        assert(psv.subrange(i as int, psv.len() as int) =~= Seq::<(Seq<char>, ExprV)>::empty());
    }
    Ok(out)
}

/// Runs a list of statements in order; the value of the last
/// statement executed becomes the result, nil when the list is empty.
#[verifier::rlimit(100)]
#[verifier::spinoff_prover]
fn eval_stmts_fuel(stmts: &Vec<Stmt>, env: &mut Environment, fuel: u64) -> (r: Result<
    Value,
    InterpreterError,
>)
    requires
        old(env).wf(),
    ensures
        final(env).wf(),
        outcome_ok(
            eval_stmts_s(fuel as nat, view_stmts(stmts@), old(env)@, ValueV::Nil),
            r,
            final(env)@,
        ),
    decreases fuel, size_stmts(view_stmts(stmts@)), 0nat,
{
    let ghost ssv = view_stmts(stmts@);
    let ghost total = eval_stmts_s(fuel as nat, ssv, old(env)@, ValueV::Nil);
    proof {
        lemma_view_stmts_index(stmts@);
        assert(ssv.subrange(0, ssv.len() as int) =~= ssv);
    }
    let mut result = Value::Nil;
    let mut i: usize = 0;
    while i < stmts.len()
        invariant
            i <= stmts@.len(),
            env.wf(),
            total == eval_stmts_s(
                fuel as nat,
                ssv.subrange(i as int, ssv.len() as int),
                env@,
                result@,
            ) || total == EvalResultV::Host,
        decreases stmts@.len() - i,
    {
        proof {
            lemma_size_stmts_element(ssv, i as int);
            assert(ssv.subrange(i as int, ssv.len() as int)[0] == ssv[i as int]);
            assert(ssv.subrange(i as int, ssv.len() as int).subrange(
                1,
                ssv.len() - i,
            ) =~= ssv.subrange(i + 1, ssv.len() as int));
        }
        let rs = eval_stmt_fuel(&stmts[i], env, fuel);
        match rs {
            Ok(v) => {
                result = v;
            },
            Err(e) => {
                return Err(e);
            },
        }
        i += 1;
    }
    proof {
        assert(ssv.subrange(i as int, ssv.len() as int) =~= Seq::<StmtV>::empty());
    }
    Ok(result)
}

/// Evaluates one statement against the environment.
fn eval_stmt_fuel(s: &Stmt, env: &mut Environment, fuel: u64) -> (r: Result<
    Value,
    InterpreterError,
>)
    requires
        old(env).wf(),
    ensures
        final(env).wf(),
        outcome_ok(eval_stmt_s(fuel as nat, s@, old(env)@), r, final(env)@),
    decreases fuel, size_stmt(s@), 0nat,
{
    match s {
        Stmt::Expr(e) => match eval_expr_fuel(e, env, fuel) {
            Ok(_) => Ok(Value::Nil),
            Err(er) => Err(er),
        },
        Stmt::Let { name, value } => match eval_expr_fuel(value, env, fuel) {
            Ok(v) => {
                env.define(name.clone(), v);
                Ok(Value::Nil)
            },
            Err(er) => Err(er),
        },
        Stmt::Function { name, params, body } => {
            env.define_function(name.clone(), clone_names(params), body.clone());
            Ok(Value::Nil)
        },
        Stmt::Result(e) => eval_expr_fuel(e, env, fuel),
        Stmt::Return(oe) => match oe {
            Some(e) => match eval_expr_fuel(e, env, fuel) {
                Ok(v) => Err(InterpreterError::Return(v)),
                Err(er) => Err(er),
            },
            None => Err(InterpreterError::Return(Value::Nil)),
        },
    }
}

/// Evaluates a while loop: the condition is re-checked before every
/// turn, the value of each turn's last statement is collected, and
/// the loop yields the array of those values, or nil after no turns.
#[verifier::rlimit(100)]
#[verifier::spinoff_prover]
fn eval_while_fuel(cond: &Expr, body: &Vec<Stmt>, env: &mut Environment, fuel: u64) -> (r: Result<
    Value,
    InterpreterError,
>)
    requires
        old(env).wf(),
    ensures
        final(env).wf(),
        outcome_ok(
            eval_while_s(fuel as nat, cond@, view_stmts(body@), old(env)@, Seq::empty()),
            r,
            final(env)@,
        ),
    decreases fuel, 1 + size_expr(cond@) + size_stmts(view_stmts(body@)), 0nat,
{
    let ghost cv = cond@;
    let ghost bv = view_stmts(body@);
    let ghost total = eval_while_s(fuel as nat, cv, bv, old(env)@, Seq::empty());
    let mut acc: Vec<Value> = Vec::new();
    let mut fuel_w = fuel;
    loop
        invariant
            env.wf(),
            fuel_w <= fuel,
            total == eval_while_s(fuel_w as nat, cv, bv, env@, view_values(acc@)) || total
                == EvalResultV::Host,
        decreases fuel_w,
    {
        if fuel_w == 0 {
            return Err(InterpreterError::RecursionLimit);
        }
        let rc = eval_expr_fuel(cond, env, fuel_w);
        match rc {
            Ok(Value::Boolean(true)) => {
                if body.len() == 0 {
                    return Err(
                        InterpreterError::InvalidOperation("while loop body is empty".to_owned()),
                    );
                }
                let rb = eval_stmts_fuel(body, env, fuel_w);
                match rb {
                    Ok(v) => {
                        proof {
                            lemma_view_values_push(acc@, v);
                        }
                        acc.push(v);
                        fuel_w = fuel_w - 1;
                    },
                    Err(e) => {
                        return Err(e);
                    },
                }
            },
            Ok(Value::Boolean(false)) => {
                if acc.len() == 0 {
                    return Ok(Value::Nil);
                } else {
                    return Ok(Value::Array(acc));
                }
            },
            Ok(_) => {
                return Err(
                    InterpreterError::TypeMismatch("While condition must be boolean".to_owned()),
                );
            },
            Err(e) => {
                return Err(e);
            },
        }
    }
}

/// Calls a function on evaluated arguments. A user function runs its
/// body in a fresh scope holding the built-ins, the caller's function
/// bindings and the parameters; a `return` from the body becomes the
/// call's value. The caller's environment is never changed.
#[verifier::rlimit(100)]
#[verifier::spinoff_prover]
fn call_function_fuel(f: &Function, args: Vec<Value>, env: &Environment, fuel: u64) -> (r: Result<
    Value,
    InterpreterError,
>)
    requires
        env.wf(),
    ensures
        match call_function_s(fuel as nat, f@, view_values(args@), env@) {
            CallResultV::Val(v) => r matches Ok(x) && x@ == v,
            CallResultV::Fail(er) => r matches Err(x) && x@ == er,
            CallResultV::Host => true,
        },
    decreases fuel, 0nat, 0nat,
{
    match f {
        Function::Builtin(b) => b.call(args),
        Function::User(u) => {
            proof {
                lemma_view_values_index(args@);
            }
            if u.params.len() != args.len() {
                return Err(
                    InterpreterError::InvalidOperation(
                        "wrong number of arguments in function call".to_owned(),
                    ),
                );
            }
            if fuel == 0 {
                return Err(InterpreterError::RecursionLimit);
            }
            let ghost pv = view_names(u.params@);
            let ghost av = view_values(args@);
            let mut cenv = env.function_scope();
            let ghost target = bind_params(call_base(env@), pv, av);
            proof {
                assert(pv.subrange(0, pv.len() as int) =~= pv);
                assert(av.subrange(0, av.len() as int) =~= av);
            }
            let mut i: usize = 0;
            while i < u.params.len()
                invariant
                    i <= u.params@.len(),
                    u.params@.len() == args@.len(),
                    cenv.wf(),
                    target == bind_params(
                        cenv@,
                        pv.subrange(i as int, pv.len() as int),
                        av.subrange(i as int, av.len() as int),
                    ),
                decreases u.params@.len() - i,
            {
                proof {
                    assert(pv.subrange(i as int, pv.len() as int)[0] == pv[i as int]);
                    assert(av.subrange(i as int, av.len() as int)[0] == av[i as int]);
                    assert(pv.subrange(i as int, pv.len() as int).subrange(
                        1,
                        pv.len() - i,
                    ) =~= pv.subrange(i + 1, pv.len() as int));
                    assert(av.subrange(i as int, av.len() as int).subrange(
                        1,
                        av.len() - i,
                    ) =~= av.subrange(i + 1, av.len() as int));
                }
                let p = u.params[i].clone();
                let a = args[i].clone();
                cenv.define(p, a);
                i += 1;
            }
            proof {
                assert(pv.subrange(i as int, pv.len() as int) =~= Seq::<Seq<char>>::empty());
                assert(target == cenv@);
            }
            let rb = eval_expr_fuel(&u.body, &mut cenv, fuel - 1);
            match rb {
                Ok(v) => Ok(v),
                Err(InterpreterError::Return(v)) => Ok(v),
                Err(e) => Err(e),
            }
        },
    }
}

/// Evaluates an expression against the environment, with a fuel bound
/// on the nesting of calls and loop turns.
#[verifier::rlimit(100)]
#[verifier::spinoff_prover]
fn eval_expr_fuel(e: &Expr, env: &mut Environment, fuel: u64) -> (r: Result<
    Value,
    InterpreterError,
>)
    requires
        old(env).wf(),
    ensures
        final(env).wf(),
        outcome_ok(eval_expr_s(fuel as nat, e@, old(env)@), r, final(env)@),
    decreases fuel, size_expr(e@), 1nat,
{
    match e {
        Expr::Number(n) => Ok(Value::Number(*n)),
        Expr::Boolean(b) => Ok(Value::Boolean(*b)),
        Expr::String(s) => Ok(Value::String(s.clone())),
        Expr::Variable(name) => match env.get(name.as_str()) {
            Some(v) => Ok(v),
            None => Err(InterpreterError::UndefinedVariable(name.clone())),
        },
        Expr::Array(items) => match eval_args_fuel(items, env, fuel) {
            Ok(vs) => Ok(Value::Array(vs)),
            Err(er) => Err(er),
        },
        Expr::Object(entries) => match eval_entries_fuel(entries, env, fuel) {
            Ok(ps) => Ok(Value::Object(ps)),
            Err(er) => Err(er),
        },
        Expr::If { condition, then_branch, else_branch } => eval_if_fuel(
            &**condition,
            &**then_branch,
            else_branch,
            env,
            fuel,
        ),
        Expr::BinaryOp { left, op, right } => eval_binop_fuel(&**left, op, &**right, env, fuel),
        Expr::FunctionCall { name, args } => eval_call_fuel(name, args, env, fuel),
        Expr::Block(stmts) => {
            let mut benv = env.clone();
            eval_stmts_fuel(stmts, &mut benv, fuel)
        },
        Expr::UnaryOp { op, expr } => match eval_expr_fuel(&**expr, env, fuel) {
            Ok(v) => apply_unop(op, v),
            Err(er) => Err(er),
        },
        Expr::While { condition, body } => eval_while_fuel(&**condition, body, env, fuel),
    }
}

/// Evaluates a conditional: the condition must come to a boolean,
/// which picks the branch; a missing else-branch yields nil.
#[verifier::rlimit(100)]
#[verifier::spinoff_prover]
fn eval_if_fuel(
    condition: &Expr,
    then_branch: &Expr,
    else_branch: &Option<Box<Expr>>,
    env: &mut Environment,
    fuel: u64,
) -> (r: Result<Value, InterpreterError>)
    requires
        old(env).wf(),
    ensures
        final(env).wf(),
        outcome_ok(
            eval_expr_s(
                fuel as nat,
                ExprV::If {
                    condition: Box::new(condition@),
                    then_branch: Box::new(then_branch@),
                    else_branch: match else_branch {
                        Some(b) => Some(Box::new((**b)@)),
                        None => None,
                    },
                },
                old(env)@,
            ),
            r,
            final(env)@,
        ),
    decreases fuel, 1 + size_expr(condition@) + size_expr(then_branch@) + (match else_branch {
        Some(b) => size_expr((**b)@),
        None => 0,
    }), 0nat,
{
    match eval_expr_fuel(condition, env, fuel) {
        Ok(Value::Boolean(true)) => eval_expr_fuel(then_branch, env, fuel),
        Ok(Value::Boolean(false)) => match else_branch {
            Some(b) => eval_expr_fuel(&**b, env, fuel),
            None => Ok(Value::Nil),
        },
        Ok(_) => Err(InterpreterError::TypeMismatch("If condition must be boolean".to_owned())),
        Err(er) => Err(er),
    }
}

/// Evaluates a binary operation. The assignment operator rebinds a
/// variable on its left to the value of its right side; every other
/// operator evaluates both sides, left first, and combines them.
#[verifier::rlimit(100)]
#[verifier::spinoff_prover]
fn eval_binop_fuel(
    left: &Expr,
    op: &TokenKind,
    right: &Expr,
    env: &mut Environment,
    fuel: u64,
) -> (r: Result<Value, InterpreterError>)
    requires
        old(env).wf(),
    ensures
        final(env).wf(),
        outcome_ok(
            eval_expr_s(
                fuel as nat,
                ExprV::BinaryOp { left: Box::new(left@), op: op@, right: Box::new(right@) },
                old(env)@,
            ),
            r,
            final(env)@,
        ),
    decreases fuel, 1 + size_expr(left@) + size_expr(right@), 0nat,
{
    let is_assign = op.kind_eq(&TokenKind::Assign);
    if is_assign {
        match left {
            Expr::Variable(name) => match eval_expr_fuel(right, env, fuel) {
                Ok(v) => {
                    let copy = v.clone();
                    env.define(name.clone(), copy);
                    Ok(v)
                },
                Err(er) => Err(er),
            },
            _ => Err(InterpreterError::InvalidOperation("Invalid assignment target".to_owned())),
        }
    } else {
        match eval_expr_fuel(left, env, fuel) {
            Ok(lv) => match eval_expr_fuel(right, env, fuel) {
                Ok(rv) => apply_binop(op, lv, rv),
                Err(er) => Err(er),
            },
            Err(er) => Err(er),
        }
    }
}

/// Evaluates a function call: the arguments eagerly, left to right,
/// in the caller's environment, then the callee looked up by name.
#[verifier::rlimit(100)]
#[verifier::spinoff_prover]
fn eval_call_fuel(name: &String, args: &Vec<Expr>, env: &mut Environment, fuel: u64) -> (r: Result<
    Value,
    InterpreterError,
>)
    requires
        old(env).wf(),
    ensures
        final(env).wf(),
        outcome_ok(
            eval_expr_s(
                fuel as nat,
                ExprV::FunctionCall { name: name@, args: view_exprs(args@) },
                old(env)@,
            ),
            r,
            final(env)@,
        ),
    decreases fuel, 1 + size_exprs(view_exprs(args@)), 0nat,
{
    match eval_args_fuel(args, env, fuel) {
        Ok(argv) => match env.get_function(name.as_str()) {
            Some(f) => call_function_fuel(&f, argv, env, fuel),
            None => Err(InterpreterError::UndefinedVariable(name.clone())),
        },
        Err(er) => Err(er),
    }
}

/// Evaluates a program in a fresh environment.
pub fn eval(ast: Vec<Stmt>) -> (r: Result<Value, InterpreterError>)
    ensures
        match eval_stmts_s(DEFAULT_FUEL as nat, view_stmts(ast@), initial_env(), ValueV::Nil) {
            EvalResultV::Val(v, _) => r matches Ok(x) && x@ == v,
            EvalResultV::Fail(ev, _) => r matches Err(x) && x@ == ev,
            EvalResultV::Host => true,
        },
{
    let mut env = Environment::new();
    eval_with_env(ast, &mut env)
}

/// Evaluates a program against a caller-supplied environment, which
/// keeps the bindings the program made.
pub fn eval_with_env(ast: Vec<Stmt>, env: &mut Environment) -> (r: Result<Value, InterpreterError>)
    requires
        old(env).wf(),
    ensures
        final(env).wf(),
        outcome_ok(
            eval_stmts_s(DEFAULT_FUEL as nat, view_stmts(ast@), old(env)@, ValueV::Nil),
            r,
            final(env)@,
        ),
{
    eval_stmts_fuel(&ast, env, DEFAULT_FUEL)
}

/// Evaluates a single expression against the environment.
pub fn eval_expr(expr: &Expr, env: &mut Environment) -> (r: Result<Value, InterpreterError>)
    requires
        old(env).wf(),
    ensures
        final(env).wf(),
        outcome_ok(eval_expr_s(DEFAULT_FUEL as nat, expr@, old(env)@), r, final(env)@),
{
    eval_expr_fuel(expr, env, DEFAULT_FUEL)
}

impl UserFunction {
    /// Calls this function on the given arguments in a fresh scope
    /// holding only the built-ins and the parameters.
    pub fn call(&self, args: Vec<Value>) -> (r: Result<Value, InterpreterError>)
        ensures
            match call_function_s(DEFAULT_FUEL as nat, self@, view_values(args@), initial_env()) {
                CallResultV::Val(v) => r matches Ok(x) && x@ == v,
                CallResultV::Fail(er) => r matches Err(x) && x@ == er,
                CallResultV::Host => true,
            },
    {
        let base = Environment::new();
        let f = Function::User(self.clone());
        call_function_fuel(&f, args, &base, DEFAULT_FUEL)
    }
}

impl Function {
    /// Calls this callable on the given arguments; a user function
    /// runs in a fresh scope holding only the built-ins and its
    /// parameters.
    pub fn call(&self, args: Vec<Value>) -> (r: Result<Value, InterpreterError>)
        ensures
            match call_function_s(DEFAULT_FUEL as nat, self@, view_values(args@), initial_env()) {
                CallResultV::Val(v) => r matches Ok(x) && x@ == v,
                CallResultV::Fail(er) => r matches Err(x) && x@ == er,
                CallResultV::Host => true,
            },
    {
        let base = Environment::new();
        call_function_fuel(self, args, &base, DEFAULT_FUEL)
    }
}

} // verus!
