use vstd::prelude::*;
use crate::lexer::token::{TokenKind, TokenKindV};
use crate::runtime::value::Number;

verus! {

/// Mathematical model of an expression. String payloads become
/// sequences of characters and numbers become unbounded integers.
pub enum ExprV {
    Number(int),
    Boolean(bool),
    Str(Seq<char>),
    Variable(Seq<char>),
    Array(Seq<ExprV>),
    Object(Seq<(Seq<char>, ExprV)>),
    If { condition: Box<ExprV>, then_branch: Box<ExprV>, else_branch: Option<Box<ExprV>> },
    Block(Seq<StmtV>),
    BinaryOp { left: Box<ExprV>, op: TokenKindV, right: Box<ExprV> },
    UnaryOp { op: TokenKindV, expr: Box<ExprV> },
    FunctionCall { name: Seq<char>, args: Seq<ExprV> },
    While { condition: Box<ExprV>, body: Seq<StmtV> },
}

/// Mathematical model of a statement.
pub enum StmtV {
    Expr(ExprV),
    Let { name: Seq<char>, value: ExprV },
    Function { name: Seq<char>, params: Seq<Seq<char>>, body: ExprV },
    Result(ExprV),
    Return(Option<ExprV>),
}

/// An expression of the language.
#[derive(Debug, PartialEq)]
pub enum Expr {
    Number(Number),
    Boolean(bool),
    String(String),
    Variable(String),
    Array(Vec<Expr>),
    Object(Vec<(String, Expr)>),
    If { condition: Box<Expr>, then_branch: Box<Expr>, else_branch: Option<Box<Expr>> },
    Block(Vec<Stmt>),
    BinaryOp { left: Box<Expr>, op: TokenKind, right: Box<Expr> },
    UnaryOp { op: TokenKind, expr: Box<Expr> },
    FunctionCall { name: String, args: Vec<Expr> },
    While { condition: Box<Expr>, body: Vec<Stmt> },
}

/// A statement of the language.
#[derive(Debug, PartialEq)]
pub enum Stmt {
    Expr(Expr),
    Let { name: String, value: Expr },
    Function { name: String, params: Vec<String>, body: Expr },
    Result(Expr),
    Return(Option<Expr>),
}

/// Model of a sequence of parameter names.
pub open spec fn view_names(s: Seq<String>) -> Seq<Seq<char>> {
    Seq::new(s.len(), |i: int| s[i]@)
}

/// Model of a sequence of expressions, element by element.
pub open spec fn view_exprs(s: Seq<Expr>) -> Seq<ExprV>
    decreases s,
{
    if s.len() == 0 {
        Seq::empty()
    } else {
        seq![view_expr(s[0])] + view_exprs(s.subrange(1, s.len() as int))
    }
}

/// Model of a sequence of object-literal entries, entry by entry.
pub open spec fn view_obj_entries(s: Seq<(String, Expr)>) -> Seq<(Seq<char>, ExprV)>
    decreases s,
{
    if s.len() == 0 {
        Seq::empty()
    } else {
        seq![(s[0].0@, view_expr(s[0].1))] + view_obj_entries(s.subrange(1, s.len() as int))
    }
}

/// Model of a sequence of statements, element by element.
pub open spec fn view_stmts(s: Seq<Stmt>) -> Seq<StmtV>
    decreases s,
{
    if s.len() == 0 {
        Seq::empty()
    } else {
        seq![view_stmt(s[0])] + view_stmts(s.subrange(1, s.len() as int))
    }
}

/// Model of a single expression.
pub open spec fn view_expr(e: Expr) -> ExprV
    decreases e,
{
    match e {
        Expr::Number(n) => ExprV::Number(n@),
        Expr::Boolean(b) => ExprV::Boolean(b),
        Expr::String(s) => ExprV::Str(s@),
        Expr::Variable(s) => ExprV::Variable(s@),
        Expr::Array(items) => ExprV::Array(view_exprs(items@)),
        Expr::Object(entries) => ExprV::Object(view_obj_entries(entries@)),
        Expr::If { condition, then_branch, else_branch } => ExprV::If {
            condition: Box::new(view_expr(*condition)),
            then_branch: Box::new(view_expr(*then_branch)),
            else_branch: match else_branch {
                Some(e2) => Some(Box::new(view_expr(*e2))),
                None => None,
            },
        },
        Expr::Block(stmts) => ExprV::Block(view_stmts(stmts@)),
        Expr::BinaryOp { left, op, right } => ExprV::BinaryOp {
            left: Box::new(view_expr(*left)),
            op: op@,
            right: Box::new(view_expr(*right)),
        },
        Expr::UnaryOp { op, expr } => ExprV::UnaryOp {
            op: op@,
            expr: Box::new(view_expr(*expr)),
        },
        Expr::FunctionCall { name, args } => ExprV::FunctionCall {
            name: name@,
            args: view_exprs(args@),
        },
        Expr::While { condition, body } => ExprV::While {
            condition: Box::new(view_expr(*condition)),
            body: view_stmts(body@),
        },
    }
}

/// Model of a single statement.
pub open spec fn view_stmt(s: Stmt) -> StmtV
    decreases s,
{
    match s {
        Stmt::Expr(e) => StmtV::Expr(view_expr(e)),
        Stmt::Let { name, value } => StmtV::Let { name: name@, value: view_expr(value) },
        Stmt::Function { name, params, body } => StmtV::Function {
            name: name@,
            params: view_names(params@),
            body: view_expr(body),
        },
        Stmt::Result(e) => StmtV::Result(view_expr(e)),
        Stmt::Return(oe) => StmtV::Return(
            match oe {
                Some(e) => Some(view_expr(e)),
                None => None,
            },
        ),
    }
}

impl View for Expr {
    type V = ExprV;

    open spec fn view(&self) -> ExprV {
        view_expr(*self)
    }
}

impl View for Stmt {
    type V = StmtV;

    open spec fn view(&self) -> StmtV {
        view_stmt(*self)
    }
}

/// The model of an expression sequence has the same length, with the
/// model of each element at the same place.
pub proof fn lemma_view_exprs_index(s: Seq<Expr>)
    ensures
        view_exprs(s).len() == s.len(),
        forall|i: int| 0 <= i < s.len() ==> #[trigger] view_exprs(s)[i] == view_expr(s[i]),
    decreases s,
{
    if s.len() > 0 {
        lemma_view_exprs_index(s.subrange(1, s.len() as int));
    }
}

/// The model of an object-entry sequence has the same length, with the
/// model of each entry at the same place.
pub proof fn lemma_view_obj_entries_index(s: Seq<(String, Expr)>)
    ensures
        view_obj_entries(s).len() == s.len(),
        forall|i: int| 0 <= i < s.len() ==> #[trigger] view_obj_entries(s)[i] == (
            s[i].0@,
            view_expr(s[i].1),
        ),
    decreases s,
{
    if s.len() > 0 {
        lemma_view_obj_entries_index(s.subrange(1, s.len() as int));
    }
}

/// The model of a statement sequence has the same length, with the
/// model of each element at the same place.
pub proof fn lemma_view_stmts_index(s: Seq<Stmt>)
    ensures
        view_stmts(s).len() == s.len(),
        forall|i: int| 0 <= i < s.len() ==> #[trigger] view_stmts(s)[i] == view_stmt(s[i]),
    decreases s,
{
    if s.len() > 0 {
        lemma_view_stmts_index(s.subrange(1, s.len() as int));
    }
}

/// Appending an expression appends its model.
pub proof fn lemma_view_exprs_push(s: Seq<Expr>, e: Expr)
    ensures
        view_exprs(s.push(e)) == view_exprs(s).push(view_expr(e)),
{
    lemma_view_exprs_index(s.push(e));
    lemma_view_exprs_index(s);
    assert(view_exprs(s.push(e)) =~= view_exprs(s).push(view_expr(e)));
}

/// Appending a statement appends its model.
pub proof fn lemma_view_stmts_push(s: Seq<Stmt>, st: Stmt)
    ensures
        view_stmts(s.push(st)) == view_stmts(s).push(view_stmt(st)),
{
    lemma_view_stmts_index(s.push(st));
    lemma_view_stmts_index(s);
    assert(view_stmts(s.push(st)) =~= view_stmts(s).push(view_stmt(st)));
}

/// Appending an object entry appends its model.
pub proof fn lemma_view_obj_entries_push(s: Seq<(String, Expr)>, e: (String, Expr))
    ensures
        view_obj_entries(s.push(e)) == view_obj_entries(s).push((e.0@, view_expr(e.1))),
{
    lemma_view_obj_entries_index(s.push(e));
    lemma_view_obj_entries_index(s);
    assert(view_obj_entries(s.push(e)) =~= view_obj_entries(s).push((e.0@, view_expr(e.1))));
}

/// Appending a name appends its model.
pub proof fn lemma_view_names_push(s: Seq<String>, n: String)
    ensures
        view_names(s.push(n)) == view_names(s).push(n@),
{
    assert(view_names(s.push(n)) =~= view_names(s).push(n@));
}

impl Clone for Expr {
    /// Cloning an expression preserves its model.
    #[verifier::loop_isolation(false)]
    fn clone(&self) -> (res: Self)
        ensures
            res@ == self@,
        decreases *self, 1int,
    {
        match self {
            Expr::Number(n) => Expr::Number(*n),
            Expr::Boolean(b) => Expr::Boolean(*b),
            Expr::String(s) => Expr::String(s.clone()),
            Expr::Variable(s) => Expr::Variable(s.clone()),
            Expr::Array(items) => {
                let mut out: Vec<Expr> = Vec::new();
                let mut i: usize = 0;
                while i < items.len()
                    invariant
                        i <= items.len(),
                        out@.len() == i,
                        forall|j: int| 0 <= j < i ==> #[trigger] view_expr(out@[j]) == view_expr(
                            items@[j],
                        ),
                    decreases items.len() - i,
                {
                    proof {
                        assert(decreases_to!(*self => self->Array_0));
                        assert(decreases_to!(self->Array_0 => self->Array_0@));
                        assert(decreases_to!(self->Array_0@ => self->Array_0@[i as int]));
                        assert(decreases_to!(*self => items@[i as int]));
                    }
                    let c = items[i].clone();
                    out.push(c);
                    i += 1;
                }
                proof {
                    lemma_view_exprs_index(out@);
                    lemma_view_exprs_index(items@);
                    assert(view_exprs(out@) =~= view_exprs(items@));
                }
                Expr::Array(out)
            },
            Expr::Object(entries) => {
                let mut out: Vec<(String, Expr)> = Vec::new();
                let mut i: usize = 0;
                while i < entries.len()
                    invariant
                        i <= entries.len(),
                        out@.len() == i,
                        forall|j: int| #![all_triggers] 0 <= j < i ==> out@[j].0@ == entries@[j].0@
                            && view_expr(out@[j].1) == view_expr(entries@[j].1),
                    decreases entries.len() - i,
                {
                    proof {
                        assert(decreases_to!(*self => self->Object_0));
                        assert(decreases_to!(self->Object_0 => self->Object_0@));
                        assert(decreases_to!(self->Object_0@ => self->Object_0@[i as int]));
                        assert(decreases_to!(self->Object_0@[i as int] => self->Object_0@[
                            i as int
                        ].1));
                        assert(decreases_to!(*self => entries@[i as int].1));
                    }
                    let k = entries[i].0.clone();
                    let v = entries[i].1.clone();
                    out.push((k, v));
                    i += 1;
                }
                proof {
                    lemma_view_obj_entries_index(out@);
                    lemma_view_obj_entries_index(entries@);
                    assert(view_obj_entries(out@) =~= view_obj_entries(entries@));
                }
                Expr::Object(out)
            },
            Expr::If { condition, then_branch, else_branch } => {
                let c = Box::new((**condition).clone());
                let t = Box::new((**then_branch).clone());
                let e = match else_branch {
                    Some(e2) => Some(Box::new((**e2).clone())),
                    None => None,
                };
                Expr::If { condition: c, then_branch: t, else_branch: e }
            },
            Expr::Block(stmts) => Expr::Block(clone_stmts(stmts, Ghost(*self))),
            Expr::BinaryOp { left, op, right } => Expr::BinaryOp {
                left: Box::new((**left).clone()),
                op: op.clone(),
                right: Box::new((**right).clone()),
            },
            Expr::UnaryOp { op, expr } => Expr::UnaryOp {
                op: op.clone(),
                expr: Box::new((**expr).clone()),
            },
            Expr::FunctionCall { name, args } => {
                let n = name.clone();
                let mut out: Vec<Expr> = Vec::new();
                let mut i: usize = 0;
                while i < args.len()
                    invariant
                        i <= args.len(),
                        out@.len() == i,
                        forall|j: int| 0 <= j < i ==> #[trigger] view_expr(out@[j]) == view_expr(
                            args@[j],
                        ),
                    decreases args.len() - i,
                {
                    proof {
                        assert(decreases_to!(*self => self->FunctionCall_args));
                        assert(decreases_to!(self->FunctionCall_args => self->FunctionCall_args@));
                        assert(decreases_to!(self->FunctionCall_args@ => self->FunctionCall_args@[
                            i as int
                        ]));
                        assert(decreases_to!(*self => args@[i as int]));
                    }
                    let c = args[i].clone();
                    out.push(c);
                    i += 1;
                }
                proof {
                    lemma_view_exprs_index(out@);
                    lemma_view_exprs_index(args@);
                    assert(view_exprs(out@) =~= view_exprs(args@));
                }
                Expr::FunctionCall { name: n, args: out }
            },
            Expr::While { condition, body } => {
                let c = Box::new((**condition).clone());
                let b = clone_stmts(body, Ghost(*self));
                Expr::While { condition: c, body: b }
            },
        }
    }
}

/// Clones a statement sequence that sits inside the expression `outer`,
/// preserving the model of every element.
#[verifier::loop_isolation(false)]
fn clone_stmts(stmts: &Vec<Stmt>, outer: Ghost<Expr>) -> (res: Vec<Stmt>)
    requires
        decreases_to!(outer@ => stmts@),
    ensures
        view_stmts(res@) == view_stmts(stmts@),
    decreases outer@, 0int,
{
    let mut out: Vec<Stmt> = Vec::new();
    let mut i: usize = 0;
    while i < stmts.len()
        invariant
            i <= stmts.len(),
            out@.len() == i,
            forall|j: int| 0 <= j < i ==> #[trigger] view_stmt(out@[j]) == view_stmt(stmts@[j]),
        decreases stmts.len() - i,
    {
        proof {
            assert(decreases_to!(stmts@ => stmts@[i as int]));
            assert(decreases_to!(outer@ => stmts@[i as int]));
        }
        let c = stmts[i].clone();
        out.push(c);
        i += 1;
    }
    proof {
        lemma_view_stmts_index(out@);
        lemma_view_stmts_index(stmts@);
        assert(view_stmts(out@) =~= view_stmts(stmts@));
    }
    out
}

/// Clones a sequence of names, preserving its model.
pub fn clone_names(names: &Vec<String>) -> (res: Vec<String>)
    ensures
        view_names(res@) == view_names(names@),
{
    let mut out: Vec<String> = Vec::new();
    let mut i: usize = 0;
    while i < names.len()
        invariant
            i <= names.len(),
            out@.len() == i,
            forall|j: int| 0 <= j < i ==> #[trigger] out@[j]@ == names@[j]@,
        decreases names.len() - i,
    {
        let c = names[i].clone();
        out.push(c);
        i += 1;
    }
    proof {
        assert(view_names(out@) =~= view_names(names@));
    }
    out
}

impl Clone for Stmt {
    /// Cloning a statement preserves its model.
    fn clone(&self) -> (res: Self)
        ensures
            res@ == self@,
        decreases *self, 1int,
    {
        match self {
            Stmt::Expr(e) => Stmt::Expr(e.clone()),
            Stmt::Let { name, value } => Stmt::Let { name: name.clone(), value: value.clone() },
            Stmt::Function { name, params, body } => Stmt::Function {
                name: name.clone(),
                params: clone_names(params),
                body: body.clone(),
            },
            Stmt::Result(e) => Stmt::Result(e.clone()),
            Stmt::Return(oe) => Stmt::Return(
                match oe {
                    Some(e) => Some(e.clone()),
                    None => None,
                },
            ),
        }
    }
}

} // verus!
