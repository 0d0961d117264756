use vstd::prelude::*;

pub mod ast;
pub mod error;
pub mod grammar;

pub use ast::Expr;
pub use ast::Stmt;

use crate::lexer::scan::tokens_wf;
use crate::lexer::token::{Token, TokenKind, TokenKindV, TokenV};
use crate::lexer::{lemma_view_tokens_push, view_tokens};
use crate::parser::ast::{lemma_view_exprs_push, lemma_view_names_push,
    lemma_view_obj_entries_push, lemma_view_stmts_push, view_exprs, view_names, view_obj_entries,
    view_stmts};
use crate::parser::error::{ParserError, ParserErrorKind, ParserErrorKindV};
use crate::parser::grammar::{args_loop_s, assignment_s, at_end_s, block_stmts_s, check_s,
    comparison_s, consume_ident_s, cur_tok, del_cont_s, del_empty_lines_s, del_empty_stmts_s,
    equality_s, expression_s, factor_s, filter_comments_s, finish_stmt_s, function_statement_s,
    if_expression_s, let_statement_s, level_loop_s, level_s, object_ahead_s, object_entries_s,
    params_loop_s, parse_program_s, parse_spec, primary_bracket_s, primary_brace_s, primary_ident_s,
    primary_paren_s, primary_s, statement_s, term_s, unary_s,
    while_expression_s, ParseStepV};

verus! {

/// A recursive-descent parser over a token stream terminated by the
/// end marker.
pub struct Parser {
    tokens: Vec<Token>,
    current: usize,
}

impl Parser {
    /// The models of the tokens being parsed.
    pub closed spec fn toks(&self) -> Seq<TokenV> {
        view_tokens(self.tokens@)
    }

    /// The index of the token under the cursor.
    pub closed spec fn cur_i(&self) -> int {
        self.current as int
    }

    /// The cursor sits inside a well-formed token stream.
    pub open spec fn wf(&self) -> bool {
        0 <= self.cur_i() < self.toks().len() && tokens_wf(self.toks())
    }

    /// A parser over the given tokens, standing at the first.
    pub fn new(tokens: Vec<Token>) -> (r: Self)
        ensures
            r.toks() == view_tokens(tokens@),
            r.cur_i() == 0,
    {
        Self { tokens, current: 0 }
    }

    /// The token under the cursor.
    fn current(&self) -> (r: &Token)
        requires
            self.wf(),
        ensures
            r@ == cur_tok(self.toks(), self.cur_i()),
    {
        &self.tokens[self.current]
    }

    /// Does the cursor stand at the end marker?
    fn is_at_end(&self) -> (b: bool)
        requires
            self.wf(),
        ensures
            b == at_end_s(self.toks(), self.cur_i()),
    {
        match &self.tokens[self.current].kind {
            TokenKind::Eof => true,
            _ => false,
        }
    }

    /// Does the token under the cursor have exactly kind `kind`?
    fn check(&self, kind: &TokenKind) -> (b: bool)
        requires
            self.wf(),
        ensures
            b == check_s(self.toks(), self.cur_i(), kind@),
    {
        if self.is_at_end() {
            false
        } else {
            self.current().kind.kind_eq(kind)
        }
    }

    /// Steps past the token under the cursor, unless it is the end
    /// marker.
    fn advance(&mut self)
        requires
            old(self).wf(),
        ensures
            final(self).wf(),
            final(self).toks() == old(self).toks(),
            final(self).cur_i() == (if at_end_s(old(self).toks(), old(self).cur_i()) {
                old(self).cur_i()
            } else {
                old(self).cur_i() + 1
            }),
    {
        let n = self.tokens.len();
        if !self.is_at_end() {
            proof {
                if self.cur_i() == n - 1 {
                    assert(at_end_s(self.toks(), self.cur_i()));
                }
            }
            self.current += 1;
        }
    }

    /// Steps past the token under the cursor when it has kind `kind`.
    fn match_token(&mut self, kind: &TokenKind) -> (b: bool)
        requires
            old(self).wf(),
        ensures
            final(self).wf(),
            final(self).toks() == old(self).toks(),
            b == check_s(old(self).toks(), old(self).cur_i(), kind@),
            final(self).cur_i() == (if check_s(old(self).toks(), old(self).cur_i(), kind@) {
                old(self).cur_i() + 1
            } else {
                old(self).cur_i()
            }),
    {
        if self.check(kind) {
            self.advance();
            true
        } else {
            false
        }
    }

    /// Demands a token of kind `kind` and steps past it; anything
    /// else is an unexpected token.
    fn consume(&mut self, kind: &TokenKind, message: &'static str) -> (r: Result<(), ParserError>)
        requires
            old(self).wf(),
        ensures
            final(self).wf(),
            final(self).toks() == old(self).toks(),
            if check_s(old(self).toks(), old(self).cur_i(), kind@) {
                (r matches Ok(_)) && final(self).cur_i() == old(self).cur_i() + 1
            } else {
                (r matches Err(e) && e@ == ParserErrorKindV::UnexpectedToken(
                    cur_tok(old(self).toks(), old(self).cur_i()),
                )) && final(self).cur_i() == old(self).cur_i()
            },
    {
        if self.check(kind) {
            self.advance();
            Ok(())
        } else {
            let token = self.current().clone();
            Err(ParserError::new(ParserErrorKind::UnexpectedToken(token), message))
        }
    }

    /// Demands an identifier and yields its name.
    #[verifier::rlimit(100)]
    #[verifier::spinoff_prover]
    fn consume_identifier(&mut self) -> (r: Result<String, ParserError>)
        requires
            old(self).wf(),
        ensures
            final(self).wf(),
            final(self).toks() == old(self).toks(),
            match consume_ident_s(old(self).toks(), old(self).cur_i()) {
                ParseStepV::Done(name, i2) => (r matches Ok(s) && s@ == name) && final(self).cur_i() == i2,
                ParseStepV::Fail(k) => r matches Err(e) && e@ == k,
                ParseStepV::OutOfFuel => r matches Err(e) && e@ == ParserErrorKindV::InvalidSyntax,
            },
    {
        if self.is_at_end() {
            let token = self.current().clone();
            return Err(ParserError::new(ParserErrorKind::UnexpectedToken(token), "Expect identifier"));
        }
        let name = match &self.current().kind {
            TokenKind::Identifier(s) => Some(s.clone()),
            _ => None,
        };
        self.advance();
        match name {
            Some(s) => Ok(s),
            None => {
                let token = self.current().clone();
                Err(ParserError::new(ParserErrorKind::UnexpectedToken(token), "Expect identifier"))
            },
        }
    }

    /// Steps past the run of tokens of kind `kind`.
    fn delete_continuous_tokens(&mut self, kind: &TokenKind)
        requires
            old(self).wf(),
        ensures
            final(self).wf(),
            final(self).toks() == old(self).toks(),
            final(self).cur_i() == del_cont_s(old(self).toks(), old(self).cur_i(), kind@),
    {
        let ghost target = del_cont_s(self.toks(), self.cur_i(), kind@);
        while self.check(kind)
            invariant
                self.wf(),
                self.toks() == old(self).toks(),
                target == del_cont_s(self.toks(), self.cur_i(), kind@),
            decreases self.toks().len() - self.cur_i(),
        {
            self.advance();
        }
    }

    /// Steps past any run of newlines.
    fn delete_empty_lines(&mut self)
        requires
            old(self).wf(),
        ensures
            final(self).wf(),
            final(self).toks() == old(self).toks(),
            final(self).cur_i() == del_empty_lines_s(old(self).toks(), old(self).cur_i()),
    {
        self.delete_continuous_tokens(&TokenKind::Newline);
    }

    /// Steps past any run of semicolons, then newlines.
    fn delete_empty_statements(&mut self)
        requires
            old(self).wf(),
        ensures
            final(self).wf(),
            final(self).toks() == old(self).toks(),
            final(self).cur_i() == del_empty_stmts_s(old(self).toks(), old(self).cur_i()),
    {
        self.delete_continuous_tokens(&TokenKind::Semicolon);
        self.delete_continuous_tokens(&TokenKind::Newline);
    }

    /// Does the brace under the cursor open an object literal?
    fn object_ahead(&self) -> (b: bool)
        requires
            self.wf(),
        ensures
            b == object_ahead_s(self.toks(), self.cur_i()),
    {
        let n = self.tokens.len();
        if self.current + 1 < n {
            let k1_is_str = match &self.tokens[self.current + 1].kind {
                TokenKind::String(_) => true,
                _ => false,
            };
            if k1_is_str && self.current + 2 < n {
                match &self.tokens[self.current + 2].kind {
                    TokenKind::Colon => true,
                    _ => false,
                }
            } else {
                false
            }
        } else {
            false
        }
    }

    /// One statement, as `statement_s` says.
    #[verifier::rlimit(100)]
    #[verifier::spinoff_prover]
    fn statement(&mut self, fuel: u64) -> (r: Result<Stmt, ParserError>)
        requires
            old(self).wf(),
        ensures
            final(self).wf(),
            final(self).toks() == old(self).toks(),
            match statement_s(fuel as nat, old(self).toks(), old(self).cur_i()) {
                ParseStepV::Done(sv, i2) => (r matches Ok(st) && st@ == sv) && final(self).cur_i()
                    == i2,
                ParseStepV::Fail(k) => r matches Err(e) && e@ == k,
                ParseStepV::OutOfFuel => r matches Err(e) && e@ == ParserErrorKindV::InvalidSyntax,
            },
        decreases fuel, 9int,
    {
        proof {
            reveal(statement_s);
        }
        if fuel == 0 {
            return Err(ParserError::new(ParserErrorKind::InvalidSyntax, "program nests too deeply"));
        }
        self.delete_empty_statements();
        let st: Stmt;
        if self.match_token(&TokenKind::Let) {
            st = self.let_statement(fuel - 1)?;
        } else if self.match_token(&TokenKind::Fn) {
            st = self.function_statement(fuel - 1)?;
        } else if self.match_token(&TokenKind::Return) {
            if !self.check(&TokenKind::Semicolon) && !self.check(&TokenKind::Newline) {
                let e = self.expression(fuel - 1)?;
                st = Stmt::Return(Some(e));
            } else {
                st = Stmt::Return(None);
            }
        } else {
            let e = self.expression(fuel - 1)?;
            if self.check(&TokenKind::Semicolon) {
                st = Stmt::Expr(e);
            } else if self.check(&TokenKind::Newline) {
                self.delete_empty_lines();
                if !self.check(&TokenKind::RightBrace) && !self.is_at_end() {
                    st = Stmt::Expr(e);
                } else {
                    st = Stmt::Result(e);
                }
            } else if self.is_at_end() {
                st = Stmt::Result(e);
            } else if self.check(&TokenKind::RightBrace) {
                st = Stmt::Result(e);
            } else {
                let token = self.current().clone();
                return Err(
                    ParserError::new(
                        ParserErrorKind::UnexpectedToken(token),
                        "Unexpected token. Expected a statement.",
                    ),
                );
            }
        }
        self.finish_statement(st)
    }

    /// Closes a statement, as `finish_stmt_s` says.
    #[verifier::rlimit(100)]
    #[verifier::spinoff_prover]
    fn finish_statement(&mut self, st: Stmt) -> (r: Result<Stmt, ParserError>)
        requires
            old(self).wf(),
        ensures
            final(self).wf(),
            final(self).toks() == old(self).toks(),
            match finish_stmt_s(old(self).toks(), old(self).cur_i(), st@) {
                ParseStepV::Done(sv, i2) => (r matches Ok(s2) && s2@ == sv) && final(self).cur_i()
                    == i2,
                ParseStepV::Fail(k) => r matches Err(e) && e@ == k,
                ParseStepV::OutOfFuel => r matches Err(e) && e@ == ParserErrorKindV::InvalidSyntax,
            },
    {
        let consumed = if self.match_token(&TokenKind::Semicolon) {
            true
        } else {
            self.match_token(&TokenKind::Newline)
        };
        if !consumed {
            let at_eof = self.is_at_end();
            let at_brace = self.check(&TokenKind::RightBrace);
            let carries_value = matches!(st, Stmt::Expr(_) | Stmt::Result(_));
            if !at_eof && !at_brace && !carries_value {
                let token = self.current().clone();
                return Err(
                    ParserError::new(
                        ParserErrorKind::UnexpectedToken(token),
                        "Unexpected token after statement",
                    ),
                );
            }
        }
        self.delete_empty_statements();
        Ok(st)
    }

    /// A `let` binding, as `let_statement_s` says.
    #[verifier::rlimit(100)]
    #[verifier::spinoff_prover]
    fn let_statement(&mut self, fuel: u64) -> (r: Result<Stmt, ParserError>)
        requires
            old(self).wf(),
        ensures
            final(self).wf(),
            final(self).toks() == old(self).toks(),
            match let_statement_s(fuel as nat, old(self).toks(), old(self).cur_i()) {
                ParseStepV::Done(sv, i2) => (r matches Ok(st) && st@ == sv) && final(self).cur_i()
                    == i2,
                ParseStepV::Fail(k) => r matches Err(e) && e@ == k,
                ParseStepV::OutOfFuel => r matches Err(e) && e@ == ParserErrorKindV::InvalidSyntax,
            },
        decreases fuel, 8int,
    {
        proof {
            reveal(let_statement_s);
        }
        if fuel == 0 {
            return Err(ParserError::new(ParserErrorKind::InvalidSyntax, "program nests too deeply"));
        }
        let name = self.consume_identifier()?;
        self.consume(&TokenKind::Assign, "Expect '=' after variable name")?;
        let value = self.expression(fuel - 1)?;
        Ok(Stmt::Let { name, value })
    }

    /// Comma-separated parameter names, as `params_loop_s` says.
    #[verifier::rlimit(100)]
    #[verifier::spinoff_prover]
    fn parse_params(&mut self, fuel: u64) -> (r: Result<Vec<String>, ParserError>)
        requires
            old(self).wf(),
        ensures
            final(self).wf(),
            final(self).toks() == old(self).toks(),
            match params_loop_s(fuel as nat, old(self).toks(), old(self).cur_i(), Seq::empty()) {
                ParseStepV::Done(ps, i2) => (r matches Ok(v) && view_names(v@) == ps) && final(self).cur_i() == i2,
                ParseStepV::Fail(k) => r matches Err(e) && e@ == k,
                ParseStepV::OutOfFuel => r matches Err(e) && e@ == ParserErrorKindV::InvalidSyntax,
            },
        decreases fuel, 8int,
    {
        proof {
            reveal(params_loop_s);
        }
        let ghost total = params_loop_s(fuel as nat, self.toks(), self.cur_i(), Seq::empty());
        let mut params: Vec<String> = Vec::new();
        let mut fuel_w = fuel;
        proof {
            assert(view_names(Seq::<String>::empty()) =~= Seq::<Seq<char>>::empty());
        }
        loop
            invariant
                self.wf(),
                self.toks() == old(self).toks(),
                fuel_w <= fuel,
                total == params_loop_s(fuel_w as nat, self.toks(), self.cur_i(), view_names(params@)),
            decreases fuel_w,
        {
            proof {
                reveal(params_loop_s);
            }
            if fuel_w == 0 {
                return Err(
                    ParserError::new(ParserErrorKind::InvalidSyntax, "program nests too deeply"),
                );
            }
            let name = self.consume_identifier()?;
            proof {
                lemma_view_names_push(params@, name);
            }
            params.push(name);
            if !self.match_token(&TokenKind::Comma) {
                return Ok(params);
            }
            fuel_w = fuel_w - 1;
        }
    }

    /// A function declaration, as `function_statement_s` says.
    #[verifier::rlimit(100)]
    #[verifier::spinoff_prover]
    fn function_statement(&mut self, fuel: u64) -> (r: Result<Stmt, ParserError>)
        requires
            old(self).wf(),
        ensures
            final(self).wf(),
            final(self).toks() == old(self).toks(),
            match function_statement_s(fuel as nat, old(self).toks(), old(self).cur_i()) {
                ParseStepV::Done(sv, i2) => (r matches Ok(st) && st@ == sv) && final(self).cur_i()
                    == i2,
                ParseStepV::Fail(k) => r matches Err(e) && e@ == k,
                ParseStepV::OutOfFuel => r matches Err(e) && e@ == ParserErrorKindV::InvalidSyntax,
            },
        decreases fuel, 8int,
    {
        proof {
            reveal(function_statement_s);
        }
        if fuel == 0 {
            return Err(ParserError::new(ParserErrorKind::InvalidSyntax, "program nests too deeply"));
        }
        let name = self.consume_identifier()?;
        self.consume(&TokenKind::LeftParen, "Expect '(' after function name")?;
        let params: Vec<String>;
        if self.match_token(&TokenKind::RightParen) {
            params = Vec::new();
            proof {
                assert(view_names(params@) =~= Seq::<Seq<char>>::empty());
            }
        } else {
            params = self.parse_params(fuel - 1)?;
            self.consume(&TokenKind::RightParen, "Expect ')' after parameters")?;
        }
        let body = self.expression(fuel - 1)?;
        Ok(Stmt::Function { name, params, body })
    }

    /// A loop expression, as `while_expression_s` says.
    #[verifier::rlimit(100)]
    #[verifier::spinoff_prover]
    fn while_expression(&mut self, fuel: u64) -> (r: Result<Expr, ParserError>)
        requires
            old(self).wf(),
        ensures
            final(self).wf(),
            final(self).toks() == old(self).toks(),
            match while_expression_s(fuel as nat, old(self).toks(), old(self).cur_i()) {
                ParseStepV::Done(ev, i2) => (r matches Ok(e) && e@ == ev) && final(self).cur_i()
                    == i2,
                ParseStepV::Fail(k) => r matches Err(e) && e@ == k,
                ParseStepV::OutOfFuel => r matches Err(e) && e@ == ParserErrorKindV::InvalidSyntax,
            },
        decreases fuel, 8int,
    {
        proof {
            reveal(while_expression_s);
        }
        if fuel == 0 {
            return Err(ParserError::new(ParserErrorKind::InvalidSyntax, "program nests too deeply"));
        }
        let condition = self.expression(fuel - 1)?;
        self.consume(&TokenKind::LeftBrace, "Expect '{' after while condition")?;
        let body = self.parse_block_stmts(fuel - 1)?;
        self.consume(&TokenKind::RightBrace, "Expect '}' after while body")?;
        Ok(Expr::While { condition: Box::new(condition), body })
    }

    /// A conditional expression, as `if_expression_s` says.
    #[verifier::rlimit(100)]
    #[verifier::spinoff_prover]
    fn if_expression(&mut self, fuel: u64) -> (r: Result<Expr, ParserError>)
        requires
            old(self).wf(),
        ensures
            final(self).wf(),
            final(self).toks() == old(self).toks(),
            match if_expression_s(fuel as nat, old(self).toks(), old(self).cur_i()) {
                ParseStepV::Done(ev, i2) => (r matches Ok(e) && e@ == ev) && final(self).cur_i()
                    == i2,
                ParseStepV::Fail(k) => r matches Err(e) && e@ == k,
                ParseStepV::OutOfFuel => r matches Err(e) && e@ == ParserErrorKindV::InvalidSyntax,
            },
        decreases fuel, 8int,
    {
        proof {
            reveal(if_expression_s);
        }
        if fuel == 0 {
            return Err(ParserError::new(ParserErrorKind::InvalidSyntax, "program nests too deeply"));
        }
        let condition = Box::new(self.expression(fuel - 1)?);
        let then_branch = Box::new(self.expression(fuel - 1)?);
        let else_branch = if self.match_token(&TokenKind::Else) {
            Some(Box::new(self.expression(fuel - 1)?))
        } else {
            None
        };
        Ok(Expr::If { condition, then_branch, else_branch })
    }

    /// An expression, as `expression_s` says.
    #[verifier::rlimit(100)]
    #[verifier::spinoff_prover]
    fn expression(&mut self, fuel: u64) -> (r: Result<Expr, ParserError>)
        requires
            old(self).wf(),
        ensures
            final(self).wf(),
            final(self).toks() == old(self).toks(),
            match expression_s(fuel as nat, old(self).toks(), old(self).cur_i()) {
                ParseStepV::Done(ev, i2) => (r matches Ok(e) && e@ == ev) && final(self).cur_i()
                    == i2,
                ParseStepV::Fail(k) => r matches Err(e) && e@ == k,
                ParseStepV::OutOfFuel => r matches Err(e) && e@ == ParserErrorKindV::InvalidSyntax,
            },
        decreases fuel, 9int,
    {
        proof {
            reveal(expression_s);
        }
        if fuel == 0 {
            return Err(ParserError::new(ParserErrorKind::InvalidSyntax, "program nests too deeply"));
        }
        if self.match_token(&TokenKind::If) {
            self.if_expression(fuel - 1)
        } else if self.match_token(&TokenKind::While) {
            self.while_expression(fuel - 1)
        } else {
            self.assignment(fuel - 1)
        }
    }

    /// An assignment chain, as `assignment_s` says.
    #[verifier::rlimit(100)]
    #[verifier::spinoff_prover]
    fn assignment(&mut self, fuel: u64) -> (r: Result<Expr, ParserError>)
        requires
            old(self).wf(),
        ensures
            final(self).wf(),
            final(self).toks() == old(self).toks(),
            match assignment_s(fuel as nat, old(self).toks(), old(self).cur_i()) {
                ParseStepV::Done(ev, i2) => (r matches Ok(e) && e@ == ev) && final(self).cur_i()
                    == i2,
                ParseStepV::Fail(k) => r matches Err(e) && e@ == k,
                ParseStepV::OutOfFuel => r matches Err(e) && e@ == ParserErrorKindV::InvalidSyntax,
            },
        decreases fuel, 8int,
    {
        proof {
            reveal(assignment_s);
        }
        if fuel == 0 {
            return Err(ParserError::new(ParserErrorKind::InvalidSyntax, "program nests too deeply"));
        }
        let e = self.equality(fuel - 1)?;
        if self.match_token(&TokenKind::Assign) {
            let value = self.assignment(fuel - 1)?;
            match e {
                Expr::Variable(name) => Ok(
                    Expr::BinaryOp {
                        left: Box::new(Expr::Variable(name)),
                        op: TokenKind::Assign,
                        right: Box::new(value),
                    },
                ),
                _ => Err(
                    ParserError::new(ParserErrorKind::InvalidSyntax, "Invalid assignment target"),
                ),
            }
        } else {
            Ok(e)
        }
    }

    /// Equality operators over comparisons.
    #[verifier::rlimit(100)]
    #[verifier::spinoff_prover]
    fn equality(&mut self, fuel: u64) -> (r: Result<Expr, ParserError>)
        requires
            old(self).wf(),
        ensures
            final(self).wf(),
            final(self).toks() == old(self).toks(),
            match equality_s(fuel as nat, old(self).toks(), old(self).cur_i()) {
                ParseStepV::Done(ev, i2) => (r matches Ok(e) && e@ == ev) && final(self).cur_i()
                    == i2,
                ParseStepV::Fail(k) => r matches Err(e) && e@ == k,
                ParseStepV::OutOfFuel => r matches Err(e) && e@ == ParserErrorKindV::InvalidSyntax,
            },
        decreases fuel, 7int,
    {
        proof {
            reveal(equality_s);
            reveal(level_s);
            reveal(level_loop_s);
        }
        if fuel == 0 {
            return Err(ParserError::new(ParserErrorKind::InvalidSyntax, "program nests too deeply"));
        }
        let mut e = self.comparison(fuel - 1)?;
        let mut fuel_w = fuel - 1;
        let ghost total = level_loop_s(0, fuel_w as nat, self.toks(), self.cur_i(), e@);
        loop
            invariant
                self.wf(),
                self.toks() == old(self).toks(),
                fuel_w <= fuel - 1,
                total == level_loop_s(0, fuel_w as nat, self.toks(), self.cur_i(), e@),
            decreases fuel_w,
        {
            proof {
                reveal(level_loop_s);
            }
            if fuel_w == 0 {
                return Err(
                    ParserError::new(ParserErrorKind::InvalidSyntax, "program nests too deeply"),
                );
            }
            let op: TokenKind;
            if self.match_token(&TokenKind::Equal) {
                op = TokenKind::Equal;
            } else if self.match_token(&TokenKind::NotEqual) {
                op = TokenKind::NotEqual;
            } else {
                return Ok(e);
            }
            let right = self.comparison(fuel_w - 1)?;
            e = Expr::BinaryOp { left: Box::new(e), op, right: Box::new(right) };
            fuel_w = fuel_w - 1;
        }
    }

    /// Comparison operators over additive expressions.
    #[verifier::rlimit(100)]
    #[verifier::spinoff_prover]
    fn comparison(&mut self, fuel: u64) -> (r: Result<Expr, ParserError>)
        requires
            old(self).wf(),
        ensures
            final(self).wf(),
            final(self).toks() == old(self).toks(),
            match comparison_s(fuel as nat, old(self).toks(), old(self).cur_i()) {
                ParseStepV::Done(ev, i2) => (r matches Ok(e) && e@ == ev) && final(self).cur_i()
                    == i2,
                ParseStepV::Fail(k) => r matches Err(e) && e@ == k,
                ParseStepV::OutOfFuel => r matches Err(e) && e@ == ParserErrorKindV::InvalidSyntax,
            },
        decreases fuel, 6int,
    {
        proof {
            reveal(comparison_s);
            reveal(level_s);
            reveal(level_loop_s);
        }
        if fuel == 0 {
            return Err(ParserError::new(ParserErrorKind::InvalidSyntax, "program nests too deeply"));
        }
        let mut e = self.term(fuel - 1)?;
        let mut fuel_w = fuel - 1;
        let ghost total = level_loop_s(1, fuel_w as nat, self.toks(), self.cur_i(), e@);
        loop
            invariant
                self.wf(),
                self.toks() == old(self).toks(),
                fuel_w <= fuel - 1,
                total == level_loop_s(1, fuel_w as nat, self.toks(), self.cur_i(), e@),
            decreases fuel_w,
        {
            proof {
                reveal(level_loop_s);
            }
            if fuel_w == 0 {
                return Err(
                    ParserError::new(ParserErrorKind::InvalidSyntax, "program nests too deeply"),
                );
            }
            let op: TokenKind;
            if self.match_token(&TokenKind::GreaterThan) {
                op = TokenKind::GreaterThan;
            } else if self.match_token(&TokenKind::GreaterThanOrEqual) {
                op = TokenKind::GreaterThanOrEqual;
            } else if self.match_token(&TokenKind::LessThan) {
                op = TokenKind::LessThan;
            } else if self.match_token(&TokenKind::LessThanOrEqual) {
                op = TokenKind::LessThanOrEqual;
            } else {
                return Ok(e);
            }
            let right = self.term(fuel_w - 1)?;
            e = Expr::BinaryOp { left: Box::new(e), op, right: Box::new(right) };
            fuel_w = fuel_w - 1;
        }
    }

    /// Additive operators over multiplicative expressions.
    #[verifier::rlimit(100)]
    #[verifier::spinoff_prover]
    fn term(&mut self, fuel: u64) -> (r: Result<Expr, ParserError>)
        requires
            old(self).wf(),
        ensures
            final(self).wf(),
            final(self).toks() == old(self).toks(),
            match term_s(fuel as nat, old(self).toks(), old(self).cur_i()) {
                ParseStepV::Done(ev, i2) => (r matches Ok(e) && e@ == ev) && final(self).cur_i()
                    == i2,
                ParseStepV::Fail(k) => r matches Err(e) && e@ == k,
                ParseStepV::OutOfFuel => r matches Err(e) && e@ == ParserErrorKindV::InvalidSyntax,
            },
        decreases fuel, 5int,
    {
        proof {
            reveal(term_s);
            reveal(level_s);
            reveal(level_loop_s);
        }
        if fuel == 0 {
            return Err(ParserError::new(ParserErrorKind::InvalidSyntax, "program nests too deeply"));
        }
        let mut e = self.factor(fuel - 1)?;
        let mut fuel_w = fuel - 1;
        let ghost total = level_loop_s(2, fuel_w as nat, self.toks(), self.cur_i(), e@);
        loop
            invariant
                self.wf(),
                self.toks() == old(self).toks(),
                fuel_w <= fuel - 1,
                total == level_loop_s(2, fuel_w as nat, self.toks(), self.cur_i(), e@),
            decreases fuel_w,
        {
            proof {
                reveal(level_loop_s);
            }
            if fuel_w == 0 {
                return Err(
                    ParserError::new(ParserErrorKind::InvalidSyntax, "program nests too deeply"),
                );
            }
            let op: TokenKind;
            if self.match_token(&TokenKind::Plus) {
                op = TokenKind::Plus;
            } else if self.match_token(&TokenKind::Minus) {
                op = TokenKind::Minus;
            } else {
                return Ok(e);
            }
            let right = self.factor(fuel_w - 1)?;
            e = Expr::BinaryOp { left: Box::new(e), op, right: Box::new(right) };
            fuel_w = fuel_w - 1;
        }
    }

    /// Multiplicative operators over unary expressions.
    #[verifier::rlimit(100)]
    #[verifier::spinoff_prover]
    fn factor(&mut self, fuel: u64) -> (r: Result<Expr, ParserError>)
        requires
            old(self).wf(),
        ensures
            final(self).wf(),
            final(self).toks() == old(self).toks(),
            match factor_s(fuel as nat, old(self).toks(), old(self).cur_i()) {
                ParseStepV::Done(ev, i2) => (r matches Ok(e) && e@ == ev) && final(self).cur_i()
                    == i2,
                ParseStepV::Fail(k) => r matches Err(e) && e@ == k,
                ParseStepV::OutOfFuel => r matches Err(e) && e@ == ParserErrorKindV::InvalidSyntax,
            },
        decreases fuel, 4int,
    {
        proof {
            reveal(factor_s);
            reveal(level_s);
            reveal(level_loop_s);
        }
        if fuel == 0 {
            return Err(ParserError::new(ParserErrorKind::InvalidSyntax, "program nests too deeply"));
        }
        let mut e = self.unary(fuel - 1)?;
        let mut fuel_w = fuel - 1;
        let ghost total = level_loop_s(3, fuel_w as nat, self.toks(), self.cur_i(), e@);
        loop
            invariant
                self.wf(),
                self.toks() == old(self).toks(),
                fuel_w <= fuel - 1,
                total == level_loop_s(3, fuel_w as nat, self.toks(), self.cur_i(), e@),
            decreases fuel_w,
        {
            proof {
                reveal(level_loop_s);
            }
            if fuel_w == 0 {
                return Err(
                    ParserError::new(ParserErrorKind::InvalidSyntax, "program nests too deeply"),
                );
            }
            let op: TokenKind;
            if self.match_token(&TokenKind::Multiply) {
                op = TokenKind::Multiply;
            } else if self.match_token(&TokenKind::Divide) {
                op = TokenKind::Divide;
            } else {
                return Ok(e);
            }
            let right = self.unary(fuel_w - 1)?;
            e = Expr::BinaryOp { left: Box::new(e), op, right: Box::new(right) };
            fuel_w = fuel_w - 1;
        }
    }

    /// A prefix minus or a primary expression, as `unary_s` says.
    #[verifier::rlimit(100)]
    #[verifier::spinoff_prover]
    fn unary(&mut self, fuel: u64) -> (r: Result<Expr, ParserError>)
        requires
            old(self).wf(),
        ensures
            final(self).wf(),
            final(self).toks() == old(self).toks(),
            match unary_s(fuel as nat, old(self).toks(), old(self).cur_i()) {
                ParseStepV::Done(ev, i2) => (r matches Ok(e) && e@ == ev) && final(self).cur_i()
                    == i2,
                ParseStepV::Fail(k) => r matches Err(e) && e@ == k,
                ParseStepV::OutOfFuel => r matches Err(e) && e@ == ParserErrorKindV::InvalidSyntax,
            },
        decreases fuel, 3int,
    {
        proof {
            reveal(unary_s);
        }
        if fuel == 0 {
            return Err(ParserError::new(ParserErrorKind::InvalidSyntax, "program nests too deeply"));
        }
        if self.match_token(&TokenKind::Minus) {
            let e = self.unary(fuel - 1)?;
            Ok(Expr::UnaryOp { op: TokenKind::Minus, expr: Box::new(e) })
        } else {
            self.primary(fuel - 1)
        }
    }

    /// Comma-separated expressions, as `args_loop_s` says.
    #[verifier::rlimit(100)]
    #[verifier::spinoff_prover]
    fn parse_args(&mut self, fuel: u64) -> (r: Result<Vec<Expr>, ParserError>)
        requires
            old(self).wf(),
        ensures
            final(self).wf(),
            final(self).toks() == old(self).toks(),
            match args_loop_s(fuel as nat, old(self).toks(), old(self).cur_i(), Seq::empty()) {
                ParseStepV::Done(es, i2) => (r matches Ok(v) && view_exprs(v@) == es) && final(self).cur_i() == i2,
                ParseStepV::Fail(k) => r matches Err(e) && e@ == k,
                ParseStepV::OutOfFuel => r matches Err(e) && e@ == ParserErrorKindV::InvalidSyntax,
            },
        decreases fuel, 9int,
    {
        proof {
            reveal(args_loop_s);
        }
        let ghost total = args_loop_s(fuel as nat, self.toks(), self.cur_i(), Seq::empty());
        let mut args: Vec<Expr> = Vec::new();
        let mut fuel_w = fuel;
        proof {
            assert(view_exprs(Seq::<Expr>::empty()) =~= Seq::<crate::parser::ast::ExprV>::empty());
        }
        loop
            invariant
                self.wf(),
                self.toks() == old(self).toks(),
                fuel_w <= fuel,
                total == args_loop_s(fuel_w as nat, self.toks(), self.cur_i(), view_exprs(args@)),
            decreases fuel_w,
        {
            proof {
                reveal(args_loop_s);
            }
            if fuel_w == 0 {
                return Err(
                    ParserError::new(ParserErrorKind::InvalidSyntax, "program nests too deeply"),
                );
            }
            let e = self.expression(fuel_w - 1)?;
            proof {
                lemma_view_exprs_push(args@, e);
            }
            args.push(e);
            if !self.match_token(&TokenKind::Comma) {
                return Ok(args);
            }
            fuel_w = fuel_w - 1;
        }
    }

    /// Comma-separated object entries, as `object_entries_s` says.
    #[verifier::rlimit(100)]
    #[verifier::spinoff_prover]
    fn parse_object_entries(&mut self, fuel: u64) -> (r: Result<Vec<(String, Expr)>, ParserError>)
        requires
            old(self).wf(),
        ensures
            final(self).wf(),
            final(self).toks() == old(self).toks(),
            match object_entries_s(fuel as nat, old(self).toks(), old(self).cur_i(), Seq::empty()) {
                ParseStepV::Done(ps, i2) => (r matches Ok(v) && view_obj_entries(v@) == ps)
                    && final(self).cur_i() == i2,
                ParseStepV::Fail(k) => r matches Err(e) && e@ == k,
                ParseStepV::OutOfFuel => r matches Err(e) && e@ == ParserErrorKindV::InvalidSyntax,
            },
        decreases fuel, 9int,
    {
        proof {
            reveal(object_entries_s);
        }
        let ghost total = object_entries_s(fuel as nat, self.toks(), self.cur_i(), Seq::empty());
        let mut entries: Vec<(String, Expr)> = Vec::new();
        let mut fuel_w = fuel;
        proof {
            assert(view_obj_entries(Seq::<(String, Expr)>::empty()) =~= Seq::<
                (Seq<char>, crate::parser::ast::ExprV),
            >::empty());
        }
        loop
            invariant
                self.wf(),
                self.toks() == old(self).toks(),
                fuel_w <= fuel,
                total == object_entries_s(
                    fuel_w as nat,
                    self.toks(),
                    self.cur_i(),
                    view_obj_entries(entries@),
                ),
            decreases fuel_w,
        {
            proof {
                reveal(object_entries_s);
            }
            if fuel_w == 0 {
                return Err(
                    ParserError::new(ParserErrorKind::InvalidSyntax, "program nests too deeply"),
                );
            }
            let key = match &self.current().kind {
                TokenKind::String(s) => Some(s.clone()),
                _ => None,
            };
            let key = match key {
                Some(k) => k,
                None => {
                    let token = self.current().clone();
                    return Err(
                        ParserError::new(
                            ParserErrorKind::UnexpectedToken(token),
                            "Expect a string key in object literal",
                        ),
                    );
                },
            };
            self.advance();
            self.consume(&TokenKind::Colon, "Expect ':' after object key")?;
            let value = self.expression(fuel_w - 1)?;
            proof {
                lemma_view_obj_entries_push(entries@, (key, value));
            }
            entries.push((key, value));
            if !self.match_token(&TokenKind::Comma) {
                return Ok(entries);
            }
            fuel_w = fuel_w - 1;
        }
    }

    /// The statements of a brace-delimited body, as `block_stmts_s`
    /// says.
    #[verifier::rlimit(100)]
    #[verifier::spinoff_prover]
    fn parse_block_stmts(&mut self, fuel: u64) -> (r: Result<Vec<Stmt>, ParserError>)
        requires
            old(self).wf(),
        ensures
            final(self).wf(),
            final(self).toks() == old(self).toks(),
            match block_stmts_s(fuel as nat, old(self).toks(), old(self).cur_i(), Seq::empty()) {
                ParseStepV::Done(ss, i2) => (r matches Ok(v) && view_stmts(v@) == ss) && final(self).cur_i() == i2,
                ParseStepV::Fail(k) => r matches Err(e) && e@ == k,
                ParseStepV::OutOfFuel => r matches Err(e) && e@ == ParserErrorKindV::InvalidSyntax,
            },
        decreases fuel, 9int,
    {
        proof {
            reveal(block_stmts_s);
        }
        let ghost total = block_stmts_s(fuel as nat, self.toks(), self.cur_i(), Seq::empty());
        let mut stmts: Vec<Stmt> = Vec::new();
        let mut fuel_w = fuel;
        proof {
            assert(view_stmts(Seq::<Stmt>::empty()) =~= Seq::<crate::parser::ast::StmtV>::empty());
        }
        loop
            invariant
                self.wf(),
                self.toks() == old(self).toks(),
                fuel_w <= fuel,
                total == block_stmts_s(fuel_w as nat, self.toks(), self.cur_i(), view_stmts(stmts@)),
            decreases fuel_w,
        {
            proof {
                reveal(block_stmts_s);
            }
            if fuel_w == 0 {
                return Err(
                    ParserError::new(ParserErrorKind::InvalidSyntax, "program nests too deeply"),
                );
            }
            if self.check(&TokenKind::RightBrace) {
                return Ok(stmts);
            }
            if self.is_at_end() {
                return Ok(stmts);
            }
            let st = self.statement(fuel_w - 1)?;
            proof {
                lemma_view_stmts_push(stmts@, st);
            }
            stmts.push(st);
            fuel_w = fuel_w - 1;
        }
    }

    /// A variable reference or a call, as `primary_ident_s` says; the
    /// cursor stands just past the identifier.
    #[verifier::rlimit(100)]
    #[verifier::spinoff_prover]
    fn primary_ident(&mut self, fuel: u64, name: String) -> (r: Result<Expr, ParserError>)
        requires
            old(self).wf(),
            fuel >= 1,
        ensures
            final(self).wf(),
            final(self).toks() == old(self).toks(),
            match primary_ident_s(fuel as nat, old(self).toks(), old(self).cur_i(), name@) {
                ParseStepV::Done(ev, i2) => (r matches Ok(e) && e@ == ev) && final(self).cur_i()
                    == i2,
                ParseStepV::Fail(k) => r matches Err(e) && e@ == k,
                ParseStepV::OutOfFuel => r matches Err(e) && e@ == ParserErrorKindV::InvalidSyntax,
            },
        decreases fuel, 1int,
    {
        proof {
            reveal(primary_ident_s);
        }
        if self.match_token(&TokenKind::LeftParen) {
            if self.match_token(&TokenKind::RightParen) {
                let args: Vec<Expr> = Vec::new();
                proof {
                    assert(view_exprs(args@) =~= Seq::<crate::parser::ast::ExprV>::empty());
                }
                Ok(Expr::FunctionCall { name, args })
            } else {
                let args = self.parse_args(fuel - 1)?;
                self.consume(&TokenKind::RightParen, "Expect ')' after arguments")?;
                Ok(Expr::FunctionCall { name, args })
            }
        } else {
            Ok(Expr::Variable(name))
        }
    }

    /// A block or an object literal, as `primary_brace_s` says; the
    /// cursor stands at the opening brace.
    #[verifier::rlimit(100)]
    #[verifier::spinoff_prover]
    fn primary_brace(&mut self, fuel: u64) -> (r: Result<Expr, ParserError>)
        requires
            old(self).wf(),
            fuel >= 1,
            check_s(old(self).toks(), old(self).cur_i(), TokenKindV::LeftBrace),
        ensures
            final(self).wf(),
            final(self).toks() == old(self).toks(),
            match primary_brace_s(fuel as nat, old(self).toks(), old(self).cur_i()) {
                ParseStepV::Done(ev, i2) => (r matches Ok(e) && e@ == ev) && final(self).cur_i()
                    == i2,
                ParseStepV::Fail(k) => r matches Err(e) && e@ == k,
                ParseStepV::OutOfFuel => r matches Err(e) && e@ == ParserErrorKindV::InvalidSyntax,
            },
        decreases fuel, 1int,
    {
        proof {
            reveal(primary_brace_s);
        }
        if self.object_ahead() {
            self.advance();
            let entries = self.parse_object_entries(fuel - 1)?;
            self.consume(&TokenKind::RightBrace, "Expect '}' after object literal")?;
            Ok(Expr::Object(entries))
        } else {
            self.advance();
            let stmts = self.parse_block_stmts(fuel - 1)?;
            self.consume(&TokenKind::RightBrace, "Expect '}' after block")?;
            Ok(Expr::Block(stmts))
        }
    }

    /// An array literal, as `primary_bracket_s` says; the cursor
    /// stands just past the opening bracket.
    #[verifier::rlimit(100)]
    #[verifier::spinoff_prover]
    fn primary_bracket(&mut self, fuel: u64) -> (r: Result<Expr, ParserError>)
        requires
            old(self).wf(),
            fuel >= 1,
        ensures
            final(self).wf(),
            final(self).toks() == old(self).toks(),
            match primary_bracket_s(fuel as nat, old(self).toks(), old(self).cur_i()) {
                ParseStepV::Done(ev, i2) => (r matches Ok(e) && e@ == ev) && final(self).cur_i()
                    == i2,
                ParseStepV::Fail(k) => r matches Err(e) && e@ == k,
                ParseStepV::OutOfFuel => r matches Err(e) && e@ == ParserErrorKindV::InvalidSyntax,
            },
        decreases fuel, 1int,
    {
        proof {
            reveal(primary_bracket_s);
        }
        if self.match_token(&TokenKind::RightBracket) {
            let items: Vec<Expr> = Vec::new();
            proof {
                assert(view_exprs(items@) =~= Seq::<crate::parser::ast::ExprV>::empty());
            }
            Ok(Expr::Array(items))
        } else {
            let items = self.parse_args(fuel - 1)?;
            self.consume(&TokenKind::RightBracket, "Expect ']' after array literal")?;
            Ok(Expr::Array(items))
        }
    }

    /// A primary expression, as `primary_s` says.
    #[verifier::rlimit(100)]
    #[verifier::spinoff_prover]
    fn primary(&mut self, fuel: u64) -> (r: Result<Expr, ParserError>)
        requires
            old(self).wf(),
        ensures
            final(self).wf(),
            final(self).toks() == old(self).toks(),
            match primary_s(fuel as nat, old(self).toks(), old(self).cur_i()) {
                ParseStepV::Done(ev, i2) => (r matches Ok(e) && e@ == ev) && final(self).cur_i()
                    == i2,
                ParseStepV::Fail(k) => r matches Err(e) && e@ == k,
                ParseStepV::OutOfFuel => r matches Err(e) && e@ == ParserErrorKindV::InvalidSyntax,
            },
        decreases fuel, 2int,
    {
        proof {
            reveal(primary_s);
            reveal(primary_ident_s);
            reveal(primary_paren_s);
            reveal(primary_brace_s);
            reveal(primary_bracket_s);
        }
        if fuel == 0 {
            return Err(ParserError::new(ParserErrorKind::InvalidSyntax, "program nests too deeply"));
        }
        if self.is_at_end() {
            return Err(
                ParserError::new(
                    ParserErrorKind::UnexpectedEOF,
                    "Unexpected end of file. Expected expression.",
                ),
            );
        }
        let t = self.current().clone();
        match t.kind {
            TokenKind::Number(n) => {
                self.advance();
                Ok(Expr::Number(n))
            },
            TokenKind::Boolean(b) => {
                self.advance();
                Ok(Expr::Boolean(b))
            },
            TokenKind::String(s) => {
                self.advance();
                Ok(Expr::String(s))
            },
            TokenKind::Identifier(name) => {
                self.advance();
                self.primary_ident(fuel, name)
            },
            TokenKind::LeftParen => {
                self.advance();
                let e = self.expression(fuel - 1)?;
                self.consume(&TokenKind::RightParen, "Expect ')' after expression")?;
                Ok(e)
            },
            TokenKind::LeftBrace => self.primary_brace(fuel),
            TokenKind::LeftBracket => {
                self.advance();
                self.primary_bracket(fuel)
            },
            _ => Err(
                ParserError::new(ParserErrorKind::UnexpectedToken(t), "Unexpected token. Expected expression."),
            ),
        }
    }

    /// Removes comment tokens from the stream and rewinds the cursor.
    #[verifier::rlimit(100)]
    #[verifier::spinoff_prover]
    fn strip_comments(&mut self)
        requires
            old(self).wf(),
        ensures
            final(self).wf(),
            final(self).toks() == filter_comments_s(old(self).toks()),
            final(self).cur_i() == 0,
    {
        let ghost ts0 = self.toks();
        let n = self.tokens.len();
        let mut filtered: Vec<Token> = Vec::new();
        let mut i: usize = 0;
        proof {
            assert(view_tokens(filtered@) =~= filter_comments_s(ts0.take(0)));
        }
        while i < n
            invariant
                i <= n,
                n == self.tokens@.len(),
                self.toks() == ts0,
                view_tokens(filtered@) == filter_comments_s(ts0.take(i as int)),
            decreases n - i,
        {
            let is_comment = match &self.tokens[i].kind {
                TokenKind::Comment(_) => true,
                _ => false,
            };
            proof {
                assert(ts0.take(i + 1).drop_last() =~= ts0.take(i as int));
                assert(ts0.take(i + 1).last() == ts0[i as int]);
            }
            if !is_comment {
                let tk = self.tokens[i].clone();
                proof {
                    lemma_view_tokens_push(filtered@, tk);
                }
                filtered.push(tk);
            }
            i += 1;
        }
        proof {
            assert(ts0.take(n as int) =~= ts0);
            assert(ts0.len() >= 1 && ts0.last().kind is Eof);
            assert(filter_comments_s(ts0) == filter_comments_s(ts0.drop_last()).push(ts0.last()));
            assert(tokens_wf(view_tokens(filtered@)));
        }
        self.tokens = filtered;
        self.current = 0;
    }

    /// Parses the whole token stream into a program: comments are
    /// dropped first, then statements are read to the end marker.
    #[verifier::rlimit(100)]
    #[verifier::spinoff_prover]
    pub fn parse(&mut self) -> (r: Result<Vec<Stmt>, ParserError>)
        requires
            old(self).wf(),
            old(self).cur_i() == 0,
        ensures
            match parse_spec(old(self).toks()) {
                ParseStepV::Done(ss, _) => r matches Ok(v) && view_stmts(v@) == ss,
                ParseStepV::Fail(k) => r matches Err(e) && e@ == k,
                ParseStepV::OutOfFuel => r matches Err(e) && e@ == ParserErrorKindV::InvalidSyntax,
            },
    {
        self.strip_comments();
        self.parse_program()
    }

    /// Reads statements to the end marker, as `parse_program_s` says.
    #[verifier::rlimit(100)]
    #[verifier::spinoff_prover]
    #[verifier::loop_isolation(true)]
    fn parse_program(&mut self) -> (r: Result<Vec<Stmt>, ParserError>)
        requires
            old(self).wf(),
        ensures
            final(self).wf(),
            match parse_program_s(
                u64::MAX as nat,
                old(self).toks(),
                old(self).cur_i(),
                Seq::empty(),
            ) {
                ParseStepV::Done(ss, _) => r matches Ok(v) && view_stmts(v@) == ss,
                ParseStepV::Fail(k) => r matches Err(e) && e@ == k,
                ParseStepV::OutOfFuel => r matches Err(e) && e@ == ParserErrorKindV::InvalidSyntax,
            },
    {
        let ghost toks = self.toks();
        let ghost total = parse_program_s(u64::MAX as nat, toks, self.cur_i(), Seq::empty());
        let mut stmts: Vec<Stmt> = Vec::new();
        let mut fuel_w: u64 = u64::MAX;
        proof {
            assert(view_stmts(Seq::<Stmt>::empty()) =~= Seq::<crate::parser::ast::StmtV>::empty());
        }
        while !self.is_at_end()
            invariant
                self.wf(),
                self.toks() == toks,
                toks == old(self).toks(),
                total == parse_program_s(u64::MAX as nat, old(self).toks(), old(self).cur_i(), Seq::empty()),
                total == parse_program_s(fuel_w as nat, toks, self.cur_i(), view_stmts(stmts@)),
            decreases fuel_w,
        {
            proof {
                reveal(parse_program_s);
            }
            if fuel_w == 0 {
                return Err(
                    ParserError::new(ParserErrorKind::InvalidSyntax, "program nests too deeply"),
                );
            }
            let st = self.statement(fuel_w - 1)?;
            proof {
                lemma_view_stmts_push(stmts@, st);
            }
            stmts.push(st);
            fuel_w = fuel_w - 1;
        }
        proof {
            reveal(parse_program_s);
        }
        Ok(stmts)
    }
}

/// Parses a token stream into a program.
pub fn parse(tokens: Vec<Token>) -> (r: Result<Vec<Stmt>, ParserError>)
    requires
        tokens_wf(view_tokens(tokens@)),
    ensures
        match parse_spec(view_tokens(tokens@)) {
            ParseStepV::Done(ss, _) => r matches Ok(v) && view_stmts(v@) == ss,
            ParseStepV::Fail(k) => r matches Err(e) && e@ == k,
            ParseStepV::OutOfFuel => r matches Err(e) && e@ == ParserErrorKindV::InvalidSyntax,
        },
{
    let mut parser = Parser::new(tokens);
    parser.parse()
}

} // verus!
