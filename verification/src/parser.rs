//! The parser: recursive descent over statements, precedence climbing over
//! expressions, one token of lookahead.
use vstd::prelude::*;
use vstd::string::*;
use crate::ast::{
    exprs_view, lemma_expr_view_lists, lemma_stmt_view_block, pairs_view, stmts_view, Expr,
    ExprView, Program, Stmt, StmtView,
};
use crate::error::{ErrorView, RMonkeyError};
use crate::grammar::{
    lemma_advance, sp_array, sp_block, sp_block_loop, sp_call, sp_expr, sp_expr_stmt, sp_func,
    sp_grouped, sp_hash, sp_hash_loop, sp_if, sp_if_branches, sp_index, sp_infix, sp_infix_loop,
    sp_let, sp_list, sp_list_loop, sp_params, sp_params_loop, sp_prefix, sp_program,
    sp_program_loop, sp_return, sp_start, sp_stmt, token_weight, ParserView,
};
use crate::lexer::Lexer;
use crate::operator::{Infix, Prefix};
use crate::precedence::Precedence;
use crate::token::{Token, TokenView};

verus! {

/// What a parse of an expression gave, as the grammar states it.
pub open spec fn expr_outcome(r: Result<Expr, RMonkeyError>, st: ParserView) -> Result<
    (ExprView, ParserView),
    ErrorView,
> {
    match r {
        Ok(e) => Ok((e@, st)),
        Err(e) => Err(e@),
    }
}

/// What a parse of a statement gave, as the grammar states it.
pub open spec fn stmt_outcome(r: Result<Stmt, RMonkeyError>, st: ParserView) -> Result<
    (StmtView, ParserView),
    ErrorView,
> {
    match r {
        Ok(s) => Ok((s@, st)),
        Err(e) => Err(e@),
    }
}

/// What a parse of a list of expressions gave, as the grammar states it.
pub open spec fn exprs_outcome(r: Result<Vec<Expr>, RMonkeyError>, st: ParserView) -> Result<
    (Seq<ExprView>, ParserView),
    ErrorView,
> {
    match r {
        Ok(es) => Ok((exprs_view(es@), st)),
        Err(e) => Err(e@),
    }
}

/// What a parse of a program gave, as the grammar states it.
pub open spec fn program_outcome(r: Result<Program, RMonkeyError>, st: ParserView) -> Result<
    (Seq<StmtView>, ParserView),
    ErrorView,
> {
    match r {
        Ok(p) => Ok((p@, st)),
        Err(e) => Err(e@),
    }
}

/// The syntax tree, or the error, that parsing the text `input` gives.
pub open spec fn parse_result(input: Seq<char>) -> Result<Seq<StmtView>, ErrorView> {
    match sp_program(sp_start(input, 0)) {
        Ok((stmts, _)) => Ok(stmts),
        Err(e) => Err(e),
    }
}

/// A parser over the tokens of a lexer.
#[derive(Debug)]
pub struct Parser {
    l: Lexer,
    cur_token: Token,
    peek_token: Token,
}

impl View for Parser {
    type V = ParserView;

    closed spec fn view(&self) -> ParserView {
        ParserView {
            cur: self.cur_token@,
            peek: self.peek_token@,
            input: self.l.input@,
            pos: self.l.pos as int,
        }
    }
}

impl Parser {
    /// The lexer of the parser is well formed.
    pub closed spec fn wf(&self) -> bool {
        self.l.wf()
    }

    /// A parser that has read the first two tokens from `l`.
    pub fn new(l: Lexer) -> (p: Parser)
        requires
            l.wf(),
        ensures
            p.wf(),
            p@ == sp_start(l.input@, l.pos as int),
    {
        let mut parser = Parser { l, cur_token: Token::Illegal, peek_token: Token::Illegal };
        parser.next_token();
        parser.next_token();
        parser
    }

    fn next_token(&mut self) -> (cur: Token)
        requires
            old(self).wf(),
        ensures
            final(self).wf(),
            final(self)@ == old(self)@.advance(),
            cur@ == old(self)@.cur,
            final(self)@.weight() + token_weight(old(self)@.cur) <= old(self)@.weight(),
    {
        let cur = self.cur_token.clone();
        self.cur_token = self.peek_token.clone();
        self.peek_token = self.l.next_token();
        proof {
            lemma_advance(old(self)@);
        }
        cur
    }

    fn cur_token_is(&self, t: Token) -> (r: bool)
        ensures
            r == (self@.cur == t@),
    {
        self.cur_token == t
    }

    fn peek_token_is(&self, t: Token) -> (r: bool)
        ensures
            r == (self@.peek == t@),
    {
        self.peek_token == t
    }

    fn expect_peek(&mut self, t: Token) -> (r: bool)
        requires
            old(self).wf(),
        ensures
            final(self).wf(),
            r == (old(self)@.peek == t@),
            r ==> final(self)@ == old(self)@.advance(),
            !r ==> final(self)@ == old(self)@,
            final(self)@.weight() <= old(self)@.weight(),
            r ==> final(self)@.weight() + token_weight(old(self)@.cur) <= old(self)@.weight(),
    {
        if self.peek_token_is(t) {
            self.next_token();
            true
        } else {
            false
        }
    }

    fn skip_semicolon(&mut self)
        requires
            old(self).wf(),
        ensures
            final(self).wf(),
            final(self)@ == old(self)@.skip_semicolon(),
            final(self)@.weight() <= old(self)@.weight(),
            old(self)@.cur != TokenView::Eof ==> final(self)@.follows(old(self)@),
    {
        if self.peek_token_is(Token::Semicolon) {
            self.next_token();
        }
    }

    /// Parses the whole text: statements up to the first `Eof`, or the first
    /// error.
    pub fn parse_program(&mut self) -> (r: Result<Program, RMonkeyError>)
        requires
            old(self).wf(),
        ensures
            final(self).wf(),
            program_outcome(r, final(self)@) == sp_program(old(self)@),
    {
        let mut stmts: Vec<Stmt> = Vec::new();
        let ghost goal = sp_program(old(self)@);
        proof {
            assert(stmts_view(stmts@) =~= Seq::empty());
        }
        while !self.cur_token_is(Token::Eof)
            invariant
                self.wf(),
                goal == sp_program_loop(self@, stmts_view(stmts@)),
                goal == sp_program(old(self)@),
            decreases self@.weight(),
        {
            let ghost st = self@;
            let ghost acc = stmts_view(stmts@);
            match self.parse_stmt() {
                Ok(s) => {
                    let ghost st1 = self@;
                    let ghost sv = s@;
                    stmts.push(s);
                    self.next_token();
                    proof {
                        assert(stmts_view(stmts@) =~= acc.push(sv));
                    }
                },
                Err(e) => {
                    return Err(e);
                },
            }
        }
        let p = Program::new(stmts);
        Ok(p)
    }

    fn parse_stmt(&mut self) -> (r: Result<Stmt, RMonkeyError>)
        requires
            old(self).wf(),
        ensures
            final(self).wf(),
            stmt_outcome(r, final(self)@) == sp_stmt(old(self)@),
            r is Ok ==> final(self)@.follows(old(self)@),
        decreases old(self)@.weight(), 7int,
    {
        if self.cur_token_is(Token::Let) {
            self.parse_let_stmt()
        } else if self.cur_token_is(Token::Return) {
            self.parse_return_stmt()
        } else {
            self.parse_expr_stmt()
        }
    }

    fn parse_let_stmt(&mut self) -> (r: Result<Stmt, RMonkeyError>)
        requires
            old(self).wf(),
            old(self)@.cur != TokenView::Eof,
        ensures
            final(self).wf(),
            stmt_outcome(r, final(self)@) == sp_let(old(self)@),
            r is Ok ==> final(self)@.follows(old(self)@),
        decreases old(self)@.weight(), 6int,
    {
        self.next_token();
        let tok = self.cur_token.clone();
        let ident = match tok {
            Token::Ident(val) => val,
            other => {
                return Err(
                    RMonkeyError::UnexpectedToken {
                        expected: Token::Ident("Ident".to_owned()),
                        got: other,
                    },
                );
            },
        };
        if !self.expect_peek(Token::Assign) {
            return Err(
                RMonkeyError::UnexpectedToken {
                    expected: Token::Assign,
                    got: self.peek_token.clone(),
                },
            );
        }
        self.next_token();
        let value = match self.parse_expr(Precedence::Lowest) {
            Ok(v) => v,
            Err(e) => {
                return Err(e);
            },
        };
        self.skip_semicolon();
        let name = Expr::Ident(ident);
        proof {
            assert(name@ == ExprView::Ident(ident@));
        }
        Ok(Stmt::LetStmt { name, value })
    }

    fn parse_return_stmt(&mut self) -> (r: Result<Stmt, RMonkeyError>)
        requires
            old(self).wf(),
            old(self)@.cur != TokenView::Eof,
        ensures
            final(self).wf(),
            stmt_outcome(r, final(self)@) == sp_return(old(self)@),
            r is Ok ==> final(self)@.follows(old(self)@),
        decreases old(self)@.weight(), 6int,
    {
        self.next_token();
        let value = match self.parse_expr(Precedence::Lowest) {
            Ok(v) => v,
            Err(e) => {
                return Err(e);
            },
        };
        self.skip_semicolon();
        Ok(Stmt::ReturnStmt(value))
    }

    fn parse_expr_stmt(&mut self) -> (r: Result<Stmt, RMonkeyError>)
        requires
            old(self).wf(),
        ensures
            final(self).wf(),
            stmt_outcome(r, final(self)@) == sp_expr_stmt(old(self)@),
            r is Ok ==> final(self)@.follows(old(self)@),
        decreases old(self)@.weight(), 6int,
    {
        let expr = match self.parse_expr(Precedence::Lowest) {
            Ok(v) => v,
            Err(e) => {
                return Err(e);
            },
        };
        self.skip_semicolon();
        Ok(Stmt::ExprStmt(expr))
    }

    fn parse_block_stmt(&mut self) -> (r: Result<Stmt, RMonkeyError>)
        requires
            old(self).wf(),
        ensures
            final(self).wf(),
            stmt_outcome(r, final(self)@) == sp_block(old(self)@),
            r is Ok ==> final(self)@.weight() <= old(self)@.weight(),
        decreases old(self)@.weight(), 9int,
    {
        self.next_token();
        let mut stmts: Vec<Stmt> = Vec::new();
        let ghost goal = sp_block(old(self)@);
        proof {
            assert(stmts_view(stmts@) =~= Seq::empty());
        }
        while !self.cur_token_is(Token::RBrace) && !self.cur_token_is(Token::Eof)
            invariant
                self.wf(),
                self@.weight() <= old(self)@.weight(),
                goal == sp_block_loop(self@, stmts_view(stmts@)),
                goal == sp_block(old(self)@),
            decreases self@.weight(),
        {
            let ghost acc = stmts_view(stmts@);
            match self.parse_stmt() {
                Ok(s) => {
                    let ghost sv = s@;
                    stmts.push(s);
                    self.next_token();
                    proof {
                        assert(stmts_view(stmts@) =~= acc.push(sv));
                    }
                },
                Err(e) => {
                    return Err(e);
                },
            }
        }
        let block = Stmt::BlockStmt { stmts };
        proof {
            lemma_stmt_view_block(block);
        }
        Ok(block)
    }

    fn parse_expr(&mut self, prec: Precedence) -> (r: Result<Expr, RMonkeyError>)
        requires
            old(self).wf(),
        ensures
            final(self).wf(),
            expr_outcome(r, final(self)@) == sp_expr(old(self)@, prec),
            r is Ok ==> final(self)@.follows(old(self)@),
            r is Ok ==> old(self)@.cur != TokenView::Eof,
        decreases old(self)@.weight(), 5int,
    {
        let tok = self.cur_token.clone();
        let first = match tok {
            Token::Ident(val) => self.parse_identifier(val),
            Token::Int(val) => self.parse_integer_literal(val),
            Token::True => self.parse_bool_literal(),
            Token::False => self.parse_bool_literal(),
            Token::String(val) => self.parse_string_literal(val),
            Token::Bang => self.parse_prefix_expr(),
            Token::Minus => self.parse_prefix_expr(),
            Token::LParen => self.parse_grouped_expr(),
            Token::If => self.parse_if_expr(),
            Token::Function => self.parse_func_literal(),
            Token::LBracket => self.parse_array_literal(),
            Token::LBrace => self.parse_hash_literal(),
            _ => Err(RMonkeyError::Custom("failed to parse expression".to_owned())),
        };
        let mut left = match first {
            Ok(e) => e,
            Err(e) => {
                return Err(e);
            },
        };
        let ghost goal = sp_expr(old(self)@, prec);
        while !self.peek_token_is(Token::Semicolon) && prec.binds_looser_than(
            &self.peek_token.cur_precedence(),
        )
            invariant
                self.wf(),
                self@.follows(old(self)@),
                goal == sp_infix_loop(self@, prec, left@),
                goal == sp_expr(old(self)@, prec),
            decreases self@.weight(),
        {
            self.next_token();
            let next = if self.cur_token_is(Token::LParen) {
                self.parse_call_expr(left)
            } else if self.cur_token_is(Token::LBracket) {
                self.parse_index_expr(left)
            } else {
                self.parse_infix_expr(left)
            };
            match next {
                Ok(e) => {
                    left = e;
                },
                Err(e) => {
                    return Err(e);
                },
            }
        }
        Ok(left)
    }

    fn parse_identifier(&self, val: String) -> (r: Result<Expr, RMonkeyError>)
        ensures
            r matches Ok(e) && e@ == ExprView::Ident(val@),
    {
        Ok(Expr::Ident(val))
    }

    fn parse_integer_literal(&self, val: i64) -> (r: Result<Expr, RMonkeyError>)
        ensures
            r matches Ok(e) && e@ == ExprView::IntLiteral(val),
    {
        Ok(Expr::IntLiteral(val))
    }

    fn parse_bool_literal(&self) -> (r: Result<Expr, RMonkeyError>)
        ensures
            r matches Ok(e) && e@ == ExprView::BoolLiteral(self@.cur == TokenView::True),
    {
        let value = self.cur_token_is(Token::True);
        Ok(Expr::BoolLiteral(value))
    }

    fn parse_string_literal(&self, val: String) -> (r: Result<Expr, RMonkeyError>)
        ensures
            r matches Ok(e) && e@ == ExprView::StringLiteral(val@),
    {
        Ok(Expr::StringLiteral(val))
    }

    fn parse_grouped_expr(&mut self) -> (r: Result<Expr, RMonkeyError>)
        requires
            old(self).wf(),
            old(self)@.cur != TokenView::Eof,
        ensures
            final(self).wf(),
            expr_outcome(r, final(self)@) == sp_grouped(old(self)@),
            r is Ok ==> final(self)@.weight() < old(self)@.weight(),
        decreases old(self)@.weight(), 3int,
    {
        self.next_token();
        let expr = match self.parse_expr(Precedence::Lowest) {
            Ok(v) => v,
            Err(e) => {
                return Err(e);
            },
        };
        if !self.expect_peek(Token::RParen) {
            return Err(
                RMonkeyError::UnexpectedToken {
                    expected: Token::RParen,
                    got: self.peek_token.clone(),
                },
            );
        }
        Ok(expr)
    }

    fn parse_if_expr(&mut self) -> (r: Result<Expr, RMonkeyError>)
        requires
            old(self).wf(),
            old(self)@.cur != TokenView::Eof,
        ensures
            final(self).wf(),
            expr_outcome(r, final(self)@) == sp_if(old(self)@),
            r is Ok ==> final(self)@.weight() < old(self)@.weight(),
        decreases old(self)@.weight(), 3int,
    {
        if !self.expect_peek(Token::LParen) {
            return Err(
                RMonkeyError::UnexpectedToken {
                    expected: Token::LParen,
                    got: self.peek_token.clone(),
                },
            );
        }
        self.next_token();
        let condition = match self.parse_expr(Precedence::Lowest) {
            Ok(v) => v,
            Err(e) => {
                return Err(e);
            },
        };
        if !self.expect_peek(Token::RParen) {
            return Err(
                RMonkeyError::UnexpectedToken {
                    expected: Token::RParen,
                    got: self.peek_token.clone(),
                },
            );
        }
        self.next_token();
        self.parse_if_branches(condition)
    }

    fn parse_if_branches(&mut self, condition: Expr) -> (r: Result<Expr, RMonkeyError>)
        requires
            old(self).wf(),
        ensures
            final(self).wf(),
            expr_outcome(r, final(self)@) == sp_if_branches(old(self)@, condition@),
            r is Ok ==> final(self)@.weight() <= old(self)@.weight(),
        decreases old(self)@.weight(), 10int,
    {
        let consequence = match self.parse_block_stmt() {
            Ok(v) => v,
            Err(e) => {
                return Err(e);
            },
        };
        if self.expect_peek(Token::Else) {
            self.next_token();
            let alt = match self.parse_block_stmt() {
                Ok(v) => v,
                Err(e) => {
                    return Err(e);
                },
            };
            return Ok(
                Expr::If {
                    condition: Box::new(condition),
                    consequence: Box::new(consequence),
                    alternative: Some(Box::new(alt)),
                },
            );
        }
        Ok(
            Expr::If {
                condition: Box::new(condition),
                consequence: Box::new(consequence),
                alternative: None,
            },
        )
    }

    fn parse_func_literal(&mut self) -> (r: Result<Expr, RMonkeyError>)
        requires
            old(self).wf(),
            old(self)@.cur != TokenView::Eof,
        ensures
            final(self).wf(),
            expr_outcome(r, final(self)@) == sp_func(old(self)@),
            r is Ok ==> final(self)@.weight() < old(self)@.weight(),
        decreases old(self)@.weight(), 3int,
    {
        if !self.expect_peek(Token::LParen) {
            return Err(
                RMonkeyError::UnexpectedToken {
                    expected: Token::LParen,
                    got: self.peek_token.clone(),
                },
            );
        }
        let params = match self.parse_func_params() {
            Ok(v) => v,
            Err(e) => {
                return Err(e);
            },
        };
        self.next_token();
        let body = match self.parse_block_stmt() {
            Ok(v) => v,
            Err(e) => {
                return Err(e);
            },
        };
        let func = Expr::Func { params, body: Box::new(body) };
        proof {
            lemma_expr_view_lists(func);
        }
        Ok(func)
    }

    fn parse_func_params(&mut self) -> (r: Result<Vec<Expr>, RMonkeyError>)
        requires
            old(self).wf(),
        ensures
            final(self).wf(),
            exprs_outcome(r, final(self)@) == sp_params(old(self)@),
            r is Ok ==> final(self)@.weight() <= old(self)@.weight(),
    {
        if self.peek_token_is(Token::RParen) {
            self.next_token();
            let empty: Vec<Expr> = Vec::new();
            proof {
                assert(exprs_view(empty@) =~= Seq::empty());
            }
            return Ok(empty);
        }
        self.next_token();
        let mut params: Vec<Expr> = Vec::new();
        let tok = self.cur_token.clone();
        let first_param = match tok {
            Token::Ident(val) => Expr::Ident(val),
            other => {
                return Err(
                    RMonkeyError::UnexpectedToken {
                        expected: Token::Ident("Ident".to_owned()),
                        got: other,
                    },
                );
            },
        };
        let ghost first_view = first_param@;
        params.push(first_param);
        let ghost goal = sp_params(old(self)@);
        proof {
            assert(exprs_view(params@) =~= seq![first_view]);
        }
        while self.peek_token_is(Token::Comma)
            invariant
                self.wf(),
                self@.weight() <= old(self)@.weight(),
                goal == sp_params_loop(self@, exprs_view(params@)),
                goal == sp_params(old(self)@),
            decreases self@.weight(),
        {
            let ghost acc = exprs_view(params@);
            self.next_token();
            self.next_token();
            let tok = self.cur_token.clone();
            match tok {
                Token::Ident(val) => {
                    let param = Expr::Ident(val);
                    let ghost pv = param@;
                    params.push(param);
                    proof {
                        assert(exprs_view(params@) =~= acc.push(pv));
                    }
                },
                other => {
                    return Err(
                        RMonkeyError::UnexpectedToken {
                            expected: Token::Ident("Ident".to_owned()),
                            got: other,
                        },
                    );
                },
            }
        }
        if !self.expect_peek(Token::RParen) {
            return Err(
                RMonkeyError::UnexpectedToken {
                    expected: Token::RParen,
                    got: self.peek_token.clone(),
                },
            );
        }
        Ok(params)
    }

    fn parse_call_expr(&mut self, func: Expr) -> (r: Result<Expr, RMonkeyError>)
        requires
            old(self).wf(),
            old(self)@.cur != TokenView::Eof,
        ensures
            final(self).wf(),
            expr_outcome(r, final(self)@) == sp_call(old(self)@, func@),
            r is Ok ==> final(self)@.weight() < old(self)@.weight(),
        decreases old(self)@.weight(), 3int,
    {
        let args = match self.parse_call_args() {
            Ok(v) => v,
            Err(e) => {
                return Err(e);
            },
        };
        let call = Expr::Call { callee: Box::new(func), args };
        proof {
            lemma_expr_view_lists(call);
        }
        Ok(call)
    }

    fn parse_call_args(&mut self) -> (r: Result<Vec<Expr>, RMonkeyError>)
        requires
            old(self).wf(),
            old(self)@.cur != TokenView::Eof,
        ensures
            final(self).wf(),
            exprs_outcome(r, final(self)@) == sp_list(old(self)@, TokenView::RParen, false),
            r is Ok ==> final(self)@.weight() < old(self)@.weight(),
        decreases old(self)@.weight(), 2int,
    {
        if self.peek_token_is(Token::RParen) {
            self.next_token();
            let empty: Vec<Expr> = Vec::new();
            proof {
                assert(exprs_view(empty@) =~= Seq::empty());
            }
            return Ok(empty);
        }
        self.next_token();
        let mut args: Vec<Expr> = Vec::new();
        let first_arg = match self.parse_expr(Precedence::Lowest) {
            Ok(v) => v,
            Err(e) => {
                return Err(e);
            },
        };
        let ghost first_view = first_arg@;
        args.push(first_arg);
        let ghost goal = sp_list(old(self)@, TokenView::RParen, false);
        proof {
            assert(exprs_view(args@) =~= seq![first_view]);
        }
        while self.peek_token_is(Token::Comma)
            invariant
                self.wf(),
                self@.weight() < old(self)@.weight(),
                goal == sp_list_loop(self@, exprs_view(args@), TokenView::RParen, false),
                goal == sp_list(old(self)@, TokenView::RParen, false),
            decreases self@.weight(),
        {
            let ghost acc = exprs_view(args@);
            self.next_token();
            self.next_token();
            let arg = match self.parse_expr(Precedence::Lowest) {
                Ok(v) => v,
                Err(e) => {
                    return Err(e);
                },
            };
            let ghost av = arg@;
            args.push(arg);
            proof {
                assert(exprs_view(args@) =~= acc.push(av));
            }
        }
        if !self.expect_peek(Token::RParen) {
            return Err(
                RMonkeyError::UnexpectedToken {
                    expected: Token::RParen,
                    got: self.peek_token.clone(),
                },
            );
        }
        Ok(args)
    }

    fn parse_prefix_expr(&mut self) -> (r: Result<Expr, RMonkeyError>)
        requires
            old(self).wf(),
        ensures
            final(self).wf(),
            expr_outcome(r, final(self)@) == sp_prefix(old(self)@),
            r is Ok ==> final(self)@.weight() < old(self)@.weight(),
        decreases old(self)@.weight(), 3int,
    {
        let op = if self.cur_token_is(Token::Minus) {
            Prefix::Minus
        } else if self.cur_token_is(Token::Bang) {
            Prefix::Bang
        } else {
            return Err(RMonkeyError::InvalidPrefix { got: self.cur_token.clone() });
        };
        self.next_token();
        let right = match self.parse_expr(Precedence::Prefix) {
            Ok(v) => v,
            Err(e) => {
                return Err(e);
            },
        };
        Ok(Expr::PrefixExpr { op, right: Box::new(right) })
    }

    fn parse_infix_expr(&mut self, left: Expr) -> (r: Result<Expr, RMonkeyError>)
        requires
            old(self).wf(),
        ensures
            final(self).wf(),
            expr_outcome(r, final(self)@) == sp_infix(old(self)@, left@),
            r is Ok ==> final(self)@.weight() < old(self)@.weight(),
        decreases old(self)@.weight(), 3int,
    {
        let op = match self.cur_token {
            Token::Eq => Infix::Eq,
            Token::NotEq => Infix::NotEq,
            Token::Lt => Infix::Lt,
            Token::Gt => Infix::Gt,
            Token::Plus => Infix::Plus,
            Token::Minus => Infix::Minus,
            Token::Slash => Infix::Slash,
            Token::Asterisk => Infix::Asterisk,
            _ => {
                return Err(RMonkeyError::Custom("invalid for infix".to_owned()));
            },
        };
        let precedence = self.cur_token.cur_precedence();
        self.next_token();
        let right = match self.parse_expr(precedence) {
            Ok(v) => v,
            Err(e) => {
                return Err(e);
            },
        };
        Ok(Expr::InfixExpr { left: Box::new(left), right: Box::new(right), op })
    }

    fn parse_array_literal(&mut self) -> (r: Result<Expr, RMonkeyError>)
        requires
            old(self).wf(),
            old(self)@.cur != TokenView::Eof,
        ensures
            final(self).wf(),
            expr_outcome(r, final(self)@) == sp_array(old(self)@),
            r is Ok ==> final(self)@.weight() < old(self)@.weight(),
        decreases old(self)@.weight(), 3int,
    {
        let elements = match self.parse_expr_list(Token::RBracket) {
            Ok(v) => v,
            Err(e) => {
                return Err(e);
            },
        };
        let array = Expr::Array { elements };
        proof {
            lemma_expr_view_lists(array);
        }
        Ok(array)
    }

    fn parse_expr_list(&mut self, end: Token) -> (r: Result<Vec<Expr>, RMonkeyError>)
        requires
            old(self).wf(),
            old(self)@.cur != TokenView::Eof,
        ensures
            final(self).wf(),
            exprs_outcome(r, final(self)@) == sp_list(old(self)@, end@, true),
            r is Ok ==> final(self)@.weight() < old(self)@.weight(),
        decreases old(self)@.weight(), 2int,
    {
        if self.peek_token_is(end.clone()) {
            self.next_token();
            let empty: Vec<Expr> = Vec::new();
            proof {
                assert(exprs_view(empty@) =~= Seq::empty());
            }
            return Ok(empty);
        }
        self.next_token();
        let mut list: Vec<Expr> = Vec::new();
        let first_expr = match self.parse_expr(Precedence::Lowest) {
            Ok(v) => v,
            Err(e) => {
                return Err(e);
            },
        };
        let ghost first_view = first_expr@;
        list.push(first_expr);
        let ghost goal = sp_list(old(self)@, end@, true);
        proof {
            assert(exprs_view(list@) =~= seq![first_view]);
        }
        while self.peek_token_is(Token::Comma)
            invariant
                self.wf(),
                self@.weight() < old(self)@.weight(),
                goal == sp_list_loop(self@, exprs_view(list@), end@, true),
                goal == sp_list(old(self)@, end@, true),
            decreases self@.weight(),
        {
            let ghost acc = exprs_view(list@);
            self.next_token();
            self.next_token();
            let item = match self.parse_expr(Precedence::Lowest) {
                Ok(v) => v,
                Err(e) => {
                    return Err(e);
                },
            };
            let ghost iv = item@;
            list.push(item);
            proof {
                assert(exprs_view(list@) =~= acc.push(iv));
            }
        }
        if !self.expect_peek(end.clone()) {
            return Err(
                RMonkeyError::UnexpectedToken { expected: end, got: self.cur_token.clone() },
            );
        }
        Ok(list)
    }

    fn parse_index_expr(&mut self, left: Expr) -> (r: Result<Expr, RMonkeyError>)
        requires
            old(self).wf(),
            old(self)@.cur != TokenView::Eof,
        ensures
            final(self).wf(),
            expr_outcome(r, final(self)@) == sp_index(old(self)@, left@),
            r is Ok ==> final(self)@.weight() < old(self)@.weight(),
        decreases old(self)@.weight(), 3int,
    {
        self.next_token();
        let index = match self.parse_expr(Precedence::Lowest) {
            Ok(v) => v,
            Err(e) => {
                return Err(e);
            },
        };
        if !self.expect_peek(Token::RBracket) {
            return Err(
                RMonkeyError::UnexpectedToken {
                    expected: Token::RBracket,
                    got: self.cur_token.clone(),
                },
            );
        }
        Ok(Expr::IndexExpr { left: Box::new(left), index: Box::new(index) })
    }

    fn parse_hash_literal(&mut self) -> (r: Result<Expr, RMonkeyError>)
        requires
            old(self).wf(),
            old(self)@.cur != TokenView::Eof,
        ensures
            final(self).wf(),
            expr_outcome(r, final(self)@) == sp_hash(old(self)@),
            r is Ok ==> final(self)@.weight() < old(self)@.weight(),
        decreases old(self)@.weight(), 3int,
    {
        let mut pairs: Vec<(Expr, Expr)> = Vec::new();
        let ghost goal = sp_hash(old(self)@);
        proof {
            assert(pairs_view(pairs@) =~= Seq::empty());
        }
        while !self.peek_token_is(Token::RBrace)
            invariant
                self.wf(),
                self@.weight() <= old(self)@.weight(),
                self@.cur != TokenView::Eof,
                goal == sp_hash_loop(self@, pairs_view(pairs@)),
                goal == sp_hash(old(self)@),
            decreases self@.weight(),
        {
            let ghost acc = pairs_view(pairs@);
            self.next_token();
            let key = match self.parse_expr(Precedence::Lowest) {
                Ok(v) => v,
                Err(e) => {
                    return Err(e);
                },
            };
            if !self.expect_peek(Token::Colon) {
                return Err(
                    RMonkeyError::UnexpectedToken {
                        expected: Token::Colon,
                        got: self.cur_token.clone(),
                    },
                );
            }
            self.next_token();
            let value = match self.parse_expr(Precedence::Lowest) {
                Ok(v) => v,
                Err(e) => {
                    return Err(e);
                },
            };
            let ghost kv = (key@, value@);
            pairs.push((key, value));
            proof {
                assert(pairs_view(pairs@) =~= acc.push(kv));
            }
            if self.peek_token_is(Token::RBrace) {
                self.next_token();
                let hash = Expr::HashLiteral { pairs };
                proof {
                    lemma_expr_view_lists(hash);
                }
                return Ok(hash);
            }
            if !self.expect_peek(Token::Comma) {
                return Err(
                    RMonkeyError::UnexpectedToken {
                        expected: Token::Comma,
                        got: self.cur_token.clone(),
                    },
                );
            }
        }
        self.next_token();
        let hash = Expr::HashLiteral { pairs };
        proof {
            lemma_expr_view_lists(hash);
        }
        Ok(hash)
    }
}

/// Parses a source text into a program.
pub fn parse(source: &str) -> (r: Result<Program, RMonkeyError>)
    ensures
        match r {
            Ok(p) => parse_result(source@) == Ok::<Seq<StmtView>, ErrorView>(p@),
            Err(e) => parse_result(source@) == Err::<Seq<StmtView>, ErrorView>(e@),
        },
{
    let l = Lexer::new(source);
    let mut p = Parser::new(l);
    p.parse_program()
}

} // verus!
