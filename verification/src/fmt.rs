//! The formatter: a program as source text in a uniform layout, with
//! parentheses only where the precedence of operators asks for them.
use vstd::prelude::*;
use vstd::string::*;
use crate::ast::{
    exprs_view, lemma_expr_view_lists, lemma_stmt_view_block, pairs_view, stmts_view, Expr,
    ExprView, Program, Stmt, StmtView,
};
use crate::operator::{Infix, Prefix};
use crate::precedence::Precedence;
use crate::text::{bool_text, int_decimal, join, lemma_join_push, push_bool, push_i64};

verus! {

/// The binding power of an infix operator.
pub open spec fn infix_precedence(op: Infix) -> Precedence {
    match op {
        Infix::Plus => Precedence::Sum,
        Infix::Minus => Precedence::Sum,
        Infix::Asterisk => Precedence::Product,
        Infix::Slash => Precedence::Product,
        Infix::Lt => Precedence::LessGreater,
        Infix::Gt => Precedence::LessGreater,
        Infix::Eq => Precedence::Equals,
        Infix::NotEq => Precedence::Equals,
    }
}

/// An expression in the formatter's layout, as an operand of an operator of
/// the precedence `prec`: an infix expression stands in parentheses where
/// its operator binds looser than `prec`.
pub open spec fn fmt_expr_text(e: ExprView, prec: Precedence) -> Seq<char>
    decreases e,
{
    match e {
        ExprView::Ident(v) => v,
        ExprView::IntLiteral(v) => int_decimal(v as int),
        ExprView::BoolLiteral(b) => bool_text(b),
        ExprView::StringLiteral(v) => "\""@ + v + "\""@,
        ExprView::PrefixExpr { op, right } => op.symbol() + fmt_expr_text(
            *right,
            Precedence::Prefix,
        ),
        ExprView::InfixExpr { left, right, op } => {
            let inner = fmt_expr_text(*left, infix_precedence(op)) + " "@ + op.symbol() + " "@
                + fmt_expr_text(*right, infix_precedence(op));
            if infix_precedence(op).level() < prec.level() {
                "("@ + inner + ")"@
            } else {
                inner
            }
        },
        ExprView::If { condition, consequence, alternative } => match alternative {
            Some(alt) => "if("@ + fmt_expr_text(*condition, Precedence::Lowest) + ") {\n"@
                + fmt_stmt_text(*consequence) + "\n} else {\n"@ + fmt_stmt_text(*alt) + "\n}"@,
            None => "if("@ + fmt_expr_text(*condition, Precedence::Lowest) + ") {\n"@
                + fmt_stmt_text(*consequence) + "\n}"@,
        },
        ExprView::Func { params, body } => "fn("@ + join(fmt_expr_texts(params), ", "@)
            + ") {\n"@ + fmt_stmt_text(*body) + "\n}"@,
        ExprView::Call { callee, args } => fmt_expr_text(*callee, Precedence::Lowest) + "("@
            + join(fmt_expr_texts(args), ", "@) + ")"@,
        ExprView::Array { elements } => "["@ + join(fmt_expr_texts(elements), ", "@) + "]"@,
        ExprView::IndexExpr { left, index } => fmt_expr_text(*left, Precedence::Lowest) + "["@
            + fmt_expr_text(*index, Precedence::Lowest) + "]"@,
        ExprView::HashLiteral { pairs } => "{"@ + join(fmt_pair_texts(pairs), ", "@) + "}"@,
    }
}

/// The expressions of a list in the formatter's layout.
pub open spec fn fmt_expr_texts(es: Seq<ExprView>) -> Seq<Seq<char>>
    decreases es,
{
    Seq::new(
        es.len(),
        |i: int|
            if 0 <= i < es.len() {
                fmt_expr_text(es[i], Precedence::Lowest)
            } else {
                Seq::empty()
            },
    )
}

/// The pairs of a hash literal in the formatter's layout.
pub open spec fn fmt_pair_texts(ps: Seq<(ExprView, ExprView)>) -> Seq<Seq<char>>
    decreases ps,
{
    Seq::new(
        ps.len(),
        |i: int|
            if 0 <= i < ps.len() {
                fmt_expr_text(ps[i].0, Precedence::Lowest) + ": "@ + fmt_expr_text(
                    ps[i].1,
                    Precedence::Lowest,
                )
            } else {
                Seq::empty()
            },
    )
}

/// A statement in the formatter's layout: a binding, a return and an
/// expression end in a semicolon, and the statements of a block follow
/// each other directly.
pub open spec fn fmt_stmt_text(s: StmtView) -> Seq<char>
    decreases s,
{
    match s {
        StmtView::LetStmt { name, value } => "let "@ + fmt_expr_text(name, Precedence::Lowest)
            + " = "@ + fmt_expr_text(value, Precedence::Lowest) + ";"@,
        StmtView::ReturnStmt(value) => "return "@ + fmt_expr_text(value, Precedence::Lowest)
            + ";"@,
        StmtView::ExprStmt(e) => fmt_expr_text(e, Precedence::Lowest) + ";"@,
        StmtView::BlockStmt { stmts } => join(fmt_stmt_texts(stmts), Seq::empty()),
    }
}

/// The statements of a list in the formatter's layout.
pub open spec fn fmt_stmt_texts(ss: Seq<StmtView>) -> Seq<Seq<char>>
    decreases ss,
{
    Seq::new(
        ss.len(),
        |i: int|
            if 0 <= i < ss.len() {
                fmt_stmt_text(ss[i])
            } else {
                Seq::empty()
            },
    )
}

/// A program in the formatter's layout.
pub open spec fn fmt_program_text(stmts: Seq<StmtView>) -> Seq<char> {
    join(fmt_stmt_texts(stmts), Seq::empty())
}

/// A formatter of programs.
#[derive(Debug)]
pub struct Formatter {}

impl Default for Formatter {
    fn default() -> (f: Formatter) {
        Formatter {  }
    }
}

impl Formatter {
    /// The program as source text in the formatter's layout.
    pub fn fmt(&mut self, ast: Program) -> (r: String)
        ensures
            r@ == fmt_program_text(ast@),
    {
        let mut out = String::new();
        self.fmt_block_stmt(&ast.stmts, &mut out);
        proof {
            assert(out@ =~= fmt_program_text(ast@));
        }
        out
    }

    fn fmt_stmt(&self, stmt: &Stmt, out: &mut String)
        ensures
            final(out)@ == old(out)@ + fmt_stmt_text(stmt@),
        decreases stmt, 1int,
    {
        match stmt {
            Stmt::LetStmt { name, value } => {
                self.fmt_let_stmt(name, value, out, Ghost(*stmt));
            },
            Stmt::ReturnStmt(value) => {
                out.append("return ");
                self.fmt_expr(value, Precedence::Lowest, out);
                out.append(";");
            },
            Stmt::ExprStmt(expr) => {
                self.fmt_expr(expr, Precedence::Lowest, out);
                out.append(";");
            },
            Stmt::BlockStmt { stmts } => {
                proof {
                    lemma_stmt_view_block(*stmt);
                }
                self.fmt_block_stmt(stmts, out);
            },
        }
        proof {
            assert(final(out)@ =~= old(out)@ + fmt_stmt_text(stmt@));
        }
    }

    fn fmt_let_stmt(&self, name: &Expr, value: &Expr, out: &mut String, Ghost(whole): Ghost<Stmt>)
        requires
            decreases_to!(whole => name),
            decreases_to!(whole => value),
        ensures
            final(out)@ == old(out)@ + fmt_stmt_text(
                StmtView::LetStmt { name: name@, value: value@ },
            ),
        decreases whole, 0int,
    {
        out.append("let ");
        self.fmt_expr(name, Precedence::Lowest, out);
        out.append(" = ");
        self.fmt_expr(value, Precedence::Lowest, out);
        out.append(";");
        proof {
            assert(final(out)@ =~= old(out)@ + fmt_stmt_text(
                StmtView::LetStmt { name: name@, value: value@ },
            ));
        }
    }

    fn fmt_block_stmt(&self, stmts: &Vec<Stmt>, out: &mut String)
        ensures
            final(out)@ == old(out)@ + join(fmt_stmt_texts(stmts_view(stmts@)), Seq::empty()),
        decreases stmts, 1int,
    {
        let ghost base = out@;
        let ghost texts = fmt_stmt_texts(stmts_view(stmts@));
        let ghost none = Seq::<char>::empty();
        let mut i: usize = 0;
        proof {
            assert(base + join(texts.take(0), none) =~= base);
        }
        while i < stmts.len()
            invariant
                i <= stmts.len(),
                none == Seq::<char>::empty(),
                texts == fmt_stmt_texts(stmts_view(stmts@)),
                out@ == base + join(texts.take(i as int), none),
            decreases stmts.len() - i,
        {
            proof {
                assert(decreases_to!(*stmts => stmts[i as int]));
            }
            self.fmt_stmt(&stmts[i], out);
            proof {
                let item = texts[i as int];
                assert(item == fmt_stmt_text(stmts[i as int]@));
                assert(texts.take(i + 1) =~= texts.take(i as int).push(item));
                lemma_join_push(texts.take(i as int), none, item);
                assert(out@ =~= base + join(texts.take(i + 1), none));
            }
            i += 1;
        }
        proof {
            assert(texts.take(i as int) =~= texts);
        }
    }

    fn fmt_expr(&self, expr: &Expr, precedence: Precedence, out: &mut String)
        ensures
            final(out)@ == old(out)@ + fmt_expr_text(expr@, precedence),
        decreases expr, 1int,
    {
        proof {
            lemma_expr_view_lists(*expr);
        }
        match expr {
            Expr::Ident(name) => {
                self.fmt_ident_expr(name, out);
            },
            Expr::IntLiteral(val) => {
                self.fmt_int_literal(*val, out);
            },
            Expr::BoolLiteral(val) => {
                self.fmt_bool_literal(*val, out);
            },
            Expr::StringLiteral(val) => {
                self.fmt_string_literal(val, out);
            },
            Expr::PrefixExpr { op, right } => {
                self.fmt_prefix_expr(*op, right, out, Ghost(*expr));
            },
            Expr::InfixExpr { left, right, op } => {
                self.fmt_infix_expr(left, right, *op, precedence, out, Ghost(*expr));
            },
            Expr::If { condition, consequence, alternative } => {
                self.fmt_if_expr(condition, consequence, alternative, out, Ghost(*expr));
            },
            Expr::Func { params, body } => {
                self.fmt_func_literal(params, body, out, Ghost(*expr));
            },
            Expr::Call { callee, args } => {
                self.fmt_call_expr(callee, args, out, Ghost(*expr));
            },
            Expr::Array { elements } => {
                self.fmt_array_literal(elements, out, Ghost(*expr));
            },
            Expr::IndexExpr { left, index } => {
                self.fmt_index_expr_literal(left, index, out, Ghost(*expr));
            },
            Expr::HashLiteral { pairs } => {
                self.fmt_hash_literal(pairs, out, Ghost(*expr));
            },
        }
    }

    fn fmt_prefix_expr(&self, op: Prefix, right: &Expr, out: &mut String, Ghost(whole): Ghost<Expr>)
        requires
            decreases_to!(whole => right),
        ensures
            final(out)@ == old(out)@ + fmt_expr_text(
                ExprView::PrefixExpr { op, right: Box::new(right@) },
                Precedence::Lowest,
            ),
        decreases whole, 0int,
    {
        out.append(op.as_str());
        self.fmt_expr(right, Precedence::Prefix, out);
        proof {
            assert(final(out)@ =~= old(out)@ + fmt_expr_text(
                ExprView::PrefixExpr { op, right: Box::new(right@) },
                Precedence::Lowest,
            ));
        }
    }

    fn fmt_infix_expr(
        &self,
        left: &Expr,
        right: &Expr,
        op: Infix,
        precedence: Precedence,
        out: &mut String,
        Ghost(whole): Ghost<Expr>,
    )
        requires
            decreases_to!(whole => left),
            decreases_to!(whole => right),
        ensures
            final(out)@ == old(out)@ + fmt_expr_text(
                ExprView::InfixExpr { left: Box::new(left@), right: Box::new(right@), op },
                precedence,
            ),
        decreases whole, 0int,
    {
        let cur_precedence = Formatter::infix_to_precedence(&op);
        let mut inner = String::new();
        self.fmt_expr(left, cur_precedence, &mut inner);
        inner.append(" ");
        inner.append(op.as_str());
        inner.append(" ");
        self.fmt_expr(right, cur_precedence, &mut inner);
        proof {
            assert(inner@ =~= fmt_expr_text(left@, cur_precedence) + " "@ + op.symbol() + " "@
                + fmt_expr_text(right@, cur_precedence));
        }
        if cur_precedence.binds_looser_than(&precedence) {
            out.append("(");
            out.append(inner.as_str());
            out.append(")");
            proof {
                assert(final(out)@ =~= old(out)@ + ("("@ + inner@ + ")"@));
            }
        } else {
            out.append(inner.as_str());
        }
    }

    fn fmt_if_expr(
        &self,
        cond: &Expr,
        cons: &Stmt,
        alt: &Option<Box<Stmt>>,
        out: &mut String,
        Ghost(whole): Ghost<Expr>,
    )
        requires
            decreases_to!(whole => cond),
            decreases_to!(whole => cons),
            alt matches Some(a) ==> decreases_to!(whole => a),
        ensures
            final(out)@ == old(out)@ + fmt_expr_text(
                ExprView::If {
                    condition: Box::new(cond@),
                    consequence: Box::new(cons@),
                    alternative: match alt {
                        Some(a) => Some(Box::new(a@)),
                        None => None,
                    },
                },
                Precedence::Lowest,
            ),
        decreases whole, 0int,
    {
        out.append("if(");
        self.fmt_expr(cond, Precedence::Lowest, out);
        out.append(") {\n");
        self.fmt_stmt(cons, out);
        match alt {
            Some(alt) => {
                out.append("\n} else {\n");
                self.fmt_stmt(alt, out);
                out.append("\n}");
            },
            None => {
                out.append("\n}");
            },
        }
        proof {
            assert(final(out)@ =~= old(out)@ + fmt_expr_text(
                ExprView::If {
                    condition: Box::new(cond@),
                    consequence: Box::new(cons@),
                    alternative: match alt {
                        Some(a) => Some(Box::new(a@)),
                        None => None,
                    },
                },
                Precedence::Lowest,
            ));
        }
    }

    fn fmt_func_literal(
        &self,
        params: &Vec<Expr>,
        body: &Stmt,
        out: &mut String,
        Ghost(whole): Ghost<Expr>,
    )
        requires
            decreases_to!(whole => params),
            decreases_to!(whole => body),
        ensures
            final(out)@ == old(out)@ + fmt_expr_text(
                ExprView::Func { params: exprs_view(params@), body: Box::new(body@) },
                Precedence::Lowest,
            ),
        decreases whole, 0int,
    {
        out.append("fn(");
        self.fmt_exprs(params, out);
        out.append(") {\n");
        self.fmt_stmt(body, out);
        out.append("\n}");
        proof {
            assert(final(out)@ =~= old(out)@ + fmt_expr_text(
                ExprView::Func { params: exprs_view(params@), body: Box::new(body@) },
                Precedence::Lowest,
            ));
        }
    }

    fn fmt_array_literal(&self, elements: &Vec<Expr>, out: &mut String, Ghost(whole): Ghost<Expr>)
        requires
            decreases_to!(whole => elements),
        ensures
            final(out)@ == old(out)@ + fmt_expr_text(
                ExprView::Array { elements: exprs_view(elements@) },
                Precedence::Lowest,
            ),
        decreases whole, 0int,
    {
        out.append("[");
        self.fmt_exprs(elements, out);
        out.append("]");
        proof {
            assert(final(out)@ =~= old(out)@ + fmt_expr_text(
                ExprView::Array { elements: exprs_view(elements@) },
                Precedence::Lowest,
            ));
        }
    }

    fn fmt_index_expr_literal(
        &self,
        left: &Expr,
        index: &Expr,
        out: &mut String,
        Ghost(whole): Ghost<Expr>,
    )
        requires
            decreases_to!(whole => left),
            decreases_to!(whole => index),
        ensures
            final(out)@ == old(out)@ + fmt_expr_text(
                ExprView::IndexExpr { left: Box::new(left@), index: Box::new(index@) },
                Precedence::Lowest,
            ),
        decreases whole, 0int,
    {
        self.fmt_expr(left, Precedence::Lowest, out);
        out.append("[");
        self.fmt_expr(index, Precedence::Lowest, out);
        out.append("]");
        proof {
            assert(final(out)@ =~= old(out)@ + fmt_expr_text(
                ExprView::IndexExpr { left: Box::new(left@), index: Box::new(index@) },
                Precedence::Lowest,
            ));
        }
    }

    fn fmt_call_expr(
        &self,
        callee: &Expr,
        args: &Vec<Expr>,
        out: &mut String,
        Ghost(whole): Ghost<Expr>,
    )
        requires
            decreases_to!(whole => callee),
            decreases_to!(whole => args),
        ensures
            final(out)@ == old(out)@ + fmt_expr_text(
                ExprView::Call { callee: Box::new(callee@), args: exprs_view(args@) },
                Precedence::Lowest,
            ),
        decreases whole, 0int,
    {
        self.fmt_expr(callee, Precedence::Lowest, out);
        out.append("(");
        self.fmt_exprs(args, out);
        out.append(")");
        proof {
            assert(final(out)@ =~= old(out)@ + fmt_expr_text(
                ExprView::Call { callee: Box::new(callee@), args: exprs_view(args@) },
                Precedence::Lowest,
            ));
        }
    }

    fn fmt_hash_literal(
        &self,
        pairs: &Vec<(Expr, Expr)>,
        out: &mut String,
        Ghost(whole): Ghost<Expr>,
    )
        requires
            decreases_to!(whole => pairs),
        ensures
            final(out)@ == old(out)@ + fmt_expr_text(
                ExprView::HashLiteral { pairs: pairs_view(pairs@) },
                Precedence::Lowest,
            ),
        decreases whole, 0int,
    {
        out.append("{");
        let ghost base = out@;
        let ghost texts = fmt_pair_texts(pairs_view(pairs@));
        let mut i: usize = 0;
        while i < pairs.len()
            invariant
                i <= pairs.len(),
                decreases_to!(whole => pairs),
                texts == fmt_pair_texts(pairs_view(pairs@)),
                out@ == base + join(texts.take(i as int), ", "@),
            decreases pairs.len() - i,
        {
            proof {
                assert(decreases_to!(*pairs => pairs[i as int]));
                assert(decreases_to!(pairs[i as int] => pairs[i as int].0));
                assert(decreases_to!(pairs[i as int] => pairs[i as int].1));
            }
            if i > 0 {
                out.append(", ");
            }
            self.fmt_expr(&pairs[i].0, Precedence::Lowest, out);
            out.append(": ");
            self.fmt_expr(&pairs[i].1, Precedence::Lowest, out);
            proof {
                let item = texts[i as int];
                assert(item == fmt_expr_text(pairs[i as int].0@, Precedence::Lowest) + ": "@
                    + fmt_expr_text(pairs[i as int].1@, Precedence::Lowest));
                assert(texts.take(i + 1) =~= texts.take(i as int).push(item));
                lemma_join_push(texts.take(i as int), ", "@, item);
                assert(out@ =~= base + join(texts.take(i + 1), ", "@));
            }
            i += 1;
        }
        proof {
            assert(texts.take(i as int) =~= texts);
        }
        out.append("}");
        proof {
            assert(final(out)@ =~= old(out)@ + fmt_expr_text(
                ExprView::HashLiteral { pairs: pairs_view(pairs@) },
                Precedence::Lowest,
            ));
        }
    }

    fn fmt_exprs(&self, es: &Vec<Expr>, out: &mut String)
        ensures
            final(out)@ == old(out)@ + join(fmt_expr_texts(exprs_view(es@)), ", "@),
        decreases es, 1int,
    {
        let ghost base = out@;
        let ghost texts = fmt_expr_texts(exprs_view(es@));
        let mut i: usize = 0;
        while i < es.len()
            invariant
                i <= es.len(),
                texts == fmt_expr_texts(exprs_view(es@)),
                out@ == base + join(texts.take(i as int), ", "@),
            decreases es.len() - i,
        {
            proof {
                assert(decreases_to!(*es => es[i as int]));
            }
            if i > 0 {
                out.append(", ");
            }
            self.fmt_expr(&es[i], Precedence::Lowest, out);
            proof {
                let item = texts[i as int];
                assert(item == fmt_expr_text(es[i as int]@, Precedence::Lowest));
                assert(texts.take(i + 1) =~= texts.take(i as int).push(item));
                lemma_join_push(texts.take(i as int), ", "@, item);
                assert(out@ =~= base + join(texts.take(i + 1), ", "@));
            }
            i += 1;
        }
        proof {
            assert(texts.take(i as int) =~= texts);
        }
    }

    fn fmt_ident_expr(&self, name: &String, out: &mut String)
        ensures
            final(out)@ == old(out)@ + name@,
    {
        out.append(name.as_str());
    }

    fn infix_to_precedence(op: &Infix) -> (p: Precedence)
        ensures
            p == infix_precedence(*op),
    {
        match op {
            Infix::Plus => Precedence::Sum,
            Infix::Minus => Precedence::Sum,
            Infix::Asterisk => Precedence::Product,
            Infix::Slash => Precedence::Product,
            Infix::Lt => Precedence::LessGreater,
            Infix::Gt => Precedence::LessGreater,
            Infix::Eq => Precedence::Equals,
            Infix::NotEq => Precedence::Equals,
        }
    }

    fn fmt_int_literal(&self, val: i64, out: &mut String)
        ensures
            final(out)@ == old(out)@ + int_decimal(val as int),
    {
        push_i64(out, val);
    }

    fn fmt_bool_literal(&self, val: bool, out: &mut String)
        ensures
            final(out)@ == old(out)@ + bool_text(val),
    {
        push_bool(out, val);
    }

    fn fmt_string_literal(&self, val: &String, out: &mut String)
        ensures
            final(out)@ == old(out)@ + ("\""@ + val@ + "\""@),
    {
        out.append("\"");
        out.append(val.as_str());
        out.append("\"");
        proof {
            assert(out@ =~= old(out)@ + ("\""@ + val@ + "\""@));
        }
    }
}

} // verus!
