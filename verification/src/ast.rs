//! The syntax tree: programs, statements and expressions, and their
//! reproduction as text.
use vstd::prelude::*;
use vstd::string::*;
use crate::operator::{Infix, Prefix};
use crate::text::{bool_text, int_decimal, join, lemma_join_push, push_bool, push_i64};

verus! {

/// A parsed program: its statements in source order.
#[derive(Debug)]
pub struct Program {
    pub stmts: Vec<Stmt>,
}

/// A statement.
#[derive(Debug, Hash, PartialEq, Eq)]
pub enum Stmt {
    LetStmt { name: Expr, value: Expr },
    ReturnStmt(Expr),
    ExprStmt(Expr),
    BlockStmt { stmts: Vec<Stmt> },
}

/// An expression.
#[derive(Debug, Hash, PartialEq, Eq)]
#[allow(inconsistent_fields)]
pub enum Expr {
    Ident(String),
    IntLiteral(i64),
    BoolLiteral(bool),
    StringLiteral(String),
    If { condition: Box<Expr>, consequence: Box<Stmt>, alternative: Option<Box<Stmt>> },
    PrefixExpr { op: Prefix, right: Box<Expr> },
    InfixExpr { left: Box<Expr>, right: Box<Expr>, op: Infix },
    Func { params: Vec<Expr>, body: Box<Stmt> },
    Call { callee: Box<Expr>, args: Vec<Expr> },
    Array { elements: Vec<Expr> },
    IndexExpr { left: Box<Expr>, index: Box<Expr> },
    HashLiteral { pairs: Vec<(Expr, Expr)> },
}

/// The mathematical value of a [`Stmt`].
pub enum StmtView {
    LetStmt { name: ExprView, value: ExprView },
    ReturnStmt(ExprView),
    ExprStmt(ExprView),
    BlockStmt { stmts: Seq<StmtView> },
}

/// The mathematical value of an [`Expr`].
#[allow(inconsistent_fields)]
pub enum ExprView {
    Ident(Seq<char>),
    IntLiteral(i64),
    BoolLiteral(bool),
    StringLiteral(Seq<char>),
    If { condition: Box<ExprView>, consequence: Box<StmtView>, alternative: Option<Box<StmtView>> },
    PrefixExpr { op: Prefix, right: Box<ExprView> },
    InfixExpr { left: Box<ExprView>, right: Box<ExprView>, op: Infix },
    Func { params: Seq<ExprView>, body: Box<StmtView> },
    Call { callee: Box<ExprView>, args: Seq<ExprView> },
    Array { elements: Seq<ExprView> },
    IndexExpr { left: Box<ExprView>, index: Box<ExprView> },
    HashLiteral { pairs: Seq<(ExprView, ExprView)> },
}

/// The value of an expression.
pub open spec fn expr_view(e: Expr) -> ExprView
    decreases e,
{
    match e {
        Expr::Ident(s) => ExprView::Ident(s@),
        Expr::IntLiteral(v) => ExprView::IntLiteral(v),
        Expr::BoolLiteral(b) => ExprView::BoolLiteral(b),
        Expr::StringLiteral(s) => ExprView::StringLiteral(s@),
        Expr::If { condition, consequence, alternative } => ExprView::If {
            condition: Box::new(expr_view(*condition)),
            consequence: Box::new(stmt_view(*consequence)),
            alternative: match alternative {
                Some(alt) => Some(Box::new(stmt_view(*alt))),
                None => None,
            },
        },
        Expr::PrefixExpr { op, right } => ExprView::PrefixExpr {
            op,
            right: Box::new(expr_view(*right)),
        },
        Expr::InfixExpr { left, right, op } => ExprView::InfixExpr {
            left: Box::new(expr_view(*left)),
            right: Box::new(expr_view(*right)),
            op,
        },
        Expr::Func { params, body } => ExprView::Func {
            params: Seq::new(
                params.len() as nat,
                |i: int|
                    if 0 <= i < params.len() {
                        expr_view(params[i])
                    } else {
                        ExprView::BoolLiteral(false)
                    },
            ),
            body: Box::new(stmt_view(*body)),
        },
        Expr::Call { callee, args } => ExprView::Call {
            callee: Box::new(expr_view(*callee)),
            args: Seq::new(
                args.len() as nat,
                |i: int|
                    if 0 <= i < args.len() {
                        expr_view(args[i])
                    } else {
                        ExprView::BoolLiteral(false)
                    },
            ),
        },
        Expr::Array { elements } => ExprView::Array {
            elements: Seq::new(
                elements.len() as nat,
                |i: int|
                    if 0 <= i < elements.len() {
                        expr_view(elements[i])
                    } else {
                        ExprView::BoolLiteral(false)
                    },
            ),
        },
        Expr::IndexExpr { left, index } => ExprView::IndexExpr {
            left: Box::new(expr_view(*left)),
            index: Box::new(expr_view(*index)),
        },
        Expr::HashLiteral { pairs } => ExprView::HashLiteral {
            pairs: Seq::new(
                pairs.len() as nat,
                |i: int|
                    if 0 <= i < pairs.len() {
                        (expr_view(pairs[i].0), expr_view(pairs[i].1))
                    } else {
                        (ExprView::BoolLiteral(false), ExprView::BoolLiteral(false))
                    },
            ),
        },
    }
}

/// The value of a statement.
pub open spec fn stmt_view(s: Stmt) -> StmtView
    decreases s,
{
    match s {
        Stmt::LetStmt { name, value } => StmtView::LetStmt {
            name: expr_view(name),
            value: expr_view(value),
        },
        Stmt::ReturnStmt(e) => StmtView::ReturnStmt(expr_view(e)),
        Stmt::ExprStmt(e) => StmtView::ExprStmt(expr_view(e)),
        Stmt::BlockStmt { stmts } => StmtView::BlockStmt {
            stmts: Seq::new(
                stmts.len() as nat,
                |i: int|
                    if 0 <= i < stmts.len() {
                        stmt_view(stmts[i])
                    } else {
                        StmtView::ExprStmt(ExprView::BoolLiteral(false))
                    },
            ),
        },
    }
}

impl View for Expr {
    type V = ExprView;

    open spec fn view(&self) -> ExprView {
        expr_view(*self)
    }
}

impl View for Stmt {
    type V = StmtView;

    open spec fn view(&self) -> StmtView {
        stmt_view(*self)
    }
}

/// The values of a sequence of expressions.
pub open spec fn exprs_view(es: Seq<Expr>) -> Seq<ExprView> {
    Seq::new(es.len(), |i: int| expr_view(es[i]))
}

/// The values of a sequence of statements.
pub open spec fn stmts_view(ss: Seq<Stmt>) -> Seq<StmtView> {
    Seq::new(ss.len(), |i: int| stmt_view(ss[i]))
}

/// The values of a sequence of key and value expressions.
pub open spec fn pairs_view(ps: Seq<(Expr, Expr)>) -> Seq<(ExprView, ExprView)> {
    Seq::new(ps.len(), |i: int| (expr_view(ps[i].0), expr_view(ps[i].1)))
}

impl View for Program {
    type V = Seq<StmtView>;

    open spec fn view(&self) -> Seq<StmtView> {
        stmts_view(self.stmts@)
    }
}

/// The view of an expression with a list of children is built from the
/// views of the children.
pub proof fn lemma_expr_view_lists(e: Expr)
    ensures
        e matches Expr::Func { params, body } ==> e@ == (ExprView::Func {
            params: exprs_view(params@),
            body: Box::new(body@),
        }),
        e matches Expr::Call { callee, args } ==> e@ == (ExprView::Call {
            callee: Box::new(callee@),
            args: exprs_view(args@),
        }),
        e matches Expr::Array { elements } ==> e@ == (ExprView::Array {
            elements: exprs_view(elements@),
        }),
        e matches Expr::HashLiteral { pairs } ==> e@ == (ExprView::HashLiteral {
            pairs: pairs_view(pairs@),
        }),
{
    match e {
        Expr::Func { params, body } => {
            assert(e@->Func_params =~= exprs_view(params@));
        },
        Expr::Call { callee, args } => {
            assert(e@->Call_args =~= exprs_view(args@));
        },
        Expr::Array { elements } => {
            assert(e@->Array_elements =~= exprs_view(elements@));
        },
        Expr::HashLiteral { pairs } => {
            assert(e@->HashLiteral_pairs =~= pairs_view(pairs@));
        },
        _ => {},
    }
}

/// The view of a block is built from the views of its statements.
pub proof fn lemma_stmt_view_block(s: Stmt)
    ensures
        s matches Stmt::BlockStmt { stmts } ==> s@ == (StmtView::BlockStmt {
            stmts: stmts_view(stmts@),
        }),
{
    match s {
        Stmt::BlockStmt { stmts } => {
            assert(s@->BlockStmt_stmts =~= stmts_view(stmts@));
        },
        _ => {},
    }
}

/// An expression as fully parenthesized text.
pub open spec fn expr_text(e: ExprView) -> Seq<char>
    decreases e,
{
    match e {
        ExprView::Ident(v) => v,
        ExprView::IntLiteral(v) => int_decimal(v as int),
        ExprView::BoolLiteral(b) => bool_text(b),
        ExprView::StringLiteral(v) => "\""@ + v + "\""@,
        ExprView::If { condition, consequence, alternative } => match alternative {
            Some(alt) => "if("@ + expr_text(*condition) + "){"@ + stmt_text(*consequence)
                + "}else{"@ + stmt_text(*alt) + "}"@,
            None => "if("@ + expr_text(*condition) + "){"@ + stmt_text(*consequence) + "}"@,
        },
        ExprView::PrefixExpr { op, right } => "("@ + op.symbol() + expr_text(*right) + ")"@,
        ExprView::InfixExpr { left, right, op } => "("@ + expr_text(*left) + " "@ + op.symbol()
            + " "@ + expr_text(*right) + ")"@,
        ExprView::Func { params, body } => "fn("@ + join(expr_texts(params), ", "@) + "){"@
            + stmt_text(*body) + "}"@,
        ExprView::Call { callee, args } => expr_text(*callee) + "("@ + join(
            expr_texts(args),
            ", "@,
        ) + ")"@,
        ExprView::Array { elements } => "["@ + join(expr_texts(elements), ", "@) + "]"@,
        ExprView::IndexExpr { left, index } => "("@ + expr_text(*left) + "["@ + expr_text(*index)
            + "])"@,
        ExprView::HashLiteral { pairs } => "{"@ + join(pair_texts(pairs), ", "@) + "}"@,
    }
}

/// The texts of a sequence of expressions.
pub open spec fn expr_texts(es: Seq<ExprView>) -> Seq<Seq<char>>
    decreases es,
{
    Seq::new(
        es.len(),
        |i: int|
            if 0 <= i < es.len() {
                expr_text(es[i])
            } else {
                Seq::empty()
            },
    )
}

/// The texts `key: value` of a sequence of pairs.
pub open spec fn pair_texts(ps: Seq<(ExprView, ExprView)>) -> Seq<Seq<char>>
    decreases ps,
{
    Seq::new(
        ps.len(),
        |i: int|
            if 0 <= i < ps.len() {
                expr_text(ps[i].0) + ": "@ + expr_text(ps[i].1)
            } else {
                Seq::empty()
            },
    )
}

/// A statement as text, without a closing semicolon.
pub open spec fn stmt_text(s: StmtView) -> Seq<char>
    decreases s,
{
    match s {
        StmtView::LetStmt { name, value } => "let "@ + expr_text(name) + " = "@ + expr_text(value),
        StmtView::ReturnStmt(value) => "return "@ + expr_text(value),
        StmtView::ExprStmt(e) => expr_text(e),
        StmtView::BlockStmt { stmts } => join(stmt_texts(stmts), "\n"@),
    }
}

/// The texts of a sequence of statements.
pub open spec fn stmt_texts(ss: Seq<StmtView>) -> Seq<Seq<char>>
    decreases ss,
{
    Seq::new(
        ss.len(),
        |i: int|
            if 0 <= i < ss.len() {
                stmt_text(ss[i])
            } else {
                Seq::empty()
            },
    )
}

/// A copy of an expression.
pub fn clone_expr(e: &Expr) -> (r: Expr)
    ensures
        r@ == e@,
    decreases e,
{
    match e {
        Expr::Ident(s) => Expr::Ident(s.clone()),
        Expr::IntLiteral(v) => Expr::IntLiteral(*v),
        Expr::BoolLiteral(b) => Expr::BoolLiteral(*b),
        Expr::StringLiteral(s) => Expr::StringLiteral(s.clone()),
        Expr::If { condition, consequence, alternative } => {
            let alt = match alternative {
                Some(a) => Some(Box::new(clone_stmt(a))),
                None => None,
            };
            Expr::If {
                condition: Box::new(clone_expr(condition)),
                consequence: Box::new(clone_stmt(consequence)),
                alternative: alt,
            }
        },
        Expr::PrefixExpr { op, right } => Expr::PrefixExpr {
            op: *op,
            right: Box::new(clone_expr(right)),
        },
        Expr::InfixExpr { left, right, op } => Expr::InfixExpr {
            left: Box::new(clone_expr(left)),
            right: Box::new(clone_expr(right)),
            op: *op,
        },
        Expr::Func { params, body } => {
            let r = Expr::Func { params: clone_exprs(params), body: Box::new(clone_stmt(body)) };
            proof {
                lemma_expr_view_lists(r);
                lemma_expr_view_lists(*e);
            }
            r
        },
        Expr::Call { callee, args } => {
            let r = Expr::Call { callee: Box::new(clone_expr(callee)), args: clone_exprs(args) };
            proof {
                lemma_expr_view_lists(r);
                lemma_expr_view_lists(*e);
            }
            r
        },
        Expr::Array { elements } => {
            let r = Expr::Array { elements: clone_exprs(elements) };
            proof {
                lemma_expr_view_lists(r);
                lemma_expr_view_lists(*e);
            }
            r
        },
        Expr::IndexExpr { left, index } => Expr::IndexExpr {
            left: Box::new(clone_expr(left)),
            index: Box::new(clone_expr(index)),
        },
        Expr::HashLiteral { pairs } => {
            let mut out: Vec<(Expr, Expr)> = Vec::new();
            let mut i: usize = 0;
            while i < pairs.len()
                invariant
                    i <= pairs.len(),
                    decreases_to!(*e => *pairs),
                    out.len() == i,
                    forall|j: int|
                        0 <= j < i ==> out[j].0@ == pairs[j].0@ && out[j].1@ == pairs[j].1@,
                decreases pairs.len() - i,
            {
                proof {
                    assert(decreases_to!(*pairs => pairs[i as int]));
                    assert(decreases_to!(pairs[i as int] => pairs[i as int].0));
                    assert(decreases_to!(pairs[i as int] => pairs[i as int].1));
                }
                let k = clone_expr(&pairs[i].0);
                let v = clone_expr(&pairs[i].1);
                out.push((k, v));
                i += 1;
            }
            let r = Expr::HashLiteral { pairs: out };
            proof {
                lemma_expr_view_lists(r);
                lemma_expr_view_lists(*e);
                assert(pairs_view(out@) =~= pairs_view(pairs@));
            }
            r
        },
    }
}

/// A copy of a list of expressions.
pub fn clone_exprs(es: &Vec<Expr>) -> (r: Vec<Expr>)
    ensures
        exprs_view(r@) == exprs_view(es@),
    decreases es,
{
    let mut out: Vec<Expr> = Vec::new();
    let mut i: usize = 0;
    while i < es.len()
        invariant
            i <= es.len(),
            out.len() == i,
            forall|j: int| 0 <= j < i ==> out[j]@ == es[j]@,
        decreases es.len() - i,
    {
        proof {
            assert(decreases_to!(*es => es[i as int]));
        }
        out.push(clone_expr(&es[i]));
        i += 1;
    }
    proof {
        assert(exprs_view(out@) =~= exprs_view(es@));
    }
    out
}

/// A copy of a statement.
pub fn clone_stmt(s: &Stmt) -> (r: Stmt)
    ensures
        r@ == s@,
    decreases s,
{
    match s {
        Stmt::LetStmt { name, value } => Stmt::LetStmt {
            name: clone_expr(name),
            value: clone_expr(value),
        },
        Stmt::ReturnStmt(e) => Stmt::ReturnStmt(clone_expr(e)),
        Stmt::ExprStmt(e) => Stmt::ExprStmt(clone_expr(e)),
        Stmt::BlockStmt { stmts } => {
            let mut out: Vec<Stmt> = Vec::new();
            let mut i: usize = 0;
            while i < stmts.len()
                invariant
                    i <= stmts.len(),
                    decreases_to!(*s => *stmts),
                    out.len() == i,
                    forall|j: int| 0 <= j < i ==> out[j]@ == stmts[j]@,
                decreases stmts.len() - i,
            {
                proof {
                    assert(decreases_to!(*stmts => stmts[i as int]));
                }
                out.push(clone_stmt(&stmts[i]));
                i += 1;
            }
            let r = Stmt::BlockStmt { stmts: out };
            proof {
                lemma_stmt_view_block(r);
                lemma_stmt_view_block(*s);
                assert(stmts_view(out@) =~= stmts_view(stmts@));
            }
            r
        },
    }
}

impl Clone for Expr {
    fn clone(&self) -> (r: Expr)
        ensures
            r@ == self@,
    {
        clone_expr(self)
    }
}

impl Clone for Stmt {
    fn clone(&self) -> (r: Stmt)
        ensures
            r@ == self@,
    {
        clone_stmt(self)
    }
}

/// Appends the text of an expression to `out`.
pub fn write_expr(e: &Expr, out: &mut String)
    ensures
        final(out)@ == old(out)@ + expr_text(e@),
    decreases e,
{
    match e {
        Expr::Ident(val) => {
            out.append(val.as_str());
        },
        Expr::IntLiteral(val) => {
            push_i64(out, *val);
        },
        Expr::BoolLiteral(val) => {
            push_bool(out, *val);
        },
        Expr::StringLiteral(val) => {
            out.append("\"");
            out.append(val.as_str());
            out.append("\"");
        },
        Expr::If { condition, consequence, alternative } => {
            out.append("if(");
            write_expr(condition, out);
            out.append("){");
            write_stmt(consequence, out);
            match alternative {
                Some(alt) => {
                    out.append("}else{");
                    write_stmt(alt, out);
                    out.append("}");
                },
                None => {
                    out.append("}");
                },
            }
        },
        Expr::PrefixExpr { op, right } => {
            out.append("(");
            out.append(op.as_str());
            write_expr(right, out);
            out.append(")");
        },
        Expr::InfixExpr { left, right, op } => {
            out.append("(");
            write_expr(left, out);
            out.append(" ");
            out.append(op.as_str());
            out.append(" ");
            write_expr(right, out);
            out.append(")");
        },
        Expr::Func { params, body } => {
            proof {
                lemma_expr_view_lists(*e);
            }
            out.append("fn(");
            write_exprs(params, out);
            out.append("){");
            write_stmt(body, out);
            out.append("}");
        },
        Expr::Call { callee, args } => {
            proof {
                lemma_expr_view_lists(*e);
            }
            write_expr(callee, out);
            out.append("(");
            write_exprs(args, out);
            out.append(")");
        },
        Expr::Array { elements } => {
            proof {
                lemma_expr_view_lists(*e);
            }
            out.append("[");
            write_exprs(elements, out);
            out.append("]");
        },
        Expr::IndexExpr { left, index } => {
            out.append("(");
            write_expr(left, out);
            out.append("[");
            write_expr(index, out);
            out.append("])");
        },
        Expr::HashLiteral { pairs } => {
            proof {
                lemma_expr_view_lists(*e);
            }
            out.append("{");
            let ghost base = out@;
            let ghost texts = pair_texts(pairs_view(pairs@));
            let mut i: usize = 0;
            while i < pairs.len()
                invariant
                    i <= pairs.len(),
                    decreases_to!(*e => *pairs),
                    texts == pair_texts(pairs_view(pairs@)),
                    out@ == base + join(texts.take(i as int), ", "@),
                decreases pairs.len() - i,
            {
                proof {
                    assert(decreases_to!(*pairs => pairs[i as int]));
                    assert(decreases_to!(pairs[i as int] => pairs[i as int].0));
                    assert(decreases_to!(pairs[i as int] => pairs[i as int].1));
                }
                let ghost before = out@;
                if i > 0 {
                    out.append(", ");
                }
                write_expr(&pairs[i].0, out);
                out.append(": ");
                write_expr(&pairs[i].1, out);
                proof {
                    let item = texts[i as int];
                    assert(item == expr_text(pairs[i as int].0@) + ": "@ + expr_text(
                        pairs[i as int].1@,
                    ));
                    assert(texts.take(i + 1) =~= texts.take(i as int).push(item));
                    lemma_join_push(texts.take(i as int), ", "@, item);
                    assert(out@ =~= base + join(texts.take(i + 1), ", "@));
                }
                i += 1;
            }
            proof {
                assert(texts.take(i as int) =~= texts);
            }
            out.append("}");
        },
    }
    proof {
        assert(final(out)@ =~= old(out)@ + expr_text(e@));
    }
}

/// Appends the texts of `es`, separated by a comma and a space, to `out`.
pub fn write_exprs(es: &Vec<Expr>, out: &mut String)
    ensures
        final(out)@ == old(out)@ + join(expr_texts(exprs_view(es@)), ", "@),
    decreases es,
{
    let ghost base = out@;
    let ghost texts = expr_texts(exprs_view(es@));
    let mut i: usize = 0;
    while i < es.len()
        invariant
            i <= es.len(),
            texts == expr_texts(exprs_view(es@)),
            out@ == base + join(texts.take(i as int), ", "@),
        decreases es.len() - i,
    {
        proof {
            assert(decreases_to!(*es => es[i as int]));
        }
        if i > 0 {
            out.append(", ");
        }
        write_expr(&es[i], out);
        proof {
            let item = texts[i as int];
            assert(item == expr_text(es[i as int]@));
            assert(texts.take(i + 1) =~= texts.take(i as int).push(item));
            lemma_join_push(texts.take(i as int), ", "@, item);
            assert(out@ =~= base + join(texts.take(i + 1), ", "@));
        }
        i += 1;
    }
    proof {
        assert(texts.take(i as int) =~= texts);
    }
}

/// Appends the text of a statement to `out`.
pub fn write_stmt(s: &Stmt, out: &mut String)
    ensures
        final(out)@ == old(out)@ + stmt_text(s@),
    decreases s,
{
    match s {
        Stmt::LetStmt { name, value } => {
            out.append("let ");
            write_expr(name, out);
            out.append(" = ");
            write_expr(value, out);
        },
        Stmt::ReturnStmt(value) => {
            out.append("return ");
            write_expr(value, out);
        },
        Stmt::ExprStmt(e) => {
            write_expr(e, out);
        },
        Stmt::BlockStmt { stmts } => {
            proof {
                lemma_stmt_view_block(*s);
            }
            let ghost base = out@;
            let ghost texts = stmt_texts(stmts_view(stmts@));
            let mut i: usize = 0;
            while i < stmts.len()
                invariant
                    i <= stmts.len(),
                    decreases_to!(*s => *stmts),
                    texts == stmt_texts(stmts_view(stmts@)),
                    out@ == base + join(texts.take(i as int), "\n"@),
                decreases stmts.len() - i,
            {
                proof {
                    assert(decreases_to!(*stmts => stmts[i as int]));
                }
                if i > 0 {
                    out.append("\n");
                }
                write_stmt(&stmts[i], out);
                proof {
                    let item = texts[i as int];
                    assert(item == stmt_text(stmts[i as int]@));
                    assert(texts.take(i + 1) =~= texts.take(i as int).push(item));
                    lemma_join_push(texts.take(i as int), "\n"@, item);
                    assert(out@ =~= base + join(texts.take(i + 1), "\n"@));
                }
                i += 1;
            }
            proof {
                assert(texts.take(i as int) =~= texts);
            }
        },
    }
    proof {
        assert(final(out)@ =~= old(out)@ + stmt_text(s@));
    }
}

impl Program {
    /// A program of the given statements.
    pub fn new(stmts: Vec<Stmt>) -> (p: Program)
        ensures
            p.stmts == stmts,
    {
        Program { stmts }
    }
}

impl Expr {
    /// The expression as fully parenthesized text.
    pub fn to_string(&self) -> (r: String)
        ensures
            r@ == expr_text(self@),
    {
        let mut out = String::new();
        write_expr(self, &mut out);
        proof {
            assert(out@ =~= expr_text(self@));
        }
        out
    }
}

impl Stmt {
    /// The statement as text, without a closing semicolon.
    pub fn to_string(&self) -> (r: String)
        ensures
            r@ == stmt_text(self@),
    {
        let mut out = String::new();
        write_stmt(self, &mut out);
        proof {
            assert(out@ =~= stmt_text(self@));
        }
        out
    }
}

} // verus!
