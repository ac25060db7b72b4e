//! The grammar of the language, as a function from the parser's state to
//! the syntax tree it reads and the state it ends in.
//!
//! The state is the current token, the token after it, and the position in
//! the text from which further tokens are read. Expressions are read by
//! precedence climbing. The first error ends the parse.
use vstd::prelude::*;
use crate::ast::{ExprView, StmtView};
use crate::error::ErrorView;
use crate::lexer::{lemma_next_token_progress, spec_next_token};
use crate::operator::{Infix, Prefix};
use crate::precedence::Precedence;
use crate::token::TokenView;

verus! {

/// The state of a parse.
pub struct ParserView {
    pub cur: TokenView,
    pub peek: TokenView,
    pub input: Seq<char>,
    pub pos: int,
}

/// What a token counts for in the distance to the end of the text.
pub open spec fn token_weight(t: TokenView) -> nat {
    if t == TokenView::Eof {
        0
    } else {
        1
    }
}

impl ParserView {
    /// The state after one token has been taken.
    pub open spec fn advance(self) -> ParserView {
        let (tok, next) = spec_next_token(self.input, self.pos);
        ParserView { cur: self.peek, peek: tok, input: self.input, pos: next }
    }

    /// The state after a semicolon that may follow has been taken.
    pub open spec fn skip_semicolon(self) -> ParserView {
        if self.peek == TokenView::Semicolon {
            self.advance()
        } else {
            self
        }
    }

    /// The number of characters that are still to be read.
    pub open spec fn unread(self) -> nat {
        if self.pos <= self.input.len() {
            (self.input.len() - self.pos) as nat
        } else {
            0
        }
    }

    /// The distance to the end of the text: an upper bound on the number of
    /// tokens, other than `Eof`, that are still to be taken.
    pub open spec fn weight(self) -> nat {
        token_weight(self.cur) + token_weight(self.peek) + self.unread()
    }

    /// `self` is where a parse that began in `before` may stand: in the
    /// same state, or nearer to the end of the text.
    pub open spec fn follows(self, before: ParserView) -> bool {
        self == before || self.weight() < before.weight()
    }
}

/// Taking a token never leads away from the end of the text, and taking a
/// token other than `Eof` leads nearer to it.
pub proof fn lemma_advance(st: ParserView)
    ensures
        st.advance().weight() + token_weight(st.cur) <= st.weight(),
        st.advance().input == st.input,
{
    if 0 <= st.pos <= st.input.len() {
        lemma_next_token_progress(st.input, st.pos);
    }
}

/// The state in which a parse of `input` begins, with the lexer at `pos`:
/// the first two tokens have been read.
pub open spec fn sp_start(input: Seq<char>, pos: int) -> ParserView {
    (ParserView {
        cur: TokenView::Illegal,
        peek: TokenView::Illegal,
        input,
        pos,
    }).advance().advance()
}

/// The error of a parse that stopped moving through the text. No text gives
/// it: every step of the grammar either ends or takes a token.
pub open spec fn stalled() -> ErrorView {
    ErrorView::Custom("parser made no progress"@)
}

/// The error for a missing identifier.
pub open spec fn expected_ident(got: TokenView) -> ErrorView {
    ErrorView::UnexpectedToken { expected: TokenView::Ident("Ident"@), got }
}

/// The prefix operator that a token stands for.
pub open spec fn prefix_op(t: TokenView) -> Option<Prefix> {
    match t {
        TokenView::Minus => Some(Prefix::Minus),
        TokenView::Bang => Some(Prefix::Bang),
        _ => None,
    }
}

/// The infix operator that a token stands for.
pub open spec fn infix_op(t: TokenView) -> Option<Infix> {
    match t {
        TokenView::Eq => Some(Infix::Eq),
        TokenView::NotEq => Some(Infix::NotEq),
        TokenView::Lt => Some(Infix::Lt),
        TokenView::Gt => Some(Infix::Gt),
        TokenView::Plus => Some(Infix::Plus),
        TokenView::Minus => Some(Infix::Minus),
        TokenView::Slash => Some(Infix::Slash),
        TokenView::Asterisk => Some(Infix::Asterisk),
        _ => None,
    }
}

/// The parameter names after the first: each follows a comma, and a closing
/// parenthesis ends the list.
pub open spec fn sp_params_loop(st: ParserView, acc: Seq<ExprView>) -> Result<
    (Seq<ExprView>, ParserView),
    ErrorView,
>
    decreases st.weight(),
{
    if st.peek == TokenView::Comma {
        let st2 = st.advance().advance();
        proof {
            lemma_advance(st);
            lemma_advance(st.advance());
        }
        match st2.cur {
            TokenView::Ident(v) => sp_params_loop(st2, acc.push(ExprView::Ident(v))),
            other => Err(expected_ident(other)),
        }
    } else if st.peek == TokenView::RParen {
        Ok((acc, st.advance()))
    } else {
        Err(ErrorView::UnexpectedToken { expected: TokenView::RParen, got: st.peek })
    }
}

/// The parameter list of a function literal; the current token is its
/// opening parenthesis.
pub open spec fn sp_params(st: ParserView) -> Result<(Seq<ExprView>, ParserView), ErrorView> {
    if st.peek == TokenView::RParen {
        Ok((Seq::empty(), st.advance()))
    } else {
        let st1 = st.advance();
        match st1.cur {
            TokenView::Ident(v) => sp_params_loop(st1, seq![ExprView::Ident(v)]),
            other => Err(expected_ident(other)),
        }
    }
}

/// An expression whose operators all bind tighter than `prec`. The parse
/// ends with the last token of the expression as the current token.
pub open spec fn sp_expr(st: ParserView, prec: Precedence) -> Result<
    (ExprView, ParserView),
    ErrorView,
>
    decreases st.weight(), 5int,
{
    let first = match st.cur {
        TokenView::Ident(v) => Ok((ExprView::Ident(v), st)),
        TokenView::Int(v) => Ok((ExprView::IntLiteral(v), st)),
        TokenView::True => Ok((ExprView::BoolLiteral(true), st)),
        TokenView::False => Ok((ExprView::BoolLiteral(false), st)),
        TokenView::String(v) => Ok((ExprView::StringLiteral(v), st)),
        TokenView::Bang => sp_prefix(st),
        TokenView::Minus => sp_prefix(st),
        TokenView::LParen => sp_grouped(st),
        TokenView::If => sp_if(st),
        TokenView::Function => sp_func(st),
        TokenView::LBracket => sp_array(st),
        TokenView::LBrace => sp_hash(st),
        _ => Err(ErrorView::Custom("failed to parse expression"@)),
    };
    match first {
        Err(e) => Err(e),
        Ok((left, st1)) => if st1.weight() <= st.weight() {
            sp_infix_loop(st1, prec, left)
        } else {
            Err(stalled())
        },
    }
}

/// The operators, calls and indexings that follow `left` and bind tighter
/// than `prec`, each taking what was read so far as its left operand.
pub open spec fn sp_infix_loop(st: ParserView, prec: Precedence, left: ExprView) -> Result<
    (ExprView, ParserView),
    ErrorView,
>
    decreases st.weight(), 4int,
{
    if st.peek != TokenView::Semicolon && prec.level() < st.peek.precedence().level() {
        let st1 = st.advance();
        proof {
            lemma_advance(st);
        }
        let next = match st1.cur {
            TokenView::LParen => sp_call(st1, left),
            TokenView::LBracket => sp_index(st1, left),
            _ => sp_infix(st1, left),
        };
        match next {
            Err(e) => Err(e),
            Ok((e, st2)) => if st2.weight() < st.weight() {
                sp_infix_loop(st2, prec, e)
            } else {
                Err(stalled())
            },
        }
    } else {
        Ok((left, st))
    }
}

/// A prefix operator and its operand.
pub open spec fn sp_prefix(st: ParserView) -> Result<(ExprView, ParserView), ErrorView>
    decreases st.weight(), 3int,
{
    match prefix_op(st.cur) {
        None => Err(ErrorView::InvalidPrefix { got: st.cur }),
        Some(op) => {
            proof {
                lemma_advance(st);
            }
            match sp_expr(st.advance(), Precedence::Prefix) {
                Err(e) => Err(e),
                Ok((right, st1)) => Ok((ExprView::PrefixExpr { op, right: Box::new(right) }, st1)),
            }
        },
    }
}

/// An infix operator and its right operand.
pub open spec fn sp_infix(st: ParserView, left: ExprView) -> Result<
    (ExprView, ParserView),
    ErrorView,
>
    decreases st.weight(), 3int,
{
    match infix_op(st.cur) {
        None => Err(ErrorView::Custom("invalid for infix"@)),
        Some(op) => {
            proof {
                lemma_advance(st);
            }
            match sp_expr(st.advance(), st.cur.precedence()) {
                Err(e) => Err(e),
                Ok((right, st1)) => Ok(
                    (
                        ExprView::InfixExpr { left: Box::new(left), right: Box::new(right), op },
                        st1,
                    ),
                ),
            }
        },
    }
}

/// An expression in parentheses; the current token is the opening one.
pub open spec fn sp_grouped(st: ParserView) -> Result<(ExprView, ParserView), ErrorView>
    decreases st.weight(), 3int,
    when st.cur != TokenView::Eof
{
    proof {
        lemma_advance(st);
    }
    match sp_expr(st.advance(), Precedence::Lowest) {
        Err(e) => Err(e),
        Ok((e, st1)) => if st1.peek == TokenView::RParen {
            Ok((e, st1.advance()))
        } else {
            Err(ErrorView::UnexpectedToken { expected: TokenView::RParen, got: st1.peek })
        },
    }
}

/// A conditional; the current token is `if`.
pub open spec fn sp_if(st: ParserView) -> Result<(ExprView, ParserView), ErrorView>
    decreases st.weight(), 3int,
    when st.cur != TokenView::Eof
{
    if st.peek != TokenView::LParen {
        Err(ErrorView::UnexpectedToken { expected: TokenView::LParen, got: st.peek })
    } else {
        let st1 = st.advance().advance();
        proof {
            lemma_advance(st);
            lemma_advance(st.advance());
        }
        match sp_expr(st1, Precedence::Lowest) {
            Err(e) => Err(e),
            Ok((condition, st2)) => if st2.weight() > st1.weight() {
                Err(stalled())
            } else if st2.peek != TokenView::RParen {
                Err(ErrorView::UnexpectedToken { expected: TokenView::RParen, got: st2.peek })
            } else {
                proof {
                    lemma_advance(st2);
                    lemma_advance(st2.advance());
                }
                sp_if_branches(st2.advance().advance(), condition)
            },
        }
    }
}

/// The branches of a conditional with the given condition; the current
/// token is the opener of the first branch.
pub open spec fn sp_if_branches(st: ParserView, condition: ExprView) -> Result<
    (ExprView, ParserView),
    ErrorView,
>
    decreases st.weight(), 10int,
{
    match sp_block(st) {
        Err(e) => Err(e),
        Ok((consequence, st1)) => if st1.weight() > st.weight() {
            Err(stalled())
        } else if st1.peek == TokenView::Else {
            let st2 = st1.advance().advance();
            proof {
                lemma_advance(st1);
                lemma_advance(st1.advance());
            }
            match sp_block(st2) {
                Err(e) => Err(e),
                Ok((alt, st3)) => Ok(
                    (
                        ExprView::If {
                            condition: Box::new(condition),
                            consequence: Box::new(consequence),
                            alternative: Some(Box::new(alt)),
                        },
                        st3,
                    ),
                ),
            }
        } else {
            Ok(
                (
                    ExprView::If {
                        condition: Box::new(condition),
                        consequence: Box::new(consequence),
                        alternative: None,
                    },
                    st1,
                ),
            )
        },
    }
}

/// A function literal; the current token is `fn`.
pub open spec fn sp_func(st: ParserView) -> Result<(ExprView, ParserView), ErrorView>
    decreases st.weight(), 3int,
    when st.cur != TokenView::Eof
{
    if st.peek != TokenView::LParen {
        Err(ErrorView::UnexpectedToken { expected: TokenView::LParen, got: st.peek })
    } else {
        proof {
            lemma_advance(st);
        }
        match sp_params(st.advance()) {
            Err(e) => Err(e),
            Ok((params, st1)) => if st1.weight() > st.advance().weight() {
                Err(stalled())
            } else {
                proof {
                    lemma_advance(st1);
                }
                match sp_block(st1.advance()) {
                    Err(e) => Err(e),
                    Ok((body, st2)) => Ok((ExprView::Func { params, body: Box::new(body) }, st2)),
                }
            },
        }
    }
}

/// An array literal; the current token is its opening bracket.
pub open spec fn sp_array(st: ParserView) -> Result<(ExprView, ParserView), ErrorView>
    decreases st.weight(), 3int,
    when st.cur != TokenView::Eof
{
    match sp_list(st, TokenView::RBracket, true) {
        Err(e) => Err(e),
        Ok((elements, st1)) => Ok((ExprView::Array { elements }, st1)),
    }
}

/// A call of `left`; the current token is the opening parenthesis.
pub open spec fn sp_call(st: ParserView, left: ExprView) -> Result<
    (ExprView, ParserView),
    ErrorView,
>
    decreases st.weight(), 3int,
    when st.cur != TokenView::Eof
{
    match sp_list(st, TokenView::RParen, false) {
        Err(e) => Err(e),
        Ok((args, st1)) => Ok((ExprView::Call { callee: Box::new(left), args }, st1)),
    }
}

/// An indexing of `left`; the current token is the opening bracket.
pub open spec fn sp_index(st: ParserView, left: ExprView) -> Result<
    (ExprView, ParserView),
    ErrorView,
>
    decreases st.weight(), 3int,
    when st.cur != TokenView::Eof
{
    proof {
        lemma_advance(st);
    }
    match sp_expr(st.advance(), Precedence::Lowest) {
        Err(e) => Err(e),
        Ok((index, st1)) => if st1.peek == TokenView::RBracket {
            Ok(
                (
                    ExprView::IndexExpr { left: Box::new(left), index: Box::new(index) },
                    st1.advance(),
                ),
            )
        } else {
            Err(ErrorView::UnexpectedToken { expected: TokenView::RBracket, got: st1.cur })
        },
    }
}

/// A list of expressions separated by commas and closed by `end`; the
/// current token is the opener. Where `end` is missing, the error names the
/// current token if `report_cur` holds, and the token after it otherwise.
pub open spec fn sp_list(st: ParserView, end: TokenView, report_cur: bool) -> Result<
    (Seq<ExprView>, ParserView),
    ErrorView,
>
    decreases st.weight(), 2int,
    when st.cur != TokenView::Eof
{
    if st.peek == end {
        Ok((Seq::empty(), st.advance()))
    } else {
        proof {
            lemma_advance(st);
        }
        match sp_expr(st.advance(), Precedence::Lowest) {
            Err(e) => Err(e),
            Ok((first, st1)) => if st1.weight() > st.advance().weight() {
                Err(stalled())
            } else {
                sp_list_loop(st1, seq![first], end, report_cur)
            },
        }
    }
}

/// The items of a list after the first.
pub open spec fn sp_list_loop(
    st: ParserView,
    acc: Seq<ExprView>,
    end: TokenView,
    report_cur: bool,
) -> Result<(Seq<ExprView>, ParserView), ErrorView>
    decreases st.weight(), 1int,
{
    if st.peek == TokenView::Comma {
        let st2 = st.advance().advance();
        proof {
            lemma_advance(st);
            lemma_advance(st.advance());
        }
        match sp_expr(st2, Precedence::Lowest) {
            Err(e) => Err(e),
            Ok((item, st3)) => if st3.weight() > st2.weight() {
                Err(stalled())
            } else {
                sp_list_loop(st3, acc.push(item), end, report_cur)
            },
        }
    } else if st.peek == end {
        Ok((acc, st.advance()))
    } else {
        Err(
            ErrorView::UnexpectedToken {
                expected: end,
                got: if report_cur {
                    st.cur
                } else {
                    st.peek
                },
            },
        )
    }
}

/// A hash literal; the current token is its opening brace.
pub open spec fn sp_hash(st: ParserView) -> Result<(ExprView, ParserView), ErrorView>
    decreases st.weight(), 3int,
    when st.cur != TokenView::Eof
{
    sp_hash_loop(st, Seq::empty())
}

/// The pairs of a hash literal that follow the pairs `acc`; the current
/// token is the opening brace or the comma after the last pair.
pub open spec fn sp_hash_loop(st: ParserView, acc: Seq<(ExprView, ExprView)>) -> Result<
    (ExprView, ParserView),
    ErrorView,
>
    decreases st.weight(), 2int,
    when st.cur != TokenView::Eof
{
    if st.peek == TokenView::RBrace {
        Ok((ExprView::HashLiteral { pairs: acc }, st.advance()))
    } else {
        let st1 = st.advance();
        proof {
            lemma_advance(st);
        }
        match sp_expr(st1, Precedence::Lowest) {
            Err(e) => Err(e),
            Ok((key, st2)) => if st2.weight() > st1.weight() {
                Err(stalled())
            } else if st2.peek != TokenView::Colon {
                Err(ErrorView::UnexpectedToken { expected: TokenView::Colon, got: st2.cur })
            } else {
                let st3 = st2.advance().advance();
                proof {
                    lemma_advance(st2);
                    lemma_advance(st2.advance());
                }
                match sp_expr(st3, Precedence::Lowest) {
                    Err(e) => Err(e),
                    Ok((value, st4)) => if st4.weight() > st3.weight() {
                        Err(stalled())
                    } else if st4.peek == TokenView::RBrace {
                        Ok((ExprView::HashLiteral { pairs: acc.push((key, value)) }, st4.advance()))
                    } else if st4.peek == TokenView::Comma {
                        proof {
                            lemma_advance(st4);
                        }
                        sp_hash_loop(st4.advance(), acc.push((key, value)))
                    } else {
                        Err(ErrorView::UnexpectedToken { expected: TokenView::Comma, got: st4.cur })
                    },
                }
            },
        }
    }
}

/// A block of statements, up to a closing brace or the end of the text;
/// the current token is the opener.
pub open spec fn sp_block(st: ParserView) -> Result<(StmtView, ParserView), ErrorView>
    decreases st.weight(), 9int,
{
    proof {
        lemma_advance(st);
    }
    sp_block_loop(st.advance(), Seq::empty())
}

/// The statements of a block that follow the statements `acc`.
pub open spec fn sp_block_loop(st: ParserView, acc: Seq<StmtView>) -> Result<
    (StmtView, ParserView),
    ErrorView,
>
    decreases st.weight(), 8int,
{
    if st.cur == TokenView::RBrace || st.cur == TokenView::Eof {
        Ok((StmtView::BlockStmt { stmts: acc }, st))
    } else {
        match sp_stmt(st) {
            Err(e) => Err(e),
            Ok((s, st1)) => if st1.advance().weight() < st.weight() {
                sp_block_loop(st1.advance(), acc.push(s))
            } else {
                Err(stalled())
            },
        }
    }
}

/// A statement: a binding, a return, or an expression.
pub open spec fn sp_stmt(st: ParserView) -> Result<(StmtView, ParserView), ErrorView>
    decreases st.weight(), 7int,
{
    match st.cur {
        TokenView::Let => sp_let(st),
        TokenView::Return => sp_return(st),
        _ => sp_expr_stmt(st),
    }
}

/// A binding `let NAME = EXPR`, with an optional semicolon; the current
/// token is `let`.
pub open spec fn sp_let(st: ParserView) -> Result<(StmtView, ParserView), ErrorView>
    decreases st.weight(), 6int,
{
    let st1 = st.advance();
    match st1.cur {
        TokenView::Ident(name) => if st1.peek != TokenView::Assign {
            Err(ErrorView::UnexpectedToken { expected: TokenView::Assign, got: st1.peek })
        } else {
            let st2 = st1.advance().advance();
            proof {
                lemma_advance(st);
                lemma_advance(st1);
                lemma_advance(st1.advance());
            }
            match sp_expr(st2, Precedence::Lowest) {
                Err(e) => Err(e),
                Ok((value, st3)) => Ok(
                    (
                        StmtView::LetStmt { name: ExprView::Ident(name), value },
                        st3.skip_semicolon(),
                    ),
                ),
            }
        },
        other => Err(expected_ident(other)),
    }
}

/// A statement `return EXPR`, with an optional semicolon; the current token
/// is `return`.
pub open spec fn sp_return(st: ParserView) -> Result<(StmtView, ParserView), ErrorView>
    decreases st.weight(), 6int,
{
    proof {
        lemma_advance(st);
    }
    match sp_expr(st.advance(), Precedence::Lowest) {
        Err(e) => Err(e),
        Ok((value, st1)) => Ok((StmtView::ReturnStmt(value), st1.skip_semicolon())),
    }
}

/// An expression as a statement, with an optional semicolon.
pub open spec fn sp_expr_stmt(st: ParserView) -> Result<(StmtView, ParserView), ErrorView>
    decreases st.weight(), 6int,
{
    match sp_expr(st, Precedence::Lowest) {
        Err(e) => Err(e),
        Ok((e, st1)) => Ok((StmtView::ExprStmt(e), st1.skip_semicolon())),
    }
}

/// The statements of a program that follow the statements `acc`, up to the
/// first `Eof`.
pub open spec fn sp_program_loop(st: ParserView, acc: Seq<StmtView>) -> Result<
    (Seq<StmtView>, ParserView),
    ErrorView,
>
    decreases st.weight(),
{
    if st.cur == TokenView::Eof {
        Ok((acc, st))
    } else {
        match sp_stmt(st) {
            Err(e) => Err(e),
            Ok((s, st1)) => if st1.advance().weight() < st.weight() {
                sp_program_loop(st1.advance(), acc.push(s))
            } else {
                Err(stalled())
            },
        }
    }
}

/// A whole program: statements up to the first `Eof`.
pub open spec fn sp_program(st: ParserView) -> Result<(Seq<StmtView>, ParserView), ErrorView> {
    sp_program_loop(st, Seq::empty())
}

} // verus!
