//! The grammar never stalls: every production either fails with an error
//! of the grammar or ends no further from the end of the text than it
//! began, and the productions that take a token end nearer to it.
use vstd::prelude::*;
use crate::ast::{ExprView, StmtView};
use crate::error::ErrorView;
use crate::grammar::{
    infix_op, lemma_advance, prefix_op, sp_array, sp_block, sp_block_loop, sp_call, sp_expr,
    sp_expr_stmt, sp_func, sp_grouped, sp_hash, sp_hash_loop, sp_if, sp_if_branches, sp_index,
    sp_infix, sp_infix_loop, sp_let, sp_list, sp_list_loop, sp_params, sp_params_loop, sp_prefix,
    sp_program, sp_program_loop, sp_return, sp_start, sp_stmt, stalled, ParserView,
};
use crate::parser::parse_result;
use crate::precedence::Precedence;
use crate::token::TokenView;

verus! {

/// The result is no stall.
pub open spec fn steady<T>(r: Result<(T, ParserView), ErrorView>) -> bool {
    !(r matches Err(e) && e == stalled())
}

/// A parse that succeeded ended no further from the end of the text than
/// `st`.
pub open spec fn not_back<T>(r: Result<(T, ParserView), ErrorView>, st: ParserView) -> bool {
    r matches Ok((_, end)) ==> end.weight() <= st.weight()
}

/// A parse that succeeded ended nearer to the end of the text than `st`.
pub open spec fn nearer<T>(r: Result<(T, ParserView), ErrorView>, st: ParserView) -> bool {
    r matches Ok((_, end)) ==> end.weight() < st.weight()
}

/// A parse that succeeded ended in `st` or nearer to the end of the text.
pub open spec fn onward<T>(r: Result<(T, ParserView), ErrorView>, st: ParserView) -> bool {
    r matches Ok((_, end)) ==> end.follows(st)
}

/// The errors that the grammar names by a message are not the stall.
pub proof fn lemma_messages_differ()
    ensures
        stalled() != ErrorView::Custom("failed to parse expression"@),
        stalled() != ErrorView::Custom("invalid for infix"@),
{
    reveal_strlit("parser made no progress");
    reveal_strlit("failed to parse expression");
    reveal_strlit("invalid for infix");
    assert("parser made no progress"@[0] == 'p');
    assert("failed to parse expression"@[0] == 'f');
    assert("invalid for infix"@[0] == 'i');
}

/// The rest of a parameter list does not stall and does not lead back.
pub proof fn lemma_params_loop(st: ParserView, acc: Seq<ExprView>)
    ensures
        steady(sp_params_loop(st, acc)),
        not_back(sp_params_loop(st, acc), st),
    decreases st.weight(),
{
    lemma_advance(st);
    lemma_advance(st.advance());
    if st.peek == TokenView::Comma {
        let st2 = st.advance().advance();
        match st2.cur {
            TokenView::Ident(v) => {
                lemma_params_loop(st2, acc.push(ExprView::Ident(v)));
            },
            _ => {},
        }
    }
}

/// A parameter list does not stall and does not lead back.
pub proof fn lemma_params(st: ParserView)
    ensures
        steady(sp_params(st)),
        not_back(sp_params(st), st),
{
    lemma_advance(st);
    if st.peek != TokenView::RParen {
        let st1 = st.advance();
        match st1.cur {
            TokenView::Ident(v) => {
                lemma_params_loop(st1, seq![ExprView::Ident(v)]);
            },
            _ => {},
        }
    }
}

/// An expression does not stall; where it succeeds it began at a token other than
/// `Eof` and ended where it began or nearer to the end of the text.
pub proof fn lemma_expr(st: ParserView, prec: Precedence)
    ensures
        steady(sp_expr(st, prec)),
        onward(sp_expr(st, prec), st),
        sp_expr(st, prec) is Ok ==> st.cur != TokenView::Eof,
    decreases st.weight(), 5int,
{
    lemma_messages_differ();
    let first = match st.cur {
        TokenView::Ident(v) => Ok((ExprView::Ident(v), st)),
        TokenView::Int(v) => Ok((ExprView::IntLiteral(v), st)),
        TokenView::True => Ok((ExprView::BoolLiteral(true), st)),
        TokenView::False => Ok((ExprView::BoolLiteral(false), st)),
        TokenView::String(v) => Ok((ExprView::StringLiteral(v), st)),
        TokenView::Bang => sp_prefix(st),
        TokenView::Minus => sp_prefix(st),
        TokenView::LParen => sp_grouped(st),
        TokenView::If => sp_if(st),
        TokenView::Function => sp_func(st),
        TokenView::LBracket => sp_array(st),
        TokenView::LBrace => sp_hash(st),
        _ => Err(ErrorView::Custom("failed to parse expression"@)),
    };
    match st.cur {
        TokenView::Bang => lemma_prefix(st),
        TokenView::Minus => lemma_prefix(st),
        TokenView::LParen => lemma_grouped(st),
        TokenView::If => lemma_if(st),
        TokenView::Function => lemma_func(st),
        TokenView::LBracket => lemma_array(st),
        TokenView::LBrace => lemma_hash(st),
        _ => {},
    }
    match first {
        Ok((left, st1)) => {
            lemma_infix_loop(st1, prec, left);
        },
        Err(_) => {},
    }
}

/// The operators after an operand do not stall and do not lead back.
pub proof fn lemma_infix_loop(st: ParserView, prec: Precedence, left: ExprView)
    ensures
        steady(sp_infix_loop(st, prec, left)),
        onward(sp_infix_loop(st, prec, left), st),
    decreases st.weight(), 4int,
{
    if st.peek != TokenView::Semicolon && prec.level() < st.peek.precedence().level() {
        let st1 = st.advance();
        lemma_advance(st);
        let next = match st1.cur {
            TokenView::LParen => sp_call(st1, left),
            TokenView::LBracket => sp_index(st1, left),
            _ => sp_infix(st1, left),
        };
        match st1.cur {
            TokenView::LParen => lemma_call(st1, left),
            TokenView::LBracket => lemma_index(st1, left),
            _ => lemma_infix(st1, left),
        }
        match next {
            Ok((e, st2)) => {
                lemma_infix_loop(st2, prec, e);
            },
            Err(_) => {},
        }
    }
}

/// A prefix expression does not stall and takes a token.
pub proof fn lemma_prefix(st: ParserView)
    ensures
        steady(sp_prefix(st)),
        nearer(sp_prefix(st), st),
    decreases st.weight(), 3int,
{
    if prefix_op(st.cur) is Some {
        lemma_advance(st);
        lemma_expr(st.advance(), Precedence::Prefix);
    }
}

/// An infix expression does not stall and takes a token.
pub proof fn lemma_infix(st: ParserView, left: ExprView)
    ensures
        steady(sp_infix(st, left)),
        nearer(sp_infix(st, left), st),
    decreases st.weight(), 3int,
{
    lemma_messages_differ();
    if infix_op(st.cur) is Some {
        lemma_advance(st);
        lemma_expr(st.advance(), st.cur.precedence());
    }
}

/// An expression in parentheses does not stall and takes a token.
pub proof fn lemma_grouped(st: ParserView)
    requires
        st.cur != TokenView::Eof,
    ensures
        steady(sp_grouped(st)),
        nearer(sp_grouped(st), st),
    decreases st.weight(), 3int,
{
    lemma_advance(st);
    lemma_expr(st.advance(), Precedence::Lowest);
    match sp_expr(st.advance(), Precedence::Lowest) {
        Ok((_, st1)) => {
            lemma_advance(st1);
        },
        Err(_) => {},
    }
}

/// A conditional does not stall and takes a token.
pub proof fn lemma_if(st: ParserView)
    requires
        st.cur != TokenView::Eof,
    ensures
        steady(sp_if(st)),
        nearer(sp_if(st), st),
    decreases st.weight(), 3int,
{
    if st.peek == TokenView::LParen {
        let st1 = st.advance().advance();
        lemma_advance(st);
        lemma_advance(st.advance());
        lemma_expr(st1, Precedence::Lowest);
        match sp_expr(st1, Precedence::Lowest) {
            Ok((condition, st2)) => {
                if st2.peek == TokenView::RParen {
                    lemma_advance(st2);
                    lemma_advance(st2.advance());
                    lemma_if_branches(st2.advance().advance(), condition);
                }
            },
            Err(_) => {},
        }
    }
}

/// The branches of a conditional do not stall and do not lead back.
pub proof fn lemma_if_branches(st: ParserView, condition: ExprView)
    ensures
        steady(sp_if_branches(st, condition)),
        not_back(sp_if_branches(st, condition), st),
    decreases st.weight(), 10int,
{
    lemma_block(st);
    match sp_block(st) {
        Ok((_, st1)) => {
            if st1.peek == TokenView::Else {
                lemma_advance(st1);
                lemma_advance(st1.advance());
                lemma_block(st1.advance().advance());
            }
        },
        Err(_) => {},
    }
}

/// A function literal does not stall and takes a token.
pub proof fn lemma_func(st: ParserView)
    requires
        st.cur != TokenView::Eof,
    ensures
        steady(sp_func(st)),
        nearer(sp_func(st), st),
    decreases st.weight(), 3int,
{
    if st.peek == TokenView::LParen {
        lemma_advance(st);
        lemma_params(st.advance());
        match sp_params(st.advance()) {
            Ok((_, st1)) => {
                lemma_advance(st1);
                lemma_block(st1.advance());
            },
            Err(_) => {},
        }
    }
}

/// An array literal does not stall and takes a token.
pub proof fn lemma_array(st: ParserView)
    requires
        st.cur != TokenView::Eof,
    ensures
        steady(sp_array(st)),
        nearer(sp_array(st), st),
    decreases st.weight(), 3int,
{
    lemma_list(st, TokenView::RBracket, true);
}

/// A call does not stall and takes a token.
pub proof fn lemma_call(st: ParserView, left: ExprView)
    requires
        st.cur != TokenView::Eof,
    ensures
        steady(sp_call(st, left)),
        nearer(sp_call(st, left), st),
    decreases st.weight(), 3int,
{
    lemma_list(st, TokenView::RParen, false);
}

/// An indexing does not stall and takes a token.
pub proof fn lemma_index(st: ParserView, left: ExprView)
    requires
        st.cur != TokenView::Eof,
    ensures
        steady(sp_index(st, left)),
        nearer(sp_index(st, left), st),
    decreases st.weight(), 3int,
{
    lemma_advance(st);
    lemma_expr(st.advance(), Precedence::Lowest);
    match sp_expr(st.advance(), Precedence::Lowest) {
        Ok((_, st1)) => {
            lemma_advance(st1);
        },
        Err(_) => {},
    }
}

/// A list of expressions does not stall and takes a token.
pub proof fn lemma_list(st: ParserView, end: TokenView, report_cur: bool)
    requires
        st.cur != TokenView::Eof,
    ensures
        steady(sp_list(st, end, report_cur)),
        nearer(sp_list(st, end, report_cur), st),
    decreases st.weight(), 2int,
{
    lemma_advance(st);
    if st.peek != end {
        lemma_expr(st.advance(), Precedence::Lowest);
        match sp_expr(st.advance(), Precedence::Lowest) {
            Ok((first, st1)) => {
                lemma_list_loop(st1, seq![first], end, report_cur);
            },
            Err(_) => {},
        }
    }
}

/// The rest of a list of expressions does not stall and does not lead back.
pub proof fn lemma_list_loop(
    st: ParserView,
    acc: Seq<ExprView>,
    end: TokenView,
    report_cur: bool,
)
    ensures
        steady(sp_list_loop(st, acc, end, report_cur)),
        not_back(sp_list_loop(st, acc, end, report_cur), st),
    decreases st.weight(), 1int,
{
    lemma_advance(st);
    if st.peek == TokenView::Comma {
        let st2 = st.advance().advance();
        lemma_advance(st.advance());
        lemma_expr(st2, Precedence::Lowest);
        match sp_expr(st2, Precedence::Lowest) {
            Ok((item, st3)) => {
                lemma_list_loop(st3, acc.push(item), end, report_cur);
            },
            Err(_) => {},
        }
    }
}

/// A hash literal does not stall and takes a token.
pub proof fn lemma_hash(st: ParserView)
    requires
        st.cur != TokenView::Eof,
    ensures
        steady(sp_hash(st)),
        nearer(sp_hash(st), st),
    decreases st.weight(), 3int,
{
    lemma_hash_loop(st, Seq::empty());
}

/// The pairs of a hash literal do not stall and take a token.
pub proof fn lemma_hash_loop(st: ParserView, acc: Seq<(ExprView, ExprView)>)
    requires
        st.cur != TokenView::Eof,
    ensures
        steady(sp_hash_loop(st, acc)),
        nearer(sp_hash_loop(st, acc), st),
    decreases st.weight(), 2int,
{
    lemma_advance(st);
    if st.peek != TokenView::RBrace {
        let st1 = st.advance();
        lemma_expr(st1, Precedence::Lowest);
        match sp_expr(st1, Precedence::Lowest) {
            Ok((key, st2)) => {
                if st2.peek == TokenView::Colon {
                    let st3 = st2.advance().advance();
                    lemma_advance(st2);
                    lemma_advance(st2.advance());
                    lemma_expr(st3, Precedence::Lowest);
                    match sp_expr(st3, Precedence::Lowest) {
                        Ok((value, st4)) => {
                            lemma_advance(st4);
                            if st4.peek == TokenView::Comma {
                                lemma_hash_loop(st4.advance(), acc.push((key, value)));
                            }
                        },
                        Err(_) => {},
                    }
                }
            },
            Err(_) => {},
        }
    }
}

/// A block does not stall and does not lead back.
pub proof fn lemma_block(st: ParserView)
    ensures
        steady(sp_block(st)),
        not_back(sp_block(st), st),
    decreases st.weight(), 9int,
{
    lemma_advance(st);
    lemma_block_loop(st.advance(), Seq::empty());
}

/// The statements of a block do not stall and do not lead back.
pub proof fn lemma_block_loop(st: ParserView, acc: Seq<StmtView>)
    ensures
        steady(sp_block_loop(st, acc)),
        not_back(sp_block_loop(st, acc), st),
    decreases st.weight(), 8int,
{
    if !(st.cur == TokenView::RBrace || st.cur == TokenView::Eof) {
        lemma_stmt(st);
        match sp_stmt(st) {
            Ok((s, st1)) => {
                lemma_advance(st1);
                lemma_block_loop(st1.advance(), acc.push(s));
            },
            Err(_) => {},
        }
    }
}

/// A statement does not stall; where it succeeds it began at a token other than
/// `Eof` and ended where it began or nearer to the end of the text.
pub proof fn lemma_stmt(st: ParserView)
    ensures
        steady(sp_stmt(st)),
        onward(sp_stmt(st), st),
        sp_stmt(st) is Ok ==> st.cur != TokenView::Eof,
    decreases st.weight(), 7int,
{
    match st.cur {
        TokenView::Let => lemma_let(st),
        TokenView::Return => lemma_return(st),
        _ => lemma_expr_stmt(st),
    }
}

/// A binding does not stall and takes a token.
pub proof fn lemma_let(st: ParserView)
    requires
        st.cur != TokenView::Eof,
    ensures
        steady(sp_let(st)),
        nearer(sp_let(st), st),
    decreases st.weight(), 6int,
{
    let st1 = st.advance();
    lemma_advance(st);
    lemma_advance(st1);
    lemma_advance(st1.advance());
    match st1.cur {
        TokenView::Ident(name) => {
            if st1.peek == TokenView::Assign {
                let st2 = st1.advance().advance();
                lemma_expr(st2, Precedence::Lowest);
                match sp_expr(st2, Precedence::Lowest) {
                    Ok((_, st3)) => {
                        lemma_advance(st3);
                    },
                    Err(_) => {},
                }
            }
        },
        _ => {},
    }
}

/// A return statement does not stall and takes a token.
pub proof fn lemma_return(st: ParserView)
    requires
        st.cur != TokenView::Eof,
    ensures
        steady(sp_return(st)),
        nearer(sp_return(st), st),
    decreases st.weight(), 6int,
{
    lemma_advance(st);
    lemma_expr(st.advance(), Precedence::Lowest);
    match sp_expr(st.advance(), Precedence::Lowest) {
        Ok((_, st1)) => {
            lemma_advance(st1);
        },
        Err(_) => {},
    }
}

/// An expression statement does not stall; where it succeeds it began at a token
/// other than `Eof` and ended where it began or nearer to the end of the text.
pub proof fn lemma_expr_stmt(st: ParserView)
    ensures
        steady(sp_expr_stmt(st)),
        onward(sp_expr_stmt(st), st),
        sp_expr_stmt(st) is Ok ==> st.cur != TokenView::Eof,
    decreases st.weight(), 6int,
{
    lemma_expr(st, Precedence::Lowest);
    match sp_expr(st, Precedence::Lowest) {
        Ok((_, st1)) => {
            lemma_advance(st1);
        },
        Err(_) => {},
    }
}

/// The statements of a program do not stall, and a program that parses ends at an
/// `Eof`.
pub proof fn lemma_program_loop(st: ParserView, acc: Seq<StmtView>)
    ensures
        steady(sp_program_loop(st, acc)),
        sp_program_loop(st, acc) matches Ok((_, end)) ==> end.cur == TokenView::Eof,
    decreases st.weight(),
{
    if st.cur != TokenView::Eof {
        lemma_stmt(st);
        match sp_stmt(st) {
            Ok((s, st1)) => {
                lemma_advance(st1);
                lemma_program_loop(st1.advance(), acc.push(s));
            },
            Err(_) => {},
        }
    }
}

/// Parsing never stalls: whatever the text, the result is a program or an
/// error of the grammar. A parse that succeeds has read up to an `Eof`.
pub proof fn law_parse_never_stalls(input: Seq<char>)
    ensures
        parse_result(input) != Err::<Seq<StmtView>, ErrorView>(stalled()),
        sp_program(sp_start(input, 0)) matches Ok((_, end)) ==> end.cur == TokenView::Eof,
{
    lemma_program_loop(sp_start(input, 0), Seq::empty());
}

} // verus!
