//! Laws of the language, each proved from the definitions of the lexer and
//! of the meaning of programs.
use vstd::prelude::*;
use crate::arith::{lemma_trunc_div_rounds_to_zero, magnitude, quotient, trunc_div};
use crate::ast::{ExprView, StmtView};
use crate::error::{ErrorView, EvalErrorKindView};
use crate::evaluator::{evaluate_result, fresh_env};
use crate::grammar::{
    lemma_advance, sp_expr, sp_expr_stmt, sp_infix, sp_infix_loop, sp_prefix, sp_program_loop,
    sp_start, sp_stmt, ParserView,
};
use crate::ast::expr_text;
use crate::lexer::{
    char_at, digit_value, digits_end, digits_value, is_digit_char, is_letter_char, letters_end,
    lemma_next_token_progress, skip_spaces, spec_next_token, spec_tokens, string_end,
};
use crate::object::ObjectView;
use crate::operator::{Infix, Prefix};
use crate::parser::parse_result;
use crate::precedence::Precedence;
use crate::semantics::{
    bang, ev_apply, ev_block, ev_expr, ev_exprs, ev_pairs, ev_program, ev_program_from, ev_stmt,
    hash_get, hash_put, index_result, infix_result, key_index, too_deep, EnvView,
};
use crate::text::{digit_char, nat_decimal};
use crate::token::{keyword, TokenView};

verus! {

/// The expression `a / b` of two integer literals.
pub open spec fn division_of(a: i64, b: i64) -> ExprView {
    ExprView::InfixExpr {
        left: Box::new(ExprView::IntLiteral(a)),
        right: Box::new(ExprView::IntLiteral(b)),
        op: Infix::Slash,
    }
}

/// The expression `!!x`.
pub open spec fn double_bang_of(x: ExprView) -> ExprView {
    ExprView::PrefixExpr {
        op: Prefix::Bang,
        right: Box::new(ExprView::PrefixExpr { op: Prefix::Bang, right: Box::new(x) }),
    }
}

/// Division of integers rounds towards zero. For every integer `a` and
/// every `b` other than zero whose quotient is a 64-bit integer, `a / b`
/// evaluates to that quotient `q` and leaves the environment as it was;
/// `a - q * b` is smaller in magnitude than `b` and is zero or has the sign
/// of `a`.
pub proof fn law_division_rounds_to_zero(a: i64, b: i64, st: EnvView, fuel: nat)
    requires
        b != 0,
        !(a == i64::MIN && b == -1),
    ensures
        ev_expr(division_of(a, b), st, fuel) == (
            Ok::<ObjectView, ErrorView>(ObjectView::Int(quotient(a, b))),
            st,
        ),
        quotient(a, b) == trunc_div(a as int, b as int),
        magnitude(a - quotient(a, b) * b) < magnitude(b as int),
        a >= 0 ==> a - quotient(a, b) * b >= 0,
        a < 0 ==> a - quotient(a, b) * b <= 0,
{
    reveal_with_fuel(ev_expr, 2);
    lemma_trunc_div_rounds_to_zero(a as int, b as int);
    lemma_trunc_div_fits(a, b);
}

/// The quotient of two 64-bit integers is a 64-bit integer, but for that of
/// the least integer by -1.
pub proof fn lemma_trunc_div_fits(a: i64, b: i64)
    requires
        b != 0,
        !(a == i64::MIN && b == -1),
    ensures
        i64::MIN <= trunc_div(a as int, b as int) <= i64::MAX,
{
    let x = a as int;
    let y = b as int;
    if x >= 0 {
        if y > 0 {
            assert(0 <= x / y <= x) by (nonlinear_arith)
                requires
                    x >= 0,
                    y > 0,
            ;
        } else {
            assert(-x <= x / y <= 0) by (nonlinear_arith)
                requires
                    x >= 0,
                    y < 0,
            ;
        }
    } else {
        let m = -x;
        if y > 0 {
            assert(0 <= m / y <= m) by (nonlinear_arith)
                requires
                    m > 0,
                    y > 0,
            ;
        } else if y == -1 {
            assert(m / y == -m) by (nonlinear_arith)
                requires
                    y == -1,
            ;
        } else {
            assert(-m < m / y <= 0) by (nonlinear_arith)
                requires
                    m > 0,
                    y < -1,
            ;
        }
    }
}

/// Division by zero is an error, whatever the dividend.
pub proof fn law_division_by_zero(a: i64, st: EnvView, fuel: nat)
    ensures
        ev_expr(division_of(a, 0), st, fuel) == (
            Err::<ObjectView, ErrorView>(ErrorView::EvalError(EvalErrorKindView::DivisionByZero)),
            st,
        ),
{
    reveal_with_fuel(ev_expr, 2);
}

/// Negating twice gives the truthiness. For every value `v`, `!!v` is the
/// boolean that says whether `v` counts as true.
pub proof fn law_double_bang_value(v: ObjectView)
    ensures
        bang(bang(v)) == ObjectView::Bool(v.is_truthy()),
{
}

/// Negating an expression twice gives the truthiness of its value. For
/// every expression `x`, literals among them, `!!x` evaluates to the
/// boolean that says whether the value of `x` counts as true, fails as `x`
/// fails, and changes the environment as `x` does.
pub proof fn law_double_bang(x: ExprView, st: EnvView, fuel: nat)
    ensures
        ev_expr(double_bang_of(x), st, fuel) == (
            match ev_expr(x, st, fuel).0 {
                Ok(v) => Ok(ObjectView::Bool(v.is_truthy())),
                Err(e) => Err(e),
            },
            ev_expr(x, st, fuel).1,
        ),
{
    reveal_with_fuel(ev_expr, 3);
    match ev_expr(x, st, fuel).0 {
        Ok(v) => {
            law_double_bang_value(v);
        },
        Err(e) => {},
    }
}

/// A literal evaluates to itself and leaves the environment as it was.
pub proof fn law_literals(st: EnvView, fuel: nat, i: i64, b: bool, s: Seq<char>)
    ensures
        ev_expr(ExprView::IntLiteral(i), st, fuel) == (
            Ok::<ObjectView, ErrorView>(ObjectView::Int(i)),
            st,
        ),
        ev_expr(ExprView::BoolLiteral(b), st, fuel) == (
            Ok::<ObjectView, ErrorView>(ObjectView::Bool(b)),
            st,
        ),
        ev_expr(ExprView::StringLiteral(s), st, fuel) == (
            Ok::<ObjectView, ErrorView>(ObjectView::String(s)),
            st,
        ),
{
}

/// Indexing an array with an integer never fails: it gives the element at
/// the index, and null where the index is out of range.
pub proof fn law_array_index_total(elements: Seq<ObjectView>, i: i64)
    ensures
        index_result(ObjectView::Array { elements }, ObjectView::Int(i)) is Ok,
        0 <= i < elements.len() ==> index_result(
            ObjectView::Array { elements },
            ObjectView::Int(i),
        ) == Ok::<ObjectView, ErrorView>(elements[i as int]),
        !(0 <= i < elements.len()) ==> index_result(
            ObjectView::Array { elements },
            ObjectView::Int(i),
        ) == Ok::<ObjectView, ErrorView>(ObjectView::Null),
{
}

/// Operands of different types never combine: an infix operator applied to
/// an integer and a boolean, in either order, is a type mismatch.
pub proof fn law_mixed_operands_mismatch(op: Infix, i: i64, b: bool)
    ensures
        infix_result(op, ObjectView::Int(i), ObjectView::Bool(b)) == Err::<ObjectView, ErrorView>(
            ErrorView::EvalError(
                EvalErrorKindView::TypeMismatch { op, left: "INTEGER"@, right: "BOOLEAN"@ },
            ),
        ),
        infix_result(op, ObjectView::Bool(b), ObjectView::Int(i)) == Err::<ObjectView, ErrorView>(
            ErrorView::EvalError(
                EvalErrorKindView::TypeMismatch { op, left: "BOOLEAN"@, right: "INTEGER"@ },
            ),
        ),
{
    reveal_strlit("INTEGER");
    reveal_strlit("BOOLEAN");
    assert("INTEGER"@ != "BOOLEAN"@) by {
        assert("INTEGER"@[0] == 'I');
        assert("BOOLEAN"@[0] == 'B');
    }
}

/// A binding is seen at once. After `key` is bound to `val` in the current
/// scope, `key` has the value `val` there.
pub proof fn law_bind_then_lookup(st: EnvView, key: Seq<char>, val: ObjectView)
    requires
        st.current < st.scopes.len(),
    ensures
        st.bind(key, val).lookup(key) == Some(val),
{
}

/// A binding touches the current scope alone: every other scope, and with
/// it every binding of the same name in an enclosing scope, stays as it
/// was.
pub proof fn law_bind_is_local(st: EnvView, key: Seq<char>, val: ObjectView, i: int)
    requires
        0 <= i < st.scopes.len(),
        i != st.current,
    ensures
        st.bind(key, val).scopes.len() == st.scopes.len(),
        st.bind(key, val).scopes[i] == st.scopes[i],
        st.bind(key, val).current == st.current,
{
}

/// A function sees what is bound where it was made, also what is bound
/// there after it was made. In the scope of a call, a name that is no
/// parameter has the value that it has in the scope the function holds.
pub proof fn law_call_sees_defining_scope(
    st: EnvView,
    scope: nat,
    params: Seq<ExprView>,
    args: Seq<ObjectView>,
    key: Seq<char>,
)
    requires
        scope < st.scopes.len(),
        !st.enter(scope, params, args).scopes[st.scopes.len() as int].store.contains_key(key),
    ensures
        st.enter(scope, params, args).lookup(key) == st.lookup_from(scope, key),
{
    let inner = st.enter(scope, params, args);
    lemma_lookup_ignores_later_scopes(st, inner, scope, key);
}

/// What a name means in a scope depends on that scope and the scopes
/// before it alone.
pub proof fn lemma_lookup_ignores_later_scopes(a: EnvView, b: EnvView, idx: nat, key: Seq<char>)
    requires
        idx < a.scopes.len() <= b.scopes.len(),
        forall|i: int| 0 <= i < a.scopes.len() ==> a.scopes[i] == b.scopes[i],
    ensures
        a.lookup_from(idx, key) == b.lookup_from(idx, key),
    decreases idx,
{
    if !a.scopes[idx as int].store.contains_key(key) {
        match a.scopes[idx as int].parent {
            Some(p) => {
                if p < idx {
                    lemma_lookup_ignores_later_scopes(a, b, p, key);
                }
            },
            None => {},
        }
    }
}

/// Once the text is used up, every further token is `Eof`, and the lexer
/// stays where it is.
pub proof fn law_eof_forever(s: Seq<char>)
    ensures
        spec_next_token(s, s.len() as int) == (TokenView::Eof, s.len() as int),
{
    assert(skip_spaces(s, s.len() as int) == s.len());
}

/// The numeral of a natural number holds digits alone, at least one, and
/// denotes that number.
pub proof fn law_numeral_denotes_its_number(n: nat)
    ensures
        nat_decimal(n).len() > 0,
        forall|i: int| 0 <= i < nat_decimal(n).len() ==> is_digit_char(nat_decimal(n)[i]),
        digits_value(nat_decimal(n)) == n,
    decreases n,
{
    let d = (n % 10) as int;
    assert(is_digit_char(digit_char(d)) && digit_value(digit_char(d)) == d);
    if n < 10 {
        let one = nat_decimal(n);
        assert(one.drop_last() =~= Seq::<char>::empty());
        assert(digits_value(one.drop_last()) == 0);
    } else {
        law_numeral_denotes_its_number(n / 10);
        let all = nat_decimal(n);
        assert(all.drop_last() =~= nat_decimal(n / 10));
        assert(all.last() == digit_char(d));
    }
}

/// A run of digits ends where the digits end: at the first character that
/// is no digit, or at the end of the text.
pub proof fn lemma_digits_run(s: Seq<char>, pos: int, end: int)
    requires
        0 <= pos <= end <= s.len(),
        forall|i: int| pos <= i < end ==> is_digit_char(s[i]),
        end < s.len() ==> !is_digit_char(s[end]),
    ensures
        digits_end(s, pos) == end,
    decreases end - pos,
{
    if pos < end {
        lemma_digits_run(s, pos + 1, end);
    }
}

/// What is displayed is read back: the numeral of an integer that is not
/// negative lexes to the token of that integer, and uses up the numeral.
pub proof fn law_numeral_lexes_to_its_number(v: i64)
    requires
        v >= 0,
    ensures
        spec_next_token(nat_decimal(v as nat), 0) == (
            TokenView::Int(v),
            nat_decimal(v as nat).len() as int,
        ),
{
    let s = nat_decimal(v as nat);
    law_numeral_denotes_its_number(v as nat);
    lemma_digits_run(s, 0, s.len() as int);
    assert(is_digit_char(s[0]));
    assert(skip_spaces(s, 0) == 0);
    assert(char_at(s, 0) == s[0]);
    assert(s.subrange(0, s.len() as int) =~= s);
}

/// The tokens of a text end with an `Eof`, and hold no other.
pub proof fn law_tokens_end_with_eof(s: Seq<char>, pos: int)
    requires
        0 <= pos <= s.len(),
    ensures
        spec_tokens(s, pos).len() > 0,
        spec_tokens(s, pos).last() == TokenView::Eof,
        forall|i: int|
            0 <= i < spec_tokens(s, pos).len() - 1 ==> spec_tokens(s, pos)[i] != TokenView::Eof,
    decreases s.len() - pos,
{
    lemma_next_token_progress(s, pos);
    let (tok, next) = spec_next_token(s, pos);
    if tok != TokenView::Eof {
        law_tokens_end_with_eof(s, next);
        let rest = spec_tokens(s, next);
        let all = spec_tokens(s, pos);
        assert(all =~= seq![tok] + rest);
        assert forall|i: int| 0 <= i < all.len() - 1 implies all[i] != TokenView::Eof by {
            if i > 0 {
                assert(all[i] == rest[i - 1]);
            }
        }
    }
}

/// `after` is an environment that evaluation may lead to from `before`:
/// the same scope is current, no scope is gone and none has changed the
/// scope that encloses it, and what was put out is still there.
pub open spec fn extends(after: EnvView, before: EnvView) -> bool {
    &&& after.current == before.current
    &&& before.scopes.len() <= after.scopes.len()
    &&& forall|i: int|
        0 <= i < before.scopes.len() ==> #[trigger] after.scopes[i].parent
            == before.scopes[i].parent
    &&& before.output.len() <= after.output.len()
    &&& forall|i: int|
        0 <= i < before.output.len() ==> #[trigger] after.output[i] == before.output[i]
}

/// Evaluating an expression leads to an environment that extends the one
/// it began in.
pub proof fn lemma_expr_extends(e: ExprView, st: EnvView, fuel: nat)
    ensures
        extends(ev_expr(e, st, fuel).1, st),
    decreases 2 * fuel + 1, e,
{
    match e {
        ExprView::If { condition, consequence, alternative } => {
            lemma_expr_extends(*condition, st, fuel);
            let (rc, st1) = ev_expr(*condition, st, fuel);
            match rc {
                Ok(c) => {
                    if c.is_truthy() {
                        lemma_stmt_extends(*consequence, st1, fuel);
                    } else {
                        match alternative {
                            Some(alt) => {
                                lemma_stmt_extends(*alt, st1, fuel);
                            },
                            None => {},
                        }
                    }
                },
                Err(_) => {},
            }
        },
        ExprView::PrefixExpr { op, right } => {
            lemma_expr_extends(*right, st, fuel);
        },
        ExprView::InfixExpr { left, right, op } => {
            lemma_expr_extends(*left, st, fuel);
            let (rl, st1) = ev_expr(*left, st, fuel);
            if rl is Ok {
                lemma_expr_extends(*right, st1, fuel);
            }
        },
        ExprView::Call { callee, args } => {
            lemma_expr_extends(*callee, st, fuel);
            let (rc, st1) = ev_expr(*callee, st, fuel);
            match rc {
                Ok(c) => {
                    lemma_exprs_extends(args, st1, fuel, Seq::empty());
                    let (ra, st2) = ev_exprs(args, st1, fuel, Seq::empty());
                    match ra {
                        Ok(a) => {
                            lemma_apply_extends(c, a, st2, fuel);
                        },
                        Err(_) => {},
                    }
                },
                Err(_) => {},
            }
        },
        ExprView::Array { elements } => {
            lemma_exprs_extends(elements, st, fuel, Seq::empty());
        },
        ExprView::IndexExpr { left, index } => {
            lemma_expr_extends(*left, st, fuel);
            let (rl, st1) = ev_expr(*left, st, fuel);
            if rl is Ok {
                lemma_expr_extends(*index, st1, fuel);
            }
        },
        ExprView::HashLiteral { pairs } => {
            lemma_pairs_extends(pairs, st, fuel, Seq::empty());
        },
        _ => {},
    }
}

/// Evaluating a list of expressions leads to an environment that extends
/// the one it began in.
pub proof fn lemma_exprs_extends(es: Seq<ExprView>, st: EnvView, fuel: nat, acc: Seq<ObjectView>)
    ensures
        extends(ev_exprs(es, st, fuel, acc).1, st),
    decreases 2 * fuel + 1, es,
{
    if es.len() > 0 {
        lemma_expr_extends(es[0], st, fuel);
        let (r, st1) = ev_expr(es[0], st, fuel);
        match r {
            Ok(v) => {
                lemma_exprs_extends(es.subrange(1, es.len() as int), st1, fuel, acc.push(v));
            },
            Err(_) => {},
        }
    }
}

/// Evaluating the pairs of a hash literal leads to an environment that
/// extends the one it began in.
pub proof fn lemma_pairs_extends(
    pairs: Seq<(ExprView, ExprView)>,
    st: EnvView,
    fuel: nat,
    acc: Seq<(ObjectView, ObjectView)>,
)
    ensures
        extends(ev_pairs(pairs, st, fuel, acc).1, st),
    decreases 2 * fuel + 1, pairs,
{
    if pairs.len() > 0 {
        assert(decreases_to!(pairs => pairs[0]));
        assert(decreases_to!(pairs[0] => pairs[0].0));
        assert(decreases_to!(pairs[0] => pairs[0].1));
        lemma_expr_extends(pairs[0].0, st, fuel);
        let (rk, st1) = ev_expr(pairs[0].0, st, fuel);
        match rk {
            Ok(k) => {
                lemma_expr_extends(pairs[0].1, st1, fuel);
                let (rv, st2) = ev_expr(pairs[0].1, st1, fuel);
                match rv {
                    Ok(v) => {
                        if k.is_hashable() {
                            lemma_pairs_extends(
                                pairs.subrange(1, pairs.len() as int),
                                st2,
                                fuel,
                                hash_put(acc, k, v),
                            );
                        }
                    },
                    Err(_) => {},
                }
            },
            Err(_) => {},
        }
    }
}

/// Evaluating a statement leads to an environment that extends the one it
/// began in.
pub proof fn lemma_stmt_extends(s: StmtView, st: EnvView, fuel: nat)
    ensures
        extends(ev_stmt(s, st, fuel).1, st),
    decreases 2 * fuel + 1, s,
{
    match s {
        StmtView::LetStmt { name, value } => {
            lemma_expr_extends(value, st, fuel);
        },
        StmtView::ReturnStmt(e) => {
            lemma_expr_extends(e, st, fuel);
        },
        StmtView::ExprStmt(e) => {
            lemma_expr_extends(e, st, fuel);
        },
        StmtView::BlockStmt { stmts } => {
            lemma_block_extends(stmts, st, fuel, ObjectView::Null);
        },
    }
}

/// Evaluating the statements of a block leads to an environment that
/// extends the one it began in.
pub proof fn lemma_block_extends(stmts: Seq<StmtView>, st: EnvView, fuel: nat, last: ObjectView)
    ensures
        extends(ev_block(stmts, st, fuel, last).1, st),
    decreases 2 * fuel + 1, stmts,
{
    if stmts.len() > 0 {
        lemma_stmt_extends(stmts[0], st, fuel);
        let (r, st1) = ev_stmt(stmts[0], st, fuel);
        match r {
            Ok(v) => {
                if !(v is ReturnValue) {
                    lemma_block_extends(stmts.subrange(1, stmts.len() as int), st1, fuel, v);
                }
            },
            Err(_) => {},
        }
    }
}

/// A call leads to an environment that extends the one it began in: when a
/// function has run, the scope of the caller is current again.
pub proof fn lemma_apply_extends(
    callee: ObjectView,
    args: Seq<ObjectView>,
    st: EnvView,
    fuel: nat,
)
    ensures
        extends(ev_apply(callee, args, st, fuel).1, st),
    decreases 2 * fuel, callee,
{
    match callee {
        ObjectView::Func { params, body, scope } => {
            if fuel > 0 {
                lemma_stmt_extends(body, st.enter(scope, params, args), (fuel - 1) as nat);
            }
        },
        _ => {},
    }
}

/// Evaluating a program leads to an environment that extends the one it
/// began in: evaluation ends in the scope it began in, with every scope
/// still there and still enclosed as before, and with what was put out
/// before still put out.
pub proof fn law_evaluation_extends(stmts: Seq<StmtView>, st: EnvView, fuel: nat)
    ensures
        extends(ev_program(stmts, st, fuel).1, st),
{
    lemma_program_extends(stmts, st, fuel, ObjectView::Null);
}

/// Evaluating the statements of a program leads to an environment that
/// extends the one it began in.
pub proof fn lemma_program_extends(stmts: Seq<StmtView>, st: EnvView, fuel: nat, last: ObjectView)
    ensures
        extends(ev_program_from(stmts, st, fuel, last).1, st),
    decreases stmts.len(),
{
    if stmts.len() > 0 {
        lemma_stmt_extends(stmts[0], st, fuel);
        let (r, st1) = ev_stmt(stmts[0], st, fuel);
        match r {
            Ok(v) => {
                if !(v is ReturnValue) {
                    lemma_program_extends(stmts.subrange(1, stmts.len() as int), st1, fuel, v);
                }
            },
            Err(_) => {},
        }
    }
}

/// A call beyond the depth limit fails, and leaves the environment as it
/// was.
pub proof fn law_depth_limit(
    params: Seq<ExprView>,
    body: StmtView,
    scope: nat,
    args: Seq<ObjectView>,
    st: EnvView,
)
    ensures
        ev_apply(ObjectView::Func { params, body, scope }, args, st, 0) == (
            Err::<ObjectView, ErrorView>(too_deep()),
            st,
        ),
{
}

/// The token of an infix operator.
pub open spec fn infix_token(op: Infix) -> TokenView {
    match op {
        Infix::Eq => TokenView::Eq,
        Infix::NotEq => TokenView::NotEq,
        Infix::Lt => TokenView::Lt,
        Infix::Gt => TokenView::Gt,
        Infix::Plus => TokenView::Plus,
        Infix::Minus => TokenView::Minus,
        Infix::Slash => TokenView::Slash,
        Infix::Asterisk => TokenView::Asterisk,
    }
}

/// The expression `left op right`.
pub open spec fn infix_of(left: ExprView, op: Infix, right: ExprView) -> ExprView {
    ExprView::InfixExpr { left: Box::new(left), right: Box::new(right), op }
}

/// An operand between two operators goes to the one that binds tighter,
/// and to the left one where they bind alike. The tokens `a o1 b o2 c`,
/// with nothing after them, parse as `a o1 (b o2 c)` where `o2` binds
/// tighter than `o1`, and as `(a o1 b) o2 c` otherwise.
pub proof fn law_tighter_operator_takes_operand(
    st: ParserView,
    a: Seq<char>,
    o1: Infix,
    b: Seq<char>,
    o2: Infix,
    c: Seq<char>,
)
    requires
        st.cur == TokenView::Ident(a),
        st.peek == infix_token(o1),
        st.advance().peek == TokenView::Ident(b),
        st.advance().advance().peek == infix_token(o2),
        st.advance().advance().advance().peek == TokenView::Ident(c),
        st.advance().advance().advance().advance().peek == TokenView::Eof,
    ensures
        sp_expr(st, Precedence::Lowest) == Ok::<(ExprView, ParserView), ErrorView>(
            (
                if infix_token(o1).precedence().level() < infix_token(o2).precedence().level() {
                    infix_of(
                        ExprView::Ident(a),
                        o1,
                        infix_of(ExprView::Ident(b), o2, ExprView::Ident(c)),
                    )
                } else {
                    infix_of(
                        infix_of(ExprView::Ident(a), o1, ExprView::Ident(b)),
                        o2,
                        ExprView::Ident(c),
                    )
                },
                st.advance().advance().advance().advance(),
            ),
        ),
{
    let s1 = st.advance();
    let s2 = s1.advance();
    let s3 = s2.advance();
    let s4 = s3.advance();
    lemma_advance(st);
    lemma_advance(s1);
    lemma_advance(s2);
    lemma_advance(s3);
    let ea = ExprView::Ident(a);
    let eb = ExprView::Ident(b);
    let ec = ExprView::Ident(c);
    let p1 = infix_token(o1).precedence();
    let p2 = infix_token(o2).precedence();
    // The last operand stands before the end marker, so nothing follows it.
    assert(sp_infix_loop(s4, p2, ec) == Ok::<(ExprView, ParserView), ErrorView>((ec, s4)));
    assert(sp_infix_loop(s4, p1, ec) == Ok::<(ExprView, ParserView), ErrorView>((ec, s4)));
    assert(sp_expr(s4, p2) == Ok::<(ExprView, ParserView), ErrorView>((ec, s4)));
    assert(sp_infix(s3, eb) == Ok::<(ExprView, ParserView), ErrorView>(
        (infix_of(eb, o2, ec), s4),
    ));
    if p1.level() < p2.level() {
        assert(sp_infix_loop(s4, p1, infix_of(eb, o2, ec)) == Ok::<
            (ExprView, ParserView),
            ErrorView,
        >((infix_of(eb, o2, ec), s4)));
        assert(sp_infix_loop(s2, p1, eb) == Ok::<(ExprView, ParserView), ErrorView>(
            (infix_of(eb, o2, ec), s4),
        ));
        assert(sp_expr(s2, p1) == Ok::<(ExprView, ParserView), ErrorView>(
            (infix_of(eb, o2, ec), s4),
        ));
        assert(sp_infix(s1, ea) == Ok::<(ExprView, ParserView), ErrorView>(
            (infix_of(ea, o1, infix_of(eb, o2, ec)), s4),
        ));
        assert(sp_infix_loop(s4, Precedence::Lowest, infix_of(ea, o1, infix_of(eb, o2, ec)))
            == Ok::<(ExprView, ParserView), ErrorView>(
            (infix_of(ea, o1, infix_of(eb, o2, ec)), s4),
        ));
        assert(sp_infix_loop(st, Precedence::Lowest, ea) == Ok::<
            (ExprView, ParserView),
            ErrorView,
        >((infix_of(ea, o1, infix_of(eb, o2, ec)), s4)));
    } else {
        assert(sp_infix_loop(s2, p1, eb) == Ok::<(ExprView, ParserView), ErrorView>((eb, s2)));
        assert(sp_expr(s2, p1) == Ok::<(ExprView, ParserView), ErrorView>((eb, s2)));
        assert(sp_infix(s1, ea) == Ok::<(ExprView, ParserView), ErrorView>(
            (infix_of(ea, o1, eb), s2),
        ));
        assert(sp_infix(s3, infix_of(ea, o1, eb)) == Ok::<(ExprView, ParserView), ErrorView>(
            (infix_of(infix_of(ea, o1, eb), o2, ec), s4),
        ));
        assert(sp_infix_loop(s4, Precedence::Lowest, infix_of(infix_of(ea, o1, eb), o2, ec))
            == Ok::<(ExprView, ParserView), ErrorView>(
            (infix_of(infix_of(ea, o1, eb), o2, ec), s4),
        ));
        assert(sp_infix_loop(s2, Precedence::Lowest, infix_of(ea, o1, eb)) == Ok::<
            (ExprView, ParserView),
            ErrorView,
        >((infix_of(infix_of(ea, o1, eb), o2, ec), s4)));
        assert(sp_infix_loop(st, Precedence::Lowest, ea) == Ok::<
            (ExprView, ParserView),
            ErrorView,
        >((infix_of(infix_of(ea, o1, eb), o2, ec), s4)));
    }
}

/// The index of the first entry with a key is the index of an entry with
/// that key, before which no entry has it; or it is the number of entries,
/// and no entry has the key.
pub proof fn lemma_key_index(pairs: Seq<(ObjectView, ObjectView)>, key: ObjectView)
    ensures
        key_index(pairs, key) <= pairs.len(),
        key_index(pairs, key) < pairs.len() ==> pairs[key_index(pairs, key) as int].0 == key,
        forall|j: int| 0 <= j < key_index(pairs, key) ==> pairs[j].0 != key,
    decreases pairs.len(),
{
    if pairs.len() > 0 && pairs[0].0 != key {
        let rest = pairs.subrange(1, pairs.len() as int);
        lemma_key_index(rest, key);
        assert forall|j: int| 0 <= j < key_index(pairs, key) implies pairs[j].0 != key by {
            if j > 0 {
                assert(pairs[j] == rest[j - 1]);
            }
        }
    }
}

/// The first entry with a key is found at an index `i` exactly if that
/// entry has the key and no entry before it has.
pub proof fn lemma_key_index_is(pairs: Seq<(ObjectView, ObjectView)>, key: ObjectView, i: int)
    requires
        0 <= i <= pairs.len(),
        i < pairs.len() ==> pairs[i].0 == key,
        forall|j: int| 0 <= j < i ==> pairs[j].0 != key,
    ensures
        key_index(pairs, key) == i,
{
    lemma_key_index(pairs, key);
}

/// A hash is a mapping. After a value is stored for a key, the hash holds
/// that value for the key and, for every other key, what it held before.
pub proof fn law_hash_put_then_get(
    pairs: Seq<(ObjectView, ObjectView)>,
    key: ObjectView,
    value: ObjectView,
    other: ObjectView,
)
    ensures
        hash_get(hash_put(pairs, key, value), key) == Some(value),
        other != key ==> hash_get(hash_put(pairs, key, value), other) == hash_get(pairs, other),
{
    lemma_key_index(pairs, key);
    lemma_key_index(pairs, other);
    let after = hash_put(pairs, key, value);
    let i = key_index(pairs, key) as int;
    lemma_key_index_is(after, key, i);
    if other != key {
        let j = key_index(pairs, other) as int;
        if j < pairs.len() {
            lemma_key_index_is(after, other, j);
        } else {
            lemma_key_index_is(after, other, after.len() as int);
        }
    }
}

/// The keys of a hash stay distinct, and its entries stay in the order in
/// which their keys first came: storing a value for a key that the hash
/// holds changes that entry alone, and storing one for a new key adds a
/// last entry.
pub proof fn law_hash_put_keeps_order(
    pairs: Seq<(ObjectView, ObjectView)>,
    key: ObjectView,
    value: ObjectView,
)
    requires
        forall|i: int, j: int| 0 <= i < j < pairs.len() ==> pairs[i].0 != pairs[j].0,
    ensures
        forall|i: int, j: int|
            0 <= i < j < hash_put(pairs, key, value).len() ==> hash_put(pairs, key, value)[i].0
                != hash_put(pairs, key, value)[j].0,
        hash_get(pairs, key) is Some ==> hash_put(pairs, key, value).len() == pairs.len(),
        hash_get(pairs, key) is None ==> hash_put(pairs, key, value) == pairs.push((key, value)),
        forall|i: int|
            0 <= i < pairs.len() ==> #[trigger] hash_put(pairs, key, value)[i].0 == pairs[i].0,
{
    lemma_key_index(pairs, key);
}

/// The text `a / b` of two integers that are not negative.
pub open spec fn division_text(a: i64, b: i64) -> Seq<char> {
    nat_decimal(a as nat) + " / "@ + nat_decimal(b as nat)
}

/// The text `a / b` lexes to the number `a`, a slash, the number `b`, and
/// the end.
pub proof fn lemma_division_text_tokens(a: i64, b: i64)
    requires
        a >= 0,
        b >= 0,
    ensures
        ({
            let s = division_text(a, b);
            let la = nat_decimal(a as nat).len() as int;
            &&& spec_next_token(s, 0) == (TokenView::Int(a), la)
            &&& spec_next_token(s, la) == (TokenView::Slash, la + 2)
            &&& spec_next_token(s, la + 2) == (TokenView::Int(b), s.len() as int)
            &&& spec_next_token(s, s.len() as int) == (TokenView::Eof, s.len() as int)
        }),
{
    let s = division_text(a, b);
    let first = nat_decimal(a as nat);
    let second = nat_decimal(b as nat);
    let la = first.len() as int;
    let n = s.len() as int;
    reveal_strlit(" / ");
    law_numeral_denotes_its_number(a as nat);
    law_numeral_denotes_its_number(b as nat);
    assert(n == la + 3 + second.len());
    assert forall|i: int| 0 <= i < la implies s[i] == first[i] by {}
    assert(s[la] == ' ' && s[la + 1] == '/' && s[la + 2] == ' ');
    assert forall|i: int| la + 3 <= i < n implies s[i] == second[i - la - 3] by {}
    // The first number.
    assert(is_digit_char(s[0]));
    assert(skip_spaces(s, 0) == 0);
    lemma_digits_run(s, 0, la);
    assert(s.subrange(0, la) =~= first);
    // The slash.
    assert(skip_spaces(s, la + 1) == la + 1);
    assert(skip_spaces(s, la) == la + 1);
    // The second number.
    assert(is_digit_char(s[la + 3]));
    assert(skip_spaces(s, la + 3) == la + 3);
    assert(skip_spaces(s, la + 2) == la + 3);
    lemma_digits_run(s, la + 3, n);
    assert(s.subrange(la + 3, n) =~= second);
    // The end.
    law_eof_forever(s);
}

/// The text `a / b` parses to the division of the two numbers.
pub proof fn lemma_division_text_parses(a: i64, b: i64)
    requires
        a >= 0,
        b >= 0,
    ensures
        parse_result(division_text(a, b)) == Ok::<Seq<StmtView>, ErrorView>(
            seq![StmtView::ExprStmt(division_of(a, b))],
        ),
{
    let s = division_text(a, b);
    let la = nat_decimal(a as nat).len() as int;
    let n = s.len() as int;
    lemma_division_text_tokens(a, b);
    let i0 = ParserView { cur: TokenView::Illegal, peek: TokenView::Illegal, input: s, pos: 0 };
    let i1 = i0.advance();
    let st = i1.advance();
    let st1 = st.advance();
    let st2 = st1.advance();
    let st3 = st2.advance();
    assert(i1 == ParserView {
        cur: TokenView::Illegal,
        peek: TokenView::Int(a),
        input: s,
        pos: la,
    });
    assert(st == ParserView {
        cur: TokenView::Int(a),
        peek: TokenView::Slash,
        input: s,
        pos: la + 2,
    });
    assert(st1 == ParserView { cur: TokenView::Slash, peek: TokenView::Int(b), input: s, pos: n });
    assert(st2 == ParserView { cur: TokenView::Int(b), peek: TokenView::Eof, input: s, pos: n });
    assert(st3 == ParserView { cur: TokenView::Eof, peek: TokenView::Eof, input: s, pos: n });
    assert(st == sp_start(s, 0));
    let left = ExprView::IntLiteral(a);
    let right = ExprView::IntLiteral(b);
    let whole = division_of(a, b);
    assert(sp_infix_loop(st2, Precedence::Product, right) == Ok::<
        (ExprView, ParserView),
        ErrorView,
    >((right, st2)));
    assert(sp_expr(st2, Precedence::Product) == Ok::<(ExprView, ParserView), ErrorView>(
        (right, st2),
    ));
    assert(sp_infix(st1, left) == Ok::<(ExprView, ParserView), ErrorView>((whole, st2)));
    assert(sp_infix_loop(st2, Precedence::Lowest, whole) == Ok::<
        (ExprView, ParserView),
        ErrorView,
    >((whole, st2)));
    assert(sp_infix_loop(st, Precedence::Lowest, left) == Ok::<(ExprView, ParserView), ErrorView>(
        (whole, st2),
    ));
    assert(sp_expr(st, Precedence::Lowest) == Ok::<(ExprView, ParserView), ErrorView>(
        (whole, st2),
    ));
    let stmt = StmtView::ExprStmt(whole);
    assert(st2.skip_semicolon() == st2);
    assert(sp_expr_stmt(st) == Ok::<(StmtView, ParserView), ErrorView>((stmt, st2)));
    assert(sp_stmt(st) == Ok::<(StmtView, ParserView), ErrorView>((stmt, st2)));
    assert(Seq::<StmtView>::empty().push(stmt) =~= seq![stmt]);
    assert(sp_program_loop(st3, seq![stmt]) == Ok::<(Seq<StmtView>, ParserView), ErrorView>(
        (seq![stmt], st3),
    ));
    assert(sp_program_loop(st, Seq::empty()) == Ok::<(Seq<StmtView>, ParserView), ErrorView>(
        (seq![stmt], st3),
    ));
}

/// Division, from text to value. For integers `a` and `b` that are not
/// negative, `b` not zero, evaluating the text `a / b` gives the quotient of
/// `a` by `b`, rounded towards zero.
pub proof fn law_division_of_numerals(a: i64, b: i64, fuel: nat)
    requires
        a >= 0,
        b > 0,
    ensures
        evaluate_result(division_text(a, b), fuel) == Ok::<ObjectView, ErrorView>(
            ObjectView::Int(quotient(a, b)),
        ),
        quotient(a, b) == a as int / b as int,
{
    lemma_division_text_parses(a, b);
    law_division_rounds_to_zero(a, b, fresh_env(), fuel);
    let stmts = seq![StmtView::ExprStmt(division_of(a, b))];
    let value = ObjectView::Int(quotient(a, b));
    assert(ev_stmt(stmts[0], fresh_env(), fuel) == (
        Ok::<ObjectView, ErrorView>(value),
        fresh_env(),
    ));
    assert(stmts.subrange(1, stmts.len() as int) =~= Seq::<StmtView>::empty());
    assert(ev_program_from(Seq::<StmtView>::empty(), fresh_env(), fuel, value) == (
        Ok::<ObjectView, ErrorView>(value),
        fresh_env(),
    ));
    assert(ev_program(stmts, fresh_env(), fuel) == (
        Ok::<ObjectView, ErrorView>(value),
        fresh_env(),
    ));
}

/// An expression is a literal that can be written down: an integer that
/// is not negative, a boolean, or a string that holds neither a double
/// quote nor a NUL character.
pub open spec fn is_written_literal(x: ExprView) -> bool {
    match x {
        ExprView::IntLiteral(v) => v >= 0,
        ExprView::BoolLiteral(_) => true,
        ExprView::StringLiteral(t) => forall|i: int|
            0 <= i < t.len() ==> t[i] != '"' && t[i] != '\0',
        _ => false,
    }
}

/// The token of a literal.
pub open spec fn literal_token(x: ExprView) -> TokenView {
    match x {
        ExprView::IntLiteral(v) => TokenView::Int(v),
        ExprView::BoolLiteral(b) => if b {
            TokenView::True
        } else {
            TokenView::False
        },
        ExprView::StringLiteral(t) => TokenView::String(t),
        _ => TokenView::Illegal,
    }
}

/// The value of a literal.
pub open spec fn literal_value(x: ExprView) -> ObjectView {
    match x {
        ExprView::IntLiteral(v) => ObjectView::Int(v),
        ExprView::BoolLiteral(b) => ObjectView::Bool(b),
        ExprView::StringLiteral(t) => ObjectView::String(t),
        _ => ObjectView::Null,
    }
}

/// The text `!!x` of a literal `x`.
pub open spec fn double_bang_text(x: ExprView) -> Seq<char> {
    "!!"@ + expr_text(x)
}

/// A run of letters ends where the letters end: at the first character
/// that is no letter, or at the end of the text.
pub proof fn lemma_letters_run(s: Seq<char>, pos: int, end: int)
    requires
        0 <= pos <= end <= s.len(),
        forall|i: int| pos <= i < end ==> is_letter_char(s[i]),
        end < s.len() ==> !is_letter_char(s[end]),
    ensures
        letters_end(s, pos) == end,
    decreases end - pos,
{
    if pos < end {
        lemma_letters_run(s, pos + 1, end);
    }
}

/// The body of a string literal ends at the first double quote or NUL
/// character, or at the end of the text.
pub proof fn lemma_string_run(s: Seq<char>, pos: int, end: int)
    requires
        0 <= pos <= end <= s.len(),
        forall|i: int| pos <= i < end ==> s[i] != '"' && s[i] != '\0',
        end < s.len() ==> s[end] == '"' || s[end] == '\0',
    ensures
        string_end(s, pos) == end,
    decreases end - pos,
{
    if pos < end {
        lemma_string_run(s, pos + 1, end);
    }
}

/// What is displayed is read back: where a text ends with the display of a
/// literal, the literal lexes to its token and uses up the text. The first
/// character of the display starts neither a separator nor an operator.
pub proof fn lemma_literal_lexes(s: Seq<char>, p: int, x: ExprView)
    requires
        is_written_literal(x),
        0 <= p <= s.len(),
        s.subrange(p, s.len() as int) == expr_text(x),
    ensures
        p < s.len(),
        s[p] != '=' && s[p] != '!' && s[p] != ' ',
        spec_next_token(s, p) == (literal_token(x), s.len() as int),
{
    let n = s.len() as int;
    let body = expr_text(x);
    assert forall|i: int| p <= i < n implies s[i] == body[i - p] by {
        assert(s.subrange(p, n)[i - p] == s[i]);
    }
    match x {
        ExprView::IntLiteral(v) => {
            law_numeral_denotes_its_number(v as nat);
            assert(is_digit_char(s[p])) by {
                assert(s[p] == body[0]);
            }
            assert(skip_spaces(s, p) == p);
            lemma_digits_run(s, p, n);
        },
        ExprView::BoolLiteral(b) => {
            reveal_strlit("true");
            reveal_strlit("false");
            reveal_strlit("let");
            reveal_strlit("fn");
            reveal_strlit("if");
            reveal_strlit("else");
            reveal_strlit("return");
            if b {
                assert(body.len() == 4);
                assert(body[0] == 't' && body[1] == 'r' && body[2] == 'u' && body[3] == 'e');
            } else {
                assert(body.len() == 5);
                assert(body[0] == 'f' && body[1] == 'a' && body[2] == 'l' && body[3] == 's'
                    && body[4] == 'e');
            }
            assert(n - p == body.len());
            assert(s[p] == body[0]);
            assert(skip_spaces(s, p) == p);
            assert forall|i: int| p <= i < n implies is_letter_char(s[i]) by {
                assert(s[i] == body[i - p]);
            }
            lemma_letters_run(s, p, n);
            if b {
                assert(keyword(body) == Some(TokenView::True)) by {
                    assert("true"@.len() == 4);
                }
            } else {
                assert(keyword(body) == Some(TokenView::False)) by {
                    assert("false"@.len() == 5);
                }
            }
        },
        ExprView::StringLiteral(t) => {
            reveal_strlit("\"");
            assert(body.len() == t.len() + 2);
            assert(body[0] == '"');
            assert(s[p] == '"') by {
                assert(s[p] == body[0]);
            }
            assert(skip_spaces(s, p) == p);
            assert forall|i: int| p + 1 <= i < n - 1 implies s[i] != '"' && s[i] != '\0' by {
                assert(s[i] == body[i - p]);
                assert(body[i - p] == t[i - p - 1]);
            }
            assert(s[n - 1] == '"') by {
                assert(s[n - 1] == body[n - 1 - p]);
            }
            lemma_string_run(s, p + 1, n - 1);
            assert(s.subrange(p + 1, n - 1) =~= t);
        },
        _ => {},
    }
}

/// The text `!!x` of a literal parses to the double negation of the
/// literal.
pub proof fn lemma_double_bang_text_parses(x: ExprView)
    requires
        is_written_literal(x),
    ensures
        parse_result(double_bang_text(x)) == Ok::<Seq<StmtView>, ErrorView>(
            seq![StmtView::ExprStmt(double_bang_of(x))],
        ),
{
    let s = double_bang_text(x);
    let n = s.len() as int;
    reveal_strlit("!!");
    assert(s[0] == '!' && s[1] == '!');
    assert(s.subrange(2, n) =~= expr_text(x));
    lemma_literal_lexes(s, 2, x);
    law_eof_forever(s);
    assert(skip_spaces(s, 0) == 0);
    assert(skip_spaces(s, 1) == 1);
    assert(spec_next_token(s, 0) == (TokenView::Bang, 1int));
    assert(spec_next_token(s, 1) == (TokenView::Bang, 2int));
    let lit = literal_token(x);
    let i0 = ParserView { cur: TokenView::Illegal, peek: TokenView::Illegal, input: s, pos: 0 };
    let i1 = i0.advance();
    let st = i1.advance();
    let st1 = st.advance();
    let st2 = st1.advance();
    let st3 = st2.advance();
    assert(i1 == ParserView { cur: TokenView::Illegal, peek: TokenView::Bang, input: s, pos: 1 });
    assert(st == ParserView { cur: TokenView::Bang, peek: TokenView::Bang, input: s, pos: 2 });
    assert(st1 == ParserView { cur: TokenView::Bang, peek: lit, input: s, pos: n });
    assert(st2 == ParserView { cur: lit, peek: TokenView::Eof, input: s, pos: n });
    assert(st3 == ParserView { cur: TokenView::Eof, peek: TokenView::Eof, input: s, pos: n });
    assert(st == sp_start(s, 0));
    let inner = ExprView::PrefixExpr { op: Prefix::Bang, right: Box::new(x) };
    let whole = double_bang_of(x);
    assert(sp_infix_loop(st2, Precedence::Prefix, x) == Ok::<(ExprView, ParserView), ErrorView>(
        (x, st2),
    ));
    assert(sp_expr(st2, Precedence::Prefix) == Ok::<(ExprView, ParserView), ErrorView>((x, st2)));
    assert(sp_prefix(st1) == Ok::<(ExprView, ParserView), ErrorView>((inner, st2)));
    assert(sp_infix_loop(st2, Precedence::Prefix, inner) == Ok::<
        (ExprView, ParserView),
        ErrorView,
    >((inner, st2)));
    assert(sp_expr(st1, Precedence::Prefix) == Ok::<(ExprView, ParserView), ErrorView>(
        (inner, st2),
    ));
    assert(sp_prefix(st) == Ok::<(ExprView, ParserView), ErrorView>((whole, st2)));
    assert(sp_infix_loop(st2, Precedence::Lowest, whole) == Ok::<
        (ExprView, ParserView),
        ErrorView,
    >((whole, st2)));
    assert(sp_expr(st, Precedence::Lowest) == Ok::<(ExprView, ParserView), ErrorView>(
        (whole, st2),
    ));
    let stmt = StmtView::ExprStmt(whole);
    assert(st2.skip_semicolon() == st2);
    assert(sp_expr_stmt(st) == Ok::<(StmtView, ParserView), ErrorView>((stmt, st2)));
    assert(sp_stmt(st) == Ok::<(StmtView, ParserView), ErrorView>((stmt, st2)));
    assert(Seq::<StmtView>::empty().push(stmt) =~= seq![stmt]);
    lemma_advance(st);
    lemma_advance(st1);
    assert(sp_program_loop(st3, seq![stmt]) == Ok::<(Seq<StmtView>, ParserView), ErrorView>(
        (seq![stmt], st3),
    ));
    assert(sp_program_loop(st, Seq::empty()) == Ok::<(Seq<StmtView>, ParserView), ErrorView>(
        (seq![stmt], st3),
    ));
}

/// Double negation, from text to value. For every literal `x` that can be
/// written down, evaluating the text `!!x` gives the boolean that says
/// whether the value of `x` counts as true: `x` itself for a boolean, and
/// true for an integer and for a string.
pub proof fn law_double_bang_of_literals(x: ExprView, fuel: nat)
    requires
        is_written_literal(x),
    ensures
        evaluate_result(double_bang_text(x), fuel) == Ok::<ObjectView, ErrorView>(
            ObjectView::Bool(literal_value(x).is_truthy()),
        ),
        ev_expr(x, fresh_env(), fuel) == (
            Ok::<ObjectView, ErrorView>(literal_value(x)),
            fresh_env(),
        ),
{
    lemma_double_bang_text_parses(x);
    law_double_bang(x, fresh_env(), fuel);
    let stmts = seq![StmtView::ExprStmt(double_bang_of(x))];
    let value = ObjectView::Bool(literal_value(x).is_truthy());
    assert(ev_expr(x, fresh_env(), fuel) == (
        Ok::<ObjectView, ErrorView>(literal_value(x)),
        fresh_env(),
    ));
    assert(ev_stmt(stmts[0], fresh_env(), fuel) == (
        Ok::<ObjectView, ErrorView>(value),
        fresh_env(),
    ));
    assert(stmts.subrange(1, stmts.len() as int) =~= Seq::<StmtView>::empty());
    assert(ev_program_from(Seq::<StmtView>::empty(), fresh_env(), fuel, value) == (
        Ok::<ObjectView, ErrorView>(value),
        fresh_env(),
    ));
    assert(ev_program(stmts, fresh_env(), fuel) == (
        Ok::<ObjectView, ErrorView>(value),
        fresh_env(),
    ));
}

} // verus!
