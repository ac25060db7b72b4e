//! The meaning of programs: what evaluating a syntax tree returns and how
//! it changes the environment.
//!
//! The environment is a list of scopes that only grows. A function value
//! holds the index of the scope it was made in, so that bindings made there
//! later are seen by the function when it runs. Calls may be nested `fuel`
//! deep; a call beyond that fails.
use vstd::prelude::*;
use crate::arith::{negation, quotient};
use crate::ast::{expr_text, ExprView, StmtView};
use crate::builtin::{builtin_output, builtin_result, builtin_table};
use crate::error::{ErrorView, EvalErrorKindView};
use crate::object::ObjectView;
use crate::operator::{Infix, Prefix};
use crate::scope::{assoc_get, ScopeView};

verus! {

/// The environment of an evaluation.
pub struct EnvView {
    /// All scopes made so far, the root first.
    pub scopes: Seq<ScopeView>,
    /// The index of the scope in which evaluation goes on.
    pub current: nat,
    /// The lines put out so far.
    pub output: Seq<Seq<char>>,
}

/// The bindings of the first `n` parameters to the first `n` arguments. A
/// parameter that is no identifier binds nothing.
pub open spec fn bound_params(params: Seq<ExprView>, args: Seq<ObjectView>, n: nat) -> Map<
    Seq<char>,
    ObjectView,
>
    decreases n,
{
    if n == 0 {
        Map::empty()
    } else {
        let before = bound_params(params, args, (n - 1) as nat);
        match params[n - 1] {
            ExprView::Ident(name) => before.insert(name, args[n - 1]),
            _ => before,
        }
    }
}

/// The smaller of two lengths.
pub open spec fn shorter(a: nat, b: nat) -> nat {
    if a <= b {
        a
    } else {
        b
    }
}

impl EnvView {
    /// The value of `key` as seen from the scope at `idx`: the binding in
    /// that scope, or else in the nearest enclosing scope that has one. A
    /// link to an enclosing scope only ever leads to an earlier scope.
    pub open spec fn lookup_from(self, idx: nat, key: Seq<char>) -> Option<ObjectView>
        decreases idx,
    {
        if idx >= self.scopes.len() {
            None
        } else if self.scopes[idx as int].store.contains_key(key) {
            Some(self.scopes[idx as int].store[key])
        } else {
            match self.scopes[idx as int].parent {
                Some(p) => if p < idx {
                    self.lookup_from(p, key)
                } else {
                    None
                },
                None => None,
            }
        }
    }

    /// The value of `key` as seen from the current scope.
    pub open spec fn lookup(self, key: Seq<char>) -> Option<ObjectView> {
        self.lookup_from(self.current, key)
    }

    /// The environment after `key` is bound to `val` in the current scope.
    pub open spec fn bind(self, key: Seq<char>, val: ObjectView) -> EnvView {
        if self.current < self.scopes.len() {
            let scope = self.scopes[self.current as int];
            EnvView {
                scopes: self.scopes.update(
                    self.current as int,
                    ScopeView { store: scope.store.insert(key, val), parent: scope.parent },
                ),
                current: self.current,
                output: self.output,
            }
        } else {
            self
        }
    }

    /// The environment at the start of a call: a new scope, enclosed by the
    /// scope at `scope`, holds the parameters bound to the arguments, and is
    /// the current scope. Arguments without a parameter are dropped, and
    /// parameters without an argument stay unbound.
    pub open spec fn enter(
        self,
        scope: nat,
        params: Seq<ExprView>,
        args: Seq<ObjectView>,
    ) -> EnvView {
        EnvView {
            scopes: self.scopes.push(
                ScopeView {
                    store: bound_params(params, args, shorter(params.len(), args.len())),
                    parent: Some(scope),
                },
            ),
            current: self.scopes.len(),
            output: self.output,
        }
    }

    /// The environment with the scope at `to` as the current scope.
    pub open spec fn leave(self, to: nat) -> EnvView {
        EnvView { scopes: self.scopes, current: to, output: self.output }
    }

    /// The environment after `lines` have been put out.
    pub open spec fn put(self, lines: Seq<Seq<char>>) -> EnvView {
        EnvView { scopes: self.scopes, current: self.current, output: self.output + lines }
    }
}

/// The value of an identifier: its binding in scope, or else the native
/// function of that name.
pub open spec fn ident_result(st: EnvView, name: Seq<char>) -> Result<ObjectView, ErrorView> {
    match st.lookup(name) {
        Some(v) => Ok(v),
        None => match assoc_get(builtin_table(), name) {
            Some(b) => Ok(b),
            None => Err(ErrorView::EvalError(EvalErrorKindView::UncaughtRef { ident: name })),
        },
    }
}

/// `!v`: the negation of the truthiness of `v`.
pub open spec fn bang(v: ObjectView) -> ObjectView {
    match v {
        ObjectView::Bool(b) => ObjectView::Bool(!b),
        ObjectView::Null => ObjectView::Bool(true),
        _ => ObjectView::Bool(false),
    }
}

/// `-v`: defined on integers alone.
pub open spec fn minus(v: ObjectView) -> Result<ObjectView, ErrorView> {
    match v {
        ObjectView::Int(i) => Ok(ObjectView::Int(negation(i))),
        _ => Err(
            ErrorView::EvalError(
                EvalErrorKindView::UnknownPrefixOperator {
                    op: Prefix::Minus,
                    right: v.kind_name(),
                },
            ),
        ),
    }
}

/// The value of a prefix operator applied to `v`.
pub open spec fn prefix_result(op: Prefix, v: ObjectView) -> Result<ObjectView, ErrorView> {
    match op {
        Prefix::Minus => minus(v),
        Prefix::Bang => Ok(bang(v)),
    }
}

/// The value of an infix operator applied to two integers. Sums,
/// differences and products wrap around; a division by zero fails.
pub open spec fn int_infix(op: Infix, a: i64, b: i64) -> Result<ObjectView, ErrorView> {
    match op {
        Infix::Plus => Ok(ObjectView::Int(a.wrapping_add(b))),
        Infix::Minus => Ok(ObjectView::Int(a.wrapping_sub(b))),
        Infix::Asterisk => Ok(ObjectView::Int(a.wrapping_mul(b))),
        Infix::Slash => if b == 0 {
            Err(ErrorView::EvalError(EvalErrorKindView::DivisionByZero))
        } else {
            Ok(ObjectView::Int(quotient(a, b)))
        },
        Infix::Lt => Ok(ObjectView::Bool(a < b)),
        Infix::Gt => Ok(ObjectView::Bool(a > b)),
        Infix::Eq => Ok(ObjectView::Bool(a == b)),
        Infix::NotEq => Ok(ObjectView::Bool(a != b)),
    }
}

/// The error for an operator that the common type of its operands does not
/// take.
pub open spec fn unknown_infix(op: Infix, l: ObjectView, r: ObjectView) -> ErrorView {
    ErrorView::EvalError(
        EvalErrorKindView::UnknownInfixOperator { op, left: l.kind_name(), right: r.kind_name() },
    )
}

/// The value of an infix operator applied to `l` and `r`.
pub open spec fn infix_result(op: Infix, l: ObjectView, r: ObjectView) -> Result<
    ObjectView,
    ErrorView,
> {
    match (l, r) {
        (ObjectView::Int(a), ObjectView::Int(b)) => int_infix(op, a, b),
        (ObjectView::Bool(a), ObjectView::Bool(b)) => match op {
            Infix::Eq => Ok(ObjectView::Bool(a == b)),
            Infix::NotEq => Ok(ObjectView::Bool(a != b)),
            _ => Err(unknown_infix(op, l, r)),
        },
        (ObjectView::String(a), ObjectView::String(b)) => match op {
            Infix::Plus => Ok(ObjectView::String(a + b)),
            _ => Err(unknown_infix(op, l, r)),
        },
        _ => if l.kind_name() != r.kind_name() {
            Err(
                ErrorView::EvalError(
                    EvalErrorKindView::TypeMismatch {
                        op,
                        left: l.kind_name(),
                        right: r.kind_name(),
                    },
                ),
            )
        } else {
            Err(unknown_infix(op, l, r))
        },
    }
}

/// The index of the first entry with the key `key`, or the number of
/// entries if there is none.
pub open spec fn key_index(pairs: Seq<(ObjectView, ObjectView)>, key: ObjectView) -> nat
    decreases pairs.len(),
{
    if pairs.len() == 0 {
        0
    } else if pairs[0].0 == key {
        0
    } else {
        1 + key_index(pairs.subrange(1, pairs.len() as int), key)
    }
}

/// The value that a hash holds for `key`.
pub open spec fn hash_get(pairs: Seq<(ObjectView, ObjectView)>, key: ObjectView) -> Option<
    ObjectView,
> {
    let i = key_index(pairs, key);
    if i < pairs.len() {
        Some(pairs[i as int].1)
    } else {
        None
    }
}

/// The entries of a hash after `value` is stored for `key`: in place of the
/// value held for `key` before, or else as a new last entry.
pub open spec fn hash_put(
    pairs: Seq<(ObjectView, ObjectView)>,
    key: ObjectView,
    value: ObjectView,
) -> Seq<(ObjectView, ObjectView)> {
    let i = key_index(pairs, key);
    if i < pairs.len() {
        pairs.update(i as int, (key, value))
    } else {
        pairs.push((key, value))
    }
}

/// The error for a key that is no integer, boolean or string.
pub open spec fn bad_key(key: ObjectView) -> ErrorView {
    ErrorView::EvalError(EvalErrorKindView::UnsupportedKeyType { key: key.kind_name() })
}

/// The value of `left[index]`: an element of an array or null where the
/// index is out of range; the value a hash holds for a key, or null where
/// it holds none.
pub open spec fn index_result(left: ObjectView, index: ObjectView) -> Result<
    ObjectView,
    ErrorView,
> {
    match (left, index) {
        (ObjectView::Array { elements }, ObjectView::Int(i)) => if 0 <= i < elements.len() {
            Ok(elements[i as int])
        } else {
            Ok(ObjectView::Null)
        },
        (ObjectView::Hash(pairs), _) => if index.is_hashable() {
            match hash_get(pairs, index) {
                Some(v) => Ok(v),
                None => Ok(ObjectView::Null),
            }
        } else {
            Err(bad_key(index))
        },
        _ => Err(
            ErrorView::EvalError(
                EvalErrorKindView::UnsupportedIndex {
                    left: left.kind_name(),
                    index: index.kind_name(),
                },
            ),
        ),
    }
}

/// What a call returns once its body has returned: the value of a `return`
/// without its wrapper, any other value or error as it is.
pub open spec fn unwrap_return(r: Result<ObjectView, ErrorView>) -> Result<ObjectView, ErrorView> {
    match r {
        Ok(ObjectView::ReturnValue(v)) => Ok(*v),
        other => other,
    }
}

/// The error of a call nested deeper than the limit.
pub open spec fn too_deep() -> ErrorView {
    ErrorView::EvalError(EvalErrorKindView::CallDepthExceeded)
}

/// The value of an expression and the environment after its evaluation.
pub open spec fn ev_expr(e: ExprView, st: EnvView, fuel: nat) -> (
    Result<ObjectView, ErrorView>,
    EnvView,
)
    decreases 2 * fuel + 1, e,
{
    match e {
        ExprView::Ident(name) => (ident_result(st, name), st),
        ExprView::IntLiteral(v) => (Ok(ObjectView::Int(v)), st),
        ExprView::BoolLiteral(b) => (Ok(ObjectView::Bool(b)), st),
        ExprView::StringLiteral(s) => (Ok(ObjectView::String(s)), st),
        ExprView::If { condition, consequence, alternative } => {
            let (rc, st1) = ev_expr(*condition, st, fuel);
            match rc {
                Err(err) => (Err(err), st1),
                Ok(c) => if c.is_truthy() {
                    ev_stmt(*consequence, st1, fuel)
                } else {
                    match alternative {
                        Some(alt) => ev_stmt(*alt, st1, fuel),
                        None => (Ok(ObjectView::Null), st1),
                    }
                },
            }
        },
        ExprView::PrefixExpr { op, right } => {
            let (rr, st1) = ev_expr(*right, st, fuel);
            match rr {
                Err(err) => (Err(err), st1),
                Ok(v) => (prefix_result(op, v), st1),
            }
        },
        ExprView::InfixExpr { left, right, op } => {
            let (rl, st1) = ev_expr(*left, st, fuel);
            match rl {
                Err(err) => (Err(err), st1),
                Ok(l) => {
                    let (rr, st2) = ev_expr(*right, st1, fuel);
                    match rr {
                        Err(err) => (Err(err), st2),
                        Ok(r) => (infix_result(op, l, r), st2),
                    }
                },
            }
        },
        ExprView::Func { params, body } => (
            Ok(ObjectView::Func { params, body: *body, scope: st.current }),
            st,
        ),
        ExprView::Call { callee, args } => {
            let (rc, st1) = ev_expr(*callee, st, fuel);
            match rc {
                Err(err) => (Err(err), st1),
                Ok(c) => {
                    let (ra, st2) = ev_exprs(args, st1, fuel, Seq::empty());
                    match ra {
                        Err(err) => (Err(err), st2),
                        Ok(a) => ev_apply(c, a, st2, fuel),
                    }
                },
            }
        },
        ExprView::Array { elements } => {
            let (ra, st1) = ev_exprs(elements, st, fuel, Seq::empty());
            match ra {
                Err(err) => (Err(err), st1),
                Ok(a) => (Ok(ObjectView::Array { elements: a }), st1),
            }
        },
        ExprView::IndexExpr { left, index } => {
            let (rl, st1) = ev_expr(*left, st, fuel);
            match rl {
                Err(err) => (Err(err), st1),
                Ok(l) => {
                    let (ri, st2) = ev_expr(*index, st1, fuel);
                    match ri {
                        Err(err) => (Err(err), st2),
                        Ok(i) => (index_result(l, i), st2),
                    }
                },
            }
        },
        ExprView::HashLiteral { pairs } => ev_pairs(pairs, st, fuel, Seq::empty()),
    }
}

/// The values of the expressions `es`, in order, after the values `acc`.
pub open spec fn ev_exprs(es: Seq<ExprView>, st: EnvView, fuel: nat, acc: Seq<ObjectView>) -> (
    Result<Seq<ObjectView>, ErrorView>,
    EnvView,
)
    decreases 2 * fuel + 1, es,
{
    if es.len() == 0 {
        (Ok(acc), st)
    } else {
        let (r, st1) = ev_expr(es[0], st, fuel);
        match r {
            Err(err) => (Err(err), st1),
            Ok(v) => ev_exprs(es.subrange(1, es.len() as int), st1, fuel, acc.push(v)),
        }
    }
}

/// The hash of the entries `acc` and then the pairs `pairs`: of each pair
/// the key is evaluated, then the value, and then the value is stored for
/// the key.
pub open spec fn ev_pairs(
    pairs: Seq<(ExprView, ExprView)>,
    st: EnvView,
    fuel: nat,
    acc: Seq<(ObjectView, ObjectView)>,
) -> (Result<ObjectView, ErrorView>, EnvView)
    decreases 2 * fuel + 1, pairs,
{
    if pairs.len() == 0 {
        (Ok(ObjectView::Hash(acc)), st)
    } else {
        proof {
            assert(decreases_to!(pairs => pairs[0]));
            assert(decreases_to!(pairs[0] => pairs[0].0));
            assert(decreases_to!(pairs[0] => pairs[0].1));
        }
        let (rk, st1) = ev_expr(pairs[0].0, st, fuel);
        match rk {
            Err(err) => (Err(err), st1),
            Ok(k) => {
                let (rv, st2) = ev_expr(pairs[0].1, st1, fuel);
                match rv {
                    Err(err) => (Err(err), st2),
                    Ok(v) => if k.is_hashable() {
                        ev_pairs(
                            pairs.subrange(1, pairs.len() as int),
                            st2,
                            fuel,
                            hash_put(acc, k, v),
                        )
                    } else {
                        (Err(bad_key(k)), st2)
                    },
                }
            },
        }
    }
}

/// The value of a statement and the environment after its evaluation. A
/// `return` gives its value in a wrapper that ends the blocks around it.
pub open spec fn ev_stmt(s: StmtView, st: EnvView, fuel: nat) -> (
    Result<ObjectView, ErrorView>,
    EnvView,
)
    decreases 2 * fuel + 1, s,
{
    match s {
        StmtView::LetStmt { name, value } => {
            let (r, st1) = ev_expr(value, st, fuel);
            match r {
                Err(err) => (Err(err), st1),
                Ok(v) => (Ok(ObjectView::Null), st1.bind(expr_text(name), v)),
            }
        },
        StmtView::ReturnStmt(e) => {
            let (r, st1) = ev_expr(e, st, fuel);
            match r {
                Err(err) => (Err(err), st1),
                Ok(v) => (Ok(ObjectView::ReturnValue(Box::new(v))), st1),
            }
        },
        StmtView::ExprStmt(e) => ev_expr(e, st, fuel),
        StmtView::BlockStmt { stmts } => ev_block(stmts, st, fuel, ObjectView::Null),
    }
}

/// The value of the statements `stmts` of a block, where the statement
/// before them gave `last`: the value of the last statement, or of the
/// first one that gives a wrapped return value.
pub open spec fn ev_block(stmts: Seq<StmtView>, st: EnvView, fuel: nat, last: ObjectView) -> (
    Result<ObjectView, ErrorView>,
    EnvView,
)
    decreases 2 * fuel + 1, stmts,
{
    if stmts.len() == 0 {
        (Ok(last), st)
    } else {
        let (r, st1) = ev_stmt(stmts[0], st, fuel);
        match r {
            Err(err) => (Err(err), st1),
            Ok(v) => if v is ReturnValue {
                (Ok(v), st1)
            } else {
                ev_block(stmts.subrange(1, stmts.len() as int), st1, fuel, v)
            },
        }
    }
}

/// The value of a call of `callee` on `args`. A function runs its body in a
/// new scope and then evaluation goes on in the scope of the caller; this
/// takes one unit of `fuel`.
pub open spec fn ev_apply(callee: ObjectView, args: Seq<ObjectView>, st: EnvView, fuel: nat) -> (
    Result<ObjectView, ErrorView>,
    EnvView,
)
    decreases 2 * fuel, callee,
{
    match callee {
        ObjectView::Func { params, body, scope } => if fuel == 0 {
            (Err(too_deep()), st)
        } else {
            let (r, st1) = ev_stmt(body, st.enter(scope, params, args), (fuel - 1) as nat);
            (unwrap_return(r), st1.leave(st.current))
        },
        ObjectView::BuiltIn { func } => (
            builtin_result(func, args),
            st.put(builtin_output(func, args)),
        ),
        _ => (Err(ErrorView::Custom(""@)), st),
    }
}

/// The value of the statements `stmts` of a program, where the statement
/// before them gave `last`: the value of the last statement, or the value
/// returned by the first `return`.
pub open spec fn ev_program_from(
    stmts: Seq<StmtView>,
    st: EnvView,
    fuel: nat,
    last: ObjectView,
) -> (Result<ObjectView, ErrorView>, EnvView)
    decreases stmts.len(),
{
    if stmts.len() == 0 {
        (Ok(last), st)
    } else {
        let (r, st1) = ev_stmt(stmts[0], st, fuel);
        match r {
            Err(err) => (Err(err), st1),
            Ok(ObjectView::ReturnValue(v)) => (Ok(*v), st1),
            Ok(v) => ev_program_from(stmts.subrange(1, stmts.len() as int), st1, fuel, v),
        }
    }
}

/// The value of a program and the environment after its evaluation.
pub open spec fn ev_program(stmts: Seq<StmtView>, st: EnvView, fuel: nat) -> (
    Result<ObjectView, ErrorView>,
    EnvView,
) {
    ev_program_from(stmts, st, fuel, ObjectView::Null)
}

} // verus!
