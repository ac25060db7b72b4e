//! The evaluator: walks a syntax tree and computes its value in an
//! environment of nested scopes.
use vstd::prelude::*;
use vstd::string::*;
use crate::arith::{divide, negate};
use crate::ast::{
    clone_exprs, clone_stmt, exprs_view, lemma_expr_view_lists, lemma_stmt_view_block, pairs_view,
    stmts_view, Expr, ExprView, Program, Stmt,
};
use crate::builtin::{builtin_table, builtins, call_builtin, lines_view, value_outcome};
use crate::error::{ErrorView, EvalErrorKind, RMonkeyError};
use crate::object::{
    clone_object, entries_view, lemma_object_view_lists, objects_view, Object, ObjectView,
};
use crate::operator::{Infix, Prefix};
use crate::parser::{parse, parse_result};
use crate::scope::{bindings_view, find_binding, lemma_assoc_get, Scope, ScopeView};
use crate::semantics::{
    bang, bound_params, ev_apply, ev_block, ev_expr, ev_exprs, ev_pairs, ev_program,
    ev_program_from, ev_stmt, hash_get, hash_put, ident_result, index_result, infix_result,
    int_infix, key_index, minus, prefix_result, unknown_infix, EnvView,
};
use crate::text::str_eq;

verus! {

/// The depth to which calls may be nested unless another limit is asked for.
pub const DEFAULT_MAX_DEPTH: usize = 200;

/// The environment of a new evaluator: an empty root scope, which is
/// current, and nothing put out.
pub open spec fn fresh_env() -> EnvView {
    EnvView {
        scopes: seq![ScopeView { store: Map::empty(), parent: None }],
        current: 0,
        output: Seq::empty(),
    }
}

/// What evaluating the text `source` in a new evaluator gives, with calls
/// nested up to `fuel` deep: the error of the parse, or else the value or
/// the error of the evaluation.
pub open spec fn evaluate_result(source: Seq<char>, fuel: nat) -> Result<ObjectView, ErrorView> {
    match parse_result(source) {
        Err(e) => Err(e),
        Ok(stmts) => ev_program(stmts, fresh_env(), fuel).0,
    }
}

/// The values of a list of scopes.
pub open spec fn scopes_view(scopes: Seq<Scope>) -> Seq<ScopeView> {
    Seq::new(scopes.len(), |i: int| scopes[i]@)
}

/// What the evaluation of a list of expressions gave, as mathematical
/// values.
pub open spec fn values_outcome(r: Result<Vec<Object>, RMonkeyError>) -> Result<
    Seq<ObjectView>,
    ErrorView,
> {
    match r {
        Ok(vs) => Ok(objects_view(vs@)),
        Err(e) => Err(e@),
    }
}

/// The index of the first entry of `pairs` whose key is `key`, or the
/// number of entries if there is none.
fn find_key(pairs: &Vec<(Object, Object)>, key: &Object) -> (i: usize)
    requires
        key@.is_hashable(),
    ensures
        i == key_index(entries_view(pairs@), key@),
        i <= pairs.len(),
{
    let ghost all = entries_view(pairs@);
    let mut i: usize = 0;
    proof {
        assert(all.subrange(0, all.len() as int) =~= all);
    }
    while i < pairs.len()
        invariant
            i <= pairs.len(),
            all == entries_view(pairs@),
            key@.is_hashable(),
            key_index(all, key@) == i + key_index(all.subrange(i as int, all.len() as int), key@),
        decreases pairs.len() - i,
    {
        let ghost tail = all.subrange(i as int, all.len() as int);
        proof {
            assert(tail[0] == all[i as int]);
            assert(tail.subrange(1, tail.len() as int) =~= all.subrange(
                i + 1,
                all.len() as int,
            ));
        }
        if pairs[i].0.same_key(key) {
            return i;
        }
        i += 1;
    }
    i
}

/// Stores `value` for `key` in the entries of a hash.
fn hash_insert(pairs: &mut Vec<(Object, Object)>, key: Object, value: Object)
    requires
        key@.is_hashable(),
    ensures
        entries_view(final(pairs)@) == hash_put(entries_view(old(pairs)@), key@, value@),
{
    let i = find_key(pairs, &key);
    let ghost before = entries_view(pairs@);
    let ghost kv = (key@, value@);
    if i < pairs.len() {
        pairs[i] = (key, value);
        proof {
            assert(entries_view(pairs@) =~= before.update(i as int, kv));
        }
    } else {
        pairs.push((key, value));
        proof {
            assert(entries_view(pairs@) =~= before.push(kv));
        }
    }
}

/// `!right`.
pub fn eval_bang_operator_expr(right: &Object) -> (r: Object)
    ensures
        r@ == bang(right@),
{
    match right {
        Object::Bool(val) => Object::Bool(!*val),
        Object::Null => Object::Bool(true),
        _ => Object::Bool(false),
    }
}

/// `-right`.
pub fn eval_minus_operator_expr(right: &Object) -> (r: Result<Object, RMonkeyError>)
    ensures
        value_outcome(r) == minus(right@),
{
    match right {
        Object::Int(val) => Ok(Object::Int(negate(*val))),
        _ => Err(
            RMonkeyError::EvalError(
                EvalErrorKind::UnknownPrefixOperator {
                    op: Prefix::Minus,
                    right: right.obj_type().to_owned(),
                },
            ),
        ),
    }
}

/// A prefix operator applied to a value.
pub fn eval_prefix_object(op: Prefix, right: &Object) -> (r: Result<Object, RMonkeyError>)
    ensures
        value_outcome(r) == prefix_result(op, right@),
{
    match op {
        Prefix::Minus => eval_minus_operator_expr(right),
        Prefix::Bang => Ok(eval_bang_operator_expr(right)),
    }
}

fn native_bool_to_bool_object(val: bool) -> (r: Object)
    ensures
        r@ == ObjectView::Bool(val),
{
    if val {
        Object::Bool(true)
    } else {
        Object::Bool(false)
    }
}

/// An infix operator applied to two integers.
pub fn eval_int_infix_expr(op: Infix, left: i64, right: i64) -> (r: Result<Object, RMonkeyError>)
    ensures
        value_outcome(r) == int_infix(op, left, right),
{
    match op {
        Infix::Plus => Ok(Object::Int(left.wrapping_add(right))),
        Infix::Minus => Ok(Object::Int(left.wrapping_sub(right))),
        Infix::Asterisk => Ok(Object::Int(left.wrapping_mul(right))),
        Infix::Slash => {
            if right == 0 {
                Err(RMonkeyError::EvalError(EvalErrorKind::DivisionByZero))
            } else {
                Ok(Object::Int(divide(left, right)))
            }
        },
        Infix::Lt => Ok(native_bool_to_bool_object(left < right)),
        Infix::Gt => Ok(native_bool_to_bool_object(left > right)),
        Infix::Eq => Ok(native_bool_to_bool_object(left == right)),
        Infix::NotEq => Ok(native_bool_to_bool_object(left != right)),
    }
}

fn unknown_infix_error(op: Infix, left: &Object, right: &Object) -> (e: RMonkeyError)
    ensures
        e@ == unknown_infix(op, left@, right@),
{
    RMonkeyError::EvalError(
        EvalErrorKind::UnknownInfixOperator {
            op,
            left: left.obj_type().to_owned(),
            right: right.obj_type().to_owned(),
        },
    )
}

/// An infix operator applied to two values.
pub fn eval_infix_objects(op: Infix, left: &Object, right: &Object) -> (r: Result<
    Object,
    RMonkeyError,
>)
    ensures
        value_outcome(r) == infix_result(op, left@, right@),
{
    match (left, right) {
        (Object::Int(left_val), Object::Int(right_val)) => eval_int_infix_expr(
            op,
            *left_val,
            *right_val,
        ),
        (Object::Bool(left_val), Object::Bool(right_val)) => match op {
            Infix::Eq => Ok(native_bool_to_bool_object(*left_val == *right_val)),
            Infix::NotEq => Ok(native_bool_to_bool_object(*left_val != *right_val)),
            _ => Err(unknown_infix_error(op, left, right)),
        },
        (Object::String(left_val), Object::String(right_val)) => match op {
            Infix::Plus => {
                let mut joined = left_val.clone();
                joined.append(right_val.as_str());
                Ok(Object::String(joined))
            },
            _ => Err(unknown_infix_error(op, left, right)),
        },
        _ => {
            if !str_eq(left.obj_type(), right.obj_type()) {
                Err(
                    RMonkeyError::EvalError(
                        EvalErrorKind::TypeMismatch {
                            op,
                            left: left.obj_type().to_owned(),
                            right: right.obj_type().to_owned(),
                        },
                    ),
                )
            } else {
                Err(unknown_infix_error(op, left, right))
            }
        },
    }
}

/// Whether a value counts as true in a condition.
pub fn is_truthy(obj: &Object) -> (r: bool)
    ensures
        r == obj@.is_truthy(),
{
    match obj {
        Object::Bool(val) => *val,
        Object::Null => false,
        _ => true,
    }
}

/// The element of `arr` at `index`, or null where there is none.
pub fn eval_array_index_expr(arr: &Vec<Object>, index: i64) -> (r: Object)
    ensures
        r@ == (if 0 <= index < arr.len() {
            arr[index as int]@
        } else {
            ObjectView::Null
        }),
{
    if index < 0 {
        return Object::Null;
    }
    let i = index as u64;
    if i >= arr.len() as u64 {
        return Object::Null;
    }
    clone_object(&arr[i as usize])
}

/// The value that the entries `pairs` of a hash hold for `index`, or null
/// where they hold none.
fn eval_hash_index_expr(pairs: &Vec<(Object, Object)>, index: &Object) -> (r: Object)
    requires
        index@.is_hashable(),
    ensures
        r@ == (match hash_get(entries_view(pairs@), index@) {
            Some(v) => v,
            None => ObjectView::Null,
        }),
{
    let i = find_key(pairs, index);
    if i < pairs.len() {
        clone_object(&pairs[i].1)
    } else {
        Object::Null
    }
}

/// `left[index]`.
pub fn eval_index_expr(left: &Object, index: &Object) -> (r: Result<Object, RMonkeyError>)
    ensures
        value_outcome(r) == index_result(left@, index@),
{
    proof {
        lemma_object_view_lists(*left);
    }
    match (left, index) {
        (Object::Array { elements }, Object::Int(val)) => {
            proof {
                assert(objects_view(elements@).len() == elements.len());
                if 0 <= *val < elements.len() {
                    assert(objects_view(elements@)[*val as int] == elements[*val as int]@);
                }
            }
            Ok(eval_array_index_expr(elements, *val))
        },
        (Object::Hash(pairs), _) => {
            if index.is_hashable() {
                Ok(eval_hash_index_expr(pairs, index))
            } else {
                Err(
                    RMonkeyError::EvalError(
                        EvalErrorKind::UnsupportedKeyType { key: index.obj_type().to_owned() },
                    ),
                )
            }
        },
        _ => Err(
            RMonkeyError::EvalError(
                EvalErrorKind::UnsupportedIndex {
                    left: left.obj_type().to_owned(),
                    index: index.obj_type().to_owned(),
                },
            ),
        ),
    }
}

/// An evaluator: an environment of scopes, the table of native functions,
/// the lines put out, and the limit on the depth of calls.
#[derive(Debug)]
pub struct Evaluator {
    scopes: Vec<Scope>,
    current: usize,
    builtin: Vec<(String, Object)>,
    output: Vec<String>,
    max_depth: usize,
}

impl View for Evaluator {
    type V = EnvView;

    closed spec fn view(&self) -> EnvView {
        EnvView {
            scopes: scopes_view(self.scopes@),
            current: self.current as nat,
            output: lines_view(self.output@),
        }
    }
}

impl Default for Evaluator {
    fn default() -> (e: Evaluator)
        ensures
            e.wf(),
            e.depth_limit() == DEFAULT_MAX_DEPTH,
            e@ == fresh_env(),
    {
        Evaluator::new()
    }
}

impl Evaluator {
    /// The current scope exists, and the table of native functions is
    /// complete.
    pub closed spec fn wf(&self) -> bool {
        &&& self.current < self.scopes.len()
        &&& bindings_view(self.builtin@) == builtin_table()
    }

    /// The depth to which calls may be nested.
    pub closed spec fn depth_limit(&self) -> nat {
        self.max_depth as nat
    }

    /// An evaluator with an empty root scope and the default limit on the
    /// depth of calls.
    pub fn new() -> (e: Evaluator)
        ensures
            e.wf(),
            e.depth_limit() == DEFAULT_MAX_DEPTH,
            e@ == fresh_env(),
    {
        Evaluator::with_max_depth(DEFAULT_MAX_DEPTH)
    }

    /// An evaluator with an empty root scope that nests calls up to
    /// `max_depth` deep.
    pub fn with_max_depth(max_depth: usize) -> (e: Evaluator)
        ensures
            e.wf(),
            e.depth_limit() == max_depth,
            e@ == fresh_env(),
    {
        let mut scopes: Vec<Scope> = Vec::new();
        scopes.push(Scope::new());
        let e = Evaluator {
            scopes,
            current: 0,
            builtin: builtins(),
            output: Vec::new(),
            max_depth,
        };
        proof {
            assert(scopes_view(e.scopes@) =~= seq![
                ScopeView { store: Map::empty(), parent: None },
            ]);
            assert(lines_view(e.output@) =~= Seq::empty());
        }
        e
    }

    /// Binds `key` to `val` in the current scope.
    pub fn set_val_to_env(&mut self, key: String, val: Object)
        requires
            old(self).wf(),
        ensures
            final(self).wf(),
            final(self).depth_limit() == old(self).depth_limit(),
            final(self)@ == old(self)@.bind(key@, val@),
    {
        self.bind(key, val);
    }

    fn bind(&mut self, key: String, val: Object)
        requires
            old(self).wf(),
        ensures
            final(self).wf(),
            final(self).max_depth == old(self).max_depth,
            final(self).scopes.len() == old(self).scopes.len(),
            final(self).current == old(self).current,
            final(self)@ == old(self)@.bind(key@, val@),
    {
        let ghost before = scopes_view(self.scopes@);
        let ghost cur = self.current as int;
        self.scopes[self.current].set(key, val);
        proof {
            assert(scopes_view(self.scopes@) =~= before.update(
                cur,
                ScopeView {
                    store: before[cur].store.insert(key@, val@),
                    parent: before[cur].parent,
                },
            ));
        }
    }

    /// The value of `key` as seen from the current scope.
    pub fn get(&self, key: &str) -> (r: Option<Object>)
        requires
            self.wf(),
        ensures
            match r {
                Some(v) => self@.lookup(key@) == Some(v@),
                None => self@.lookup(key@) is None,
            },
    {
        let owned = key.to_owned();
        self.lookup(&owned)
    }

    /// The lines put out since the last call, oldest first.
    pub fn take_output(&mut self) -> (lines: Vec<String>)
        requires
            old(self).wf(),
        ensures
            final(self).wf(),
            final(self).depth_limit() == old(self).depth_limit(),
            lines_view(lines@) == old(self)@.output,
            final(self)@ == (EnvView {
                scopes: old(self)@.scopes,
                current: old(self)@.current,
                output: Seq::empty(),
            }),
    {
        let mut lines: Vec<String> = Vec::new();
        let mut i: usize = 0;
        while i < self.output.len()
            invariant
                i <= self.output.len(),
                *self == *old(self),
                lines.len() == i,
                forall|j: int| 0 <= j < i ==> lines[j]@ == self.output[j]@,
            decreases self.output.len() - i,
        {
            lines.push(self.output[i].clone());
            i += 1;
        }
        proof {
            assert(lines_view(lines@) =~= lines_view(self.output@));
        }
        self.output = Vec::new();
        proof {
            assert(lines_view(self.output@) =~= Seq::empty());
        }
        lines
    }

    fn lookup(&self, key: &String) -> (r: Option<Object>)
        requires
            self.wf(),
        ensures
            match r {
                Some(v) => self@.lookup(key@) == Some(v@),
                None => self@.lookup(key@) is None,
            },
    {
        let mut idx = self.current;
        loop
            invariant
                idx < self.scopes.len(),
                self@.lookup(key@) == self@.lookup_from(idx as nat, key@),
            decreases idx,
        {
            proof {
                lemma_assoc_get(bindings_view(self.scopes[idx as int].store@), key@);
                assert(self@.scopes[idx as int] == self.scopes[idx as int]@);
            }
            match find_binding(&self.scopes[idx].store, key) {
                Some(v) => {
                    return Some(v);
                },
                None => {
                    match self.scopes[idx].parent {
                        Some(p) => {
                            if p < idx {
                                idx = p;
                            } else {
                                return None;
                            }
                        },
                        None => {
                            return None;
                        },
                    }
                },
            }
        }
    }

    /// Evaluates a program in the evaluator's environment: the value of its
    /// last statement, or of its first `return`.
    pub fn eval(&mut self, node: Program) -> (r: Result<Object, RMonkeyError>)
        requires
            old(self).wf(),
        ensures
            final(self).wf(),
            final(self).depth_limit() == old(self).depth_limit(),
            (value_outcome(r), final(self)@) == ev_program(
                node@,
                old(self)@,
                old(self).depth_limit(),
            ),
    {
        let mut result = Object::Null;
        let fuel = self.max_depth;
        let ghost all = node@;
        let ghost goal = ev_program(node@, old(self)@, fuel as nat);
        let mut i: usize = 0;
        proof {
            assert(all.subrange(0, all.len() as int) =~= all);
        }
        while i < node.stmts.len()
            invariant
                i <= node.stmts.len(),
                self.wf(),
                self.max_depth == old(self).max_depth,
                fuel == self.max_depth,
                all == node@,
                all.len() == node.stmts.len(),
                goal == ev_program_from(
                    all.subrange(i as int, all.len() as int),
                    self@,
                    fuel as nat,
                    result@,
                ),
                goal == ev_program(node@, old(self)@, old(self).depth_limit()),
            decreases node.stmts.len() - i,
        {
            let ghost tail = all.subrange(i as int, all.len() as int);
            proof {
                assert(tail[0] == node.stmts[i as int]@);
                assert(tail.subrange(1, tail.len() as int) =~= all.subrange(
                    i + 1,
                    all.len() as int,
                ));
            }
            match self.eval_stmt(&node.stmts[i], fuel) {
                Err(e) => {
                    return Err(e);
                },
                Ok(Object::ReturnValue(val)) => {
                    return Ok(*val);
                },
                Ok(v) => {
                    result = v;
                },
            }
            i += 1;
        }
        Ok(result)
    }

    fn eval_stmt(&mut self, node: &Stmt, fuel: usize) -> (r: Result<Object, RMonkeyError>)
        requires
            old(self).wf(),
        ensures
            final(self).wf(),
            final(self).max_depth == old(self).max_depth,
            (value_outcome(r), final(self)@) == ev_stmt(node@, old(self)@, fuel as nat),
            final(self).scopes.len() >= old(self).scopes.len(),
            final(self).current == old(self).current,
        decreases 2 * fuel + 1, node, 1int,
    {
        match node {
            Stmt::LetStmt { name, value } => {
                let value = match self.eval_expr(value, fuel) {
                    Ok(v) => v,
                    Err(e) => {
                        return Err(e);
                    },
                };
                self.bind(name.to_string(), value);
                Ok(Object::Null)
            },
            Stmt::ReturnStmt(expr) => {
                let value = match self.eval_expr(expr, fuel) {
                    Ok(v) => v,
                    Err(e) => {
                        return Err(e);
                    },
                };
                Ok(Object::ReturnValue(Box::new(value)))
            },
            Stmt::ExprStmt(expr) => self.eval_expr(expr, fuel),
            Stmt::BlockStmt { stmts } => {
                proof {
                    lemma_stmt_view_block(*node);
                }
                self.eval_block_stmt(stmts, fuel)
            },
        }
    }

    fn eval_block_stmt(&mut self, stmts: &Vec<Stmt>, fuel: usize) -> (r: Result<
        Object,
        RMonkeyError,
    >)
        requires
            old(self).wf(),
        ensures
            final(self).wf(),
            final(self).max_depth == old(self).max_depth,
            (value_outcome(r), final(self)@) == ev_block(
                stmts_view(stmts@),
                old(self)@,
                fuel as nat,
                ObjectView::Null,
            ),
            final(self).scopes.len() >= old(self).scopes.len(),
            final(self).current == old(self).current,
        decreases 2 * fuel + 1, stmts, 1int,
    {
        let mut result = Object::Null;
        let ghost all = stmts_view(stmts@);
        let ghost goal = ev_block(all, old(self)@, fuel as nat, ObjectView::Null);
        let mut i: usize = 0;
        proof {
            assert(all.subrange(0, all.len() as int) =~= all);
        }
        while i < stmts.len()
            invariant
                i <= stmts.len(),
                self.wf(),
                self.max_depth == old(self).max_depth,
                self.scopes.len() >= old(self).scopes.len(),
                self.current == old(self).current,
                all == stmts_view(stmts@),
                goal == ev_block(
                    all.subrange(i as int, all.len() as int),
                    self@,
                    fuel as nat,
                    result@,
                ),
                goal == ev_block(all, old(self)@, fuel as nat, ObjectView::Null),
            decreases stmts.len() - i,
        {
            let ghost tail = all.subrange(i as int, all.len() as int);
            proof {
                assert(decreases_to!(*stmts => stmts[i as int]));
                assert(tail[0] == stmts[i as int]@);
                assert(tail.subrange(1, tail.len() as int) =~= all.subrange(
                    i + 1,
                    all.len() as int,
                ));
            }
            result = match self.eval_stmt(&stmts[i], fuel) {
                Ok(v) => v,
                Err(e) => {
                    return Err(e);
                },
            };
            if matches!(result, Object::ReturnValue(_)) {
                return Ok(result);
            }
            i += 1;
        }
        Ok(result)
    }

    fn eval_expr(&mut self, node: &Expr, fuel: usize) -> (r: Result<Object, RMonkeyError>)
        requires
            old(self).wf(),
        ensures
            final(self).wf(),
            final(self).max_depth == old(self).max_depth,
            (value_outcome(r), final(self)@) == ev_expr(node@, old(self)@, fuel as nat),
            final(self).scopes.len() >= old(self).scopes.len(),
            final(self).current == old(self).current,
        decreases 2 * fuel + 1, node, 1int,
    {
        proof {
            lemma_expr_view_lists(*node);
        }
        match node {
            Expr::Ident(val) => self.eval_ident(val),
            Expr::IntLiteral(val) => Ok(Object::Int(*val)),
            Expr::BoolLiteral(val) => Ok(Object::Bool(*val)),
            Expr::StringLiteral(val) => Ok(Object::String(val.clone())),
            Expr::If { condition, consequence, alternative } => self.eval_if_expr(
                condition,
                consequence,
                alternative,
                fuel,
                Ghost(*node),
            ),
            Expr::PrefixExpr { op, right } => self.eval_prefix_expr(*op, right, fuel, Ghost(*node)),
            Expr::InfixExpr { left, right, op } => self.eval_infix_expr(
                *op,
                left,
                right,
                fuel,
                Ghost(*node),
            ),
            Expr::Func { params, body } => self.eval_func_literal(body, params),
            Expr::Call { callee, args } => self.eval_call_expr(callee, args, fuel, Ghost(*node)),
            Expr::Array { elements } => {
                let elems = match self.eval_exprs(elements, fuel) {
                    Ok(v) => v,
                    Err(e) => {
                        return Err(e);
                    },
                };
                let array = Object::Array { elements: elems };
                proof {
                    lemma_object_view_lists(array);
                }
                Ok(array)
            },
            Expr::IndexExpr { left, index } => {
                let left = match self.eval_expr(left, fuel) {
                    Ok(v) => v,
                    Err(e) => {
                        return Err(e);
                    },
                };
                let index = match self.eval_expr(index, fuel) {
                    Ok(v) => v,
                    Err(e) => {
                        return Err(e);
                    },
                };
                eval_index_expr(&left, &index)
            },
            Expr::HashLiteral { pairs } => self.eval_hash_literal(pairs, fuel),
        }
    }

    fn eval_ident(&self, ident: &String) -> (r: Result<Object, RMonkeyError>)
        requires
            self.wf(),
        ensures
            value_outcome(r) == ident_result(self@, ident@),
    {
        if let Some(val) = self.lookup(ident) {
            return Ok(val);
        }
        if let Some(builtin) = find_binding(&self.builtin, ident) {
            return Ok(builtin);
        }
        Err(RMonkeyError::EvalError(EvalErrorKind::UncaughtRef { ident: ident.clone() }))
    }

    fn eval_prefix_expr(
        &mut self,
        op: Prefix,
        right: &Expr,
        fuel: usize,
        Ghost(whole): Ghost<Expr>,
    ) -> (r: Result<Object, RMonkeyError>)
        requires
            old(self).wf(),
            decreases_to!(whole => right),
        ensures
            final(self).wf(),
            final(self).max_depth == old(self).max_depth,
            (value_outcome(r), final(self)@) == ev_expr(
                ExprView::PrefixExpr { op, right: Box::new(right@) },
                old(self)@,
                fuel as nat,
            ),
            final(self).scopes.len() >= old(self).scopes.len(),
            final(self).current == old(self).current,
        decreases 2 * fuel + 1, whole, 0int,
    {
        let right = match self.eval_expr(right, fuel) {
            Ok(v) => v,
            Err(e) => {
                return Err(e);
            },
        };
        eval_prefix_object(op, &right)
    }

    fn eval_infix_expr(
        &mut self,
        op: Infix,
        left: &Expr,
        right: &Expr,
        fuel: usize,
        Ghost(whole): Ghost<Expr>,
    ) -> (r: Result<Object, RMonkeyError>)
        requires
            old(self).wf(),
            decreases_to!(whole => left),
            decreases_to!(whole => right),
        ensures
            final(self).wf(),
            final(self).max_depth == old(self).max_depth,
            (value_outcome(r), final(self)@) == ev_expr(
                ExprView::InfixExpr { left: Box::new(left@), right: Box::new(right@), op },
                old(self)@,
                fuel as nat,
            ),
            final(self).scopes.len() >= old(self).scopes.len(),
            final(self).current == old(self).current,
        decreases 2 * fuel + 1, whole, 0int,
    {
        let left = match self.eval_expr(left, fuel) {
            Ok(v) => v,
            Err(e) => {
                return Err(e);
            },
        };
        let right = match self.eval_expr(right, fuel) {
            Ok(v) => v,
            Err(e) => {
                return Err(e);
            },
        };
        eval_infix_objects(op, &left, &right)
    }

    fn eval_if_expr(
        &mut self,
        condition: &Expr,
        consequence: &Stmt,
        alt: &Option<Box<Stmt>>,
        fuel: usize,
        Ghost(whole): Ghost<Expr>,
    ) -> (r: Result<Object, RMonkeyError>)
        requires
            old(self).wf(),
            decreases_to!(whole => condition),
            decreases_to!(whole => consequence),
            alt matches Some(a) ==> decreases_to!(whole => a),
        ensures
            final(self).wf(),
            final(self).max_depth == old(self).max_depth,
            (value_outcome(r), final(self)@) == ev_expr(
                ExprView::If {
                    condition: Box::new(condition@),
                    consequence: Box::new(consequence@),
                    alternative: match alt {
                        Some(a) => Some(Box::new(a@)),
                        None => None,
                    },
                },
                old(self)@,
                fuel as nat,
            ),
            final(self).scopes.len() >= old(self).scopes.len(),
            final(self).current == old(self).current,
        decreases 2 * fuel + 1, whole, 0int,
    {
        let cond = match self.eval_expr(condition, fuel) {
            Ok(v) => v,
            Err(e) => {
                return Err(e);
            },
        };
        if is_truthy(&cond) {
            return self.eval_stmt(consequence, fuel);
        }
        match alt {
            Some(alt) => self.eval_stmt(alt, fuel),
            None => Ok(Object::Null),
        }
    }

    fn eval_func_literal(&self, body: &Stmt, params: &Vec<Expr>) -> (r: Result<
        Object,
        RMonkeyError,
    >)
        ensures
            value_outcome(r) == Ok::<ObjectView, ErrorView>(
                ObjectView::Func { params: exprs_view(params@), body: body@, scope: self@.current },
            ),
    {
        Ok(
            Object::Func {
                params: clone_exprs(params),
                body: clone_stmt(body),
                scope: self.current,
            },
        )
    }

    fn eval_call_expr(
        &mut self,
        callee: &Expr,
        args: &Vec<Expr>,
        fuel: usize,
        Ghost(whole): Ghost<Expr>,
    ) -> (r: Result<Object, RMonkeyError>)
        requires
            old(self).wf(),
            decreases_to!(whole => callee),
            decreases_to!(whole => args),
        ensures
            final(self).wf(),
            final(self).max_depth == old(self).max_depth,
            (value_outcome(r), final(self)@) == ev_expr(
                ExprView::Call { callee: Box::new(callee@), args: exprs_view(args@) },
                old(self)@,
                fuel as nat,
            ),
            final(self).scopes.len() >= old(self).scopes.len(),
            final(self).current == old(self).current,
        decreases 2 * fuel + 1, whole, 0int,
    {
        let callee = match self.eval_expr(callee, fuel) {
            Ok(v) => v,
            Err(e) => {
                return Err(e);
            },
        };
        let args = match self.eval_exprs(args, fuel) {
            Ok(v) => v,
            Err(e) => {
                return Err(e);
            },
        };
        self.apply_func(callee, args, fuel)
    }

    fn eval_exprs(&mut self, exprs: &Vec<Expr>, fuel: usize) -> (r: Result<
        Vec<Object>,
        RMonkeyError,
    >)
        requires
            old(self).wf(),
        ensures
            final(self).wf(),
            final(self).max_depth == old(self).max_depth,
            (values_outcome(r), final(self)@) == ev_exprs(
                exprs_view(exprs@),
                old(self)@,
                fuel as nat,
                Seq::empty(),
            ),
            final(self).scopes.len() >= old(self).scopes.len(),
            final(self).current == old(self).current,
        decreases 2 * fuel + 1, exprs, 1int,
    {
        let mut result: Vec<Object> = Vec::new();
        let ghost all = exprs_view(exprs@);
        let ghost goal = ev_exprs(all, old(self)@, fuel as nat, Seq::empty());
        let mut i: usize = 0;
        proof {
            assert(all.subrange(0, all.len() as int) =~= all);
            assert(objects_view(result@) =~= Seq::empty());
        }
        while i < exprs.len()
            invariant
                i <= exprs.len(),
                self.wf(),
                self.max_depth == old(self).max_depth,
                self.scopes.len() >= old(self).scopes.len(),
                self.current == old(self).current,
                all == exprs_view(exprs@),
                goal == ev_exprs(
                    all.subrange(i as int, all.len() as int),
                    self@,
                    fuel as nat,
                    objects_view(result@),
                ),
                goal == ev_exprs(all, old(self)@, fuel as nat, Seq::empty()),
            decreases exprs.len() - i,
        {
            let ghost tail = all.subrange(i as int, all.len() as int);
            let ghost acc = objects_view(result@);
            proof {
                assert(decreases_to!(*exprs => exprs[i as int]));
                assert(tail[0] == exprs[i as int]@);
                assert(tail.subrange(1, tail.len() as int) =~= all.subrange(
                    i + 1,
                    all.len() as int,
                ));
            }
            let value = match self.eval_expr(&exprs[i], fuel) {
                Ok(v) => v,
                Err(e) => {
                    return Err(e);
                },
            };
            let ghost vv = value@;
            result.push(value);
            proof {
                assert(objects_view(result@) =~= acc.push(vv));
            }
            i += 1;
        }
        Ok(result)
    }

    fn apply_func(&mut self, callee: Object, args: Vec<Object>, fuel: usize) -> (r: Result<
        Object,
        RMonkeyError,
    >)
        requires
            old(self).wf(),
        ensures
            final(self).wf(),
            final(self).max_depth == old(self).max_depth,
            (value_outcome(r), final(self)@) == ev_apply(
                callee@,
                objects_view(args@),
                old(self)@,
                fuel as nat,
            ),
            final(self).scopes.len() >= old(self).scopes.len(),
            final(self).current == old(self).current,
        decreases 2 * fuel, callee, 1int,
    {
        match callee {
            Object::Func { params, body, scope } => {
                if fuel == 0 {
                    return Err(RMonkeyError::EvalError(EvalErrorKind::CallDepthExceeded));
                }
                let saved = self.current;
                self.extend_func_env(&params, &args, scope);
                let result = self.eval_stmt(&body, fuel - 1);
                self.current = saved;
                match result {
                    Ok(Object::ReturnValue(value)) => Ok(*value),
                    other => other,
                }
            },
            Object::BuiltIn { func } => call_builtin(func, args, &mut self.output),
            _ => Err(RMonkeyError::Custom("".to_owned())),
        }
    }

    fn extend_func_env(&mut self, params: &Vec<Expr>, args: &Vec<Object>, parent_scope: usize)
        requires
            old(self).wf(),
        ensures
            final(self).wf(),
            final(self).max_depth == old(self).max_depth,
            final(self)@ == old(self)@.enter(
                parent_scope as nat,
                exprs_view(params@),
                objects_view(args@),
            ),
            final(self).scopes.len() == old(self).scopes.len() + 1,
    {
        let mut child = Scope::new_enclosed_environment(parent_scope);
        let count = if params.len() <= args.len() {
            params.len()
        } else {
            args.len()
        };
        let ghost pv = exprs_view(params@);
        let ghost av = objects_view(args@);
        let mut i: usize = 0;
        while i < count
            invariant
                i <= count,
                count <= params.len(),
                count <= args.len(),
                pv == exprs_view(params@),
                av == objects_view(args@),
                child@ == (ScopeView {
                    store: bound_params(pv, av, i as nat),
                    parent: Some(parent_scope as nat),
                }),
            decreases count - i,
        {
            proof {
                assert(pv[i as int] == params[i as int]@);
                assert(av[i as int] == args[i as int]@);
            }
            match &params[i] {
                Expr::Ident(ident) => {
                    child.set(ident.clone(), clone_object(&args[i]));
                },
                _ => {},
            }
            i += 1;
        }
        let ghost before = scopes_view(self.scopes@);
        let ghost cv = child@;
        self.current = self.scopes.len();
        self.scopes.push(child);
        proof {
            assert(scopes_view(self.scopes@) =~= before.push(cv));
        }
    }

    fn eval_hash_literal(&mut self, pairs: &Vec<(Expr, Expr)>, fuel: usize) -> (r: Result<
        Object,
        RMonkeyError,
    >)
        requires
            old(self).wf(),
        ensures
            final(self).wf(),
            final(self).max_depth == old(self).max_depth,
            (value_outcome(r), final(self)@) == ev_pairs(
                pairs_view(pairs@),
                old(self)@,
                fuel as nat,
                Seq::empty(),
            ),
            final(self).scopes.len() >= old(self).scopes.len(),
            final(self).current == old(self).current,
        decreases 2 * fuel + 1, pairs, 1int,
    {
        let mut hash: Vec<(Object, Object)> = Vec::new();
        let ghost all = pairs_view(pairs@);
        let ghost goal = ev_pairs(all, old(self)@, fuel as nat, Seq::empty());
        let mut i: usize = 0;
        proof {
            assert(all.subrange(0, all.len() as int) =~= all);
            assert(entries_view(hash@) =~= Seq::empty());
        }
        while i < pairs.len()
            invariant
                i <= pairs.len(),
                self.wf(),
                self.max_depth == old(self).max_depth,
                self.scopes.len() >= old(self).scopes.len(),
                self.current == old(self).current,
                all == pairs_view(pairs@),
                goal == ev_pairs(
                    all.subrange(i as int, all.len() as int),
                    self@,
                    fuel as nat,
                    entries_view(hash@),
                ),
                goal == ev_pairs(all, old(self)@, fuel as nat, Seq::empty()),
            decreases pairs.len() - i,
        {
            let ghost tail = all.subrange(i as int, all.len() as int);
            proof {
                assert(decreases_to!(*pairs => pairs[i as int]));
                assert(decreases_to!(pairs[i as int] => pairs[i as int].0));
                assert(decreases_to!(pairs[i as int] => pairs[i as int].1));
                assert(tail[0] == (pairs[i as int].0@, pairs[i as int].1@));
                assert(tail.subrange(1, tail.len() as int) =~= all.subrange(
                    i + 1,
                    all.len() as int,
                ));
            }
            let key = match self.eval_expr(&pairs[i].0, fuel) {
                Ok(v) => v,
                Err(e) => {
                    return Err(e);
                },
            };
            let value = match self.eval_expr(&pairs[i].1, fuel) {
                Ok(v) => v,
                Err(e) => {
                    return Err(e);
                },
            };
            if !key.is_hashable() {
                return Err(
                    RMonkeyError::EvalError(
                        EvalErrorKind::UnsupportedKeyType { key: key.obj_type().to_owned() },
                    ),
                );
            }
            hash_insert(&mut hash, key, value);
            i += 1;
        }
        let object = Object::Hash(hash);
        proof {
            lemma_object_view_lists(object);
        }
        Ok(object)
    }
}

/// Parses and evaluates a source text in a new evaluator.
pub fn evaluate(source: &str) -> (r: Result<Object, RMonkeyError>)
    ensures
        value_outcome(r) == evaluate_result(source@, DEFAULT_MAX_DEPTH as nat),
{
    let program = match parse(source) {
        Ok(p) => p,
        Err(e) => {
            return Err(e);
        },
    };
    let mut evaluator = Evaluator::new();
    evaluator.eval(program)
}

} // verus!
