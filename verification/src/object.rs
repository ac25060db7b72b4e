//! Runtime values.
use vstd::prelude::*;
use vstd::string::*;
use crate::ast::{
    clone_exprs, clone_stmt, expr_texts, exprs_view, stmt_text, write_exprs, write_stmt, Expr,
    ExprView, Stmt, StmtView,
};
use crate::text::{bool_text, int_decimal, join, lemma_join_push, push_bool, push_i64};

verus! {

/// A native function of the language.
#[derive(Debug, Clone, Copy, PartialEq, Eq, Hash, Structural)]
pub enum Builtin {
    Len,
    First,
    Last,
    Rest,
    Push,
    Puts,
}

/// A runtime value.
///
/// A function holds the index of the scope in which it was made; a hash
/// holds its entries in the order in which their keys first came.
#[derive(Debug, PartialEq, Eq)]
pub enum Object {
    Int(i64),
    Bool(bool),
    Null,
    String(String),
    BuiltIn { func: Builtin },
    ReturnValue(Box<Object>),
    Func { params: Vec<Expr>, body: Stmt, scope: usize },
    Array { elements: Vec<Object> },
    Hash(Vec<(Object, Object)>),
}

/// The mathematical value of an [`Object`].
pub enum ObjectView {
    Int(i64),
    Bool(bool),
    Null,
    String(Seq<char>),
    BuiltIn { func: Builtin },
    ReturnValue(Box<ObjectView>),
    Func { params: Seq<ExprView>, body: StmtView, scope: nat },
    Array { elements: Seq<ObjectView> },
    Hash(Seq<(ObjectView, ObjectView)>),
}

/// The value of an object.
pub open spec fn object_view(o: Object) -> ObjectView
    decreases o,
{
    match o {
        Object::Int(v) => ObjectView::Int(v),
        Object::Bool(b) => ObjectView::Bool(b),
        Object::Null => ObjectView::Null,
        Object::String(s) => ObjectView::String(s@),
        Object::BuiltIn { func } => ObjectView::BuiltIn { func },
        Object::ReturnValue(inner) => ObjectView::ReturnValue(Box::new(object_view(*inner))),
        Object::Func { params, body, scope } => ObjectView::Func {
            params: exprs_view(params@),
            body: body@,
            scope: scope as nat,
        },
        Object::Array { elements } => ObjectView::Array {
            elements: Seq::new(
                elements.len() as nat,
                |i: int|
                    if 0 <= i < elements.len() {
                        object_view(elements[i])
                    } else {
                        ObjectView::Null
                    },
            ),
        },
        Object::Hash(pairs) => ObjectView::Hash(
            Seq::new(
                pairs.len() as nat,
                |i: int|
                    if 0 <= i < pairs.len() {
                        (object_view(pairs[i].0), object_view(pairs[i].1))
                    } else {
                        (ObjectView::Null, ObjectView::Null)
                    },
            ),
        ),
    }
}

impl View for Object {
    type V = ObjectView;

    open spec fn view(&self) -> ObjectView {
        object_view(*self)
    }
}

/// The values of a sequence of objects.
pub open spec fn objects_view(os: Seq<Object>) -> Seq<ObjectView> {
    Seq::new(os.len(), |i: int| object_view(os[i]))
}

/// The values of a sequence of hash entries.
pub open spec fn entries_view(ps: Seq<(Object, Object)>) -> Seq<(ObjectView, ObjectView)> {
    Seq::new(ps.len(), |i: int| (object_view(ps[i].0), object_view(ps[i].1)))
}

/// The view of an array or a hash is built from the views of what it holds.
pub proof fn lemma_object_view_lists(o: Object)
    ensures
        o matches Object::Array { elements } ==> o@ == (ObjectView::Array {
            elements: objects_view(elements@),
        }),
        o matches Object::Hash(pairs) ==> o@ == ObjectView::Hash(entries_view(pairs@)),
{
    match o {
        Object::Array { elements } => {
            assert(o@->Array_elements =~= objects_view(elements@));
        },
        Object::Hash(pairs) => {
            assert(o@->Hash_0 =~= entries_view(pairs@));
        },
        _ => {},
    }
}

impl ObjectView {
    /// The name of the value's type.
    pub open spec fn kind_name(self) -> Seq<char> {
        match self {
            ObjectView::Int(_) => "INTEGER"@,
            ObjectView::Bool(_) => "BOOLEAN"@,
            ObjectView::Null => "NULL"@,
            ObjectView::ReturnValue(_) => "RETURN_VALUE"@,
            ObjectView::Func { .. } => "FUNCTION"@,
            ObjectView::String(_) => "STRING"@,
            ObjectView::Array { .. } => "ARRAY"@,
            ObjectView::BuiltIn { .. } => "BUILTIN"@,
            ObjectView::Hash(_) => "HASH"@,
        }
    }

    /// Whether the value counts as true in a condition: a boolean counts as
    /// itself, null as false, everything else as true.
    pub open spec fn is_truthy(self) -> bool {
        match self {
            ObjectView::Bool(b) => b,
            ObjectView::Null => false,
            _ => true,
        }
    }

    /// Whether the value can be a key of a hash: integers, booleans and
    /// strings can.
    pub open spec fn is_hashable(self) -> bool {
        self is Int || self is Bool || self is String
    }
}

/// The display form of a value.
pub open spec fn object_text(o: ObjectView) -> Seq<char>
    decreases o,
{
    match o {
        ObjectView::Int(v) => int_decimal(v as int),
        ObjectView::Bool(b) => bool_text(b),
        ObjectView::Null => "null"@,
        ObjectView::String(s) => "\""@ + s + "\""@,
        ObjectView::ReturnValue(inner) => "return "@ + object_text(*inner),
        ObjectView::Func { params, body, scope } => "fn("@ + join(expr_texts(params), ", "@)
            + "){"@ + stmt_text(body) + "}"@,
        ObjectView::BuiltIn { func } => "[builtin func]"@,
        ObjectView::Array { elements } => "["@ + join(object_texts(elements), ", "@) + "]"@,
        ObjectView::Hash(pairs) => "{"@ + join(entry_texts(pairs), ", "@) + "}"@,
    }
}

/// The display forms of a sequence of values.
pub open spec fn object_texts(os: Seq<ObjectView>) -> Seq<Seq<char>>
    decreases os,
{
    Seq::new(
        os.len(),
        |i: int|
            if 0 <= i < os.len() {
                object_text(os[i])
            } else {
                Seq::empty()
            },
    )
}

/// The display forms `key: value` of the entries of a hash.
pub open spec fn entry_texts(ps: Seq<(ObjectView, ObjectView)>) -> Seq<Seq<char>>
    decreases ps,
{
    Seq::new(
        ps.len(),
        |i: int|
            if 0 <= i < ps.len() {
                object_text(ps[i].0) + ": "@ + object_text(ps[i].1)
            } else {
                Seq::empty()
            },
    )
}

/// A copy of a value.
pub fn clone_object(o: &Object) -> (r: Object)
    ensures
        r@ == o@,
    decreases o,
{
    match o {
        Object::Int(v) => Object::Int(*v),
        Object::Bool(b) => Object::Bool(*b),
        Object::Null => Object::Null,
        Object::String(s) => Object::String(s.clone()),
        Object::BuiltIn { func } => Object::BuiltIn { func: *func },
        Object::ReturnValue(inner) => Object::ReturnValue(Box::new(clone_object(inner))),
        Object::Func { params, body, scope } => Object::Func {
            params: clone_exprs(params),
            body: clone_stmt(body),
            scope: *scope,
        },
        Object::Array { elements } => {
            let r = Object::Array { elements: clone_objects(elements) };
            proof {
                lemma_object_view_lists(r);
                lemma_object_view_lists(*o);
            }
            r
        },
        Object::Hash(pairs) => {
            let mut out: Vec<(Object, Object)> = Vec::new();
            let mut i: usize = 0;
            while i < pairs.len()
                invariant
                    i <= pairs.len(),
                    decreases_to!(*o => *pairs),
                    out.len() == i,
                    forall|j: int|
                        0 <= j < i ==> out[j].0@ == pairs[j].0@ && out[j].1@ == pairs[j].1@,
                decreases pairs.len() - i,
            {
                proof {
                    assert(decreases_to!(*pairs => pairs[i as int]));
                    assert(decreases_to!(pairs[i as int] => pairs[i as int].0));
                    assert(decreases_to!(pairs[i as int] => pairs[i as int].1));
                }
                let k = clone_object(&pairs[i].0);
                let v = clone_object(&pairs[i].1);
                out.push((k, v));
                i += 1;
            }
            let r = Object::Hash(out);
            proof {
                lemma_object_view_lists(r);
                lemma_object_view_lists(*o);
                assert(entries_view(out@) =~= entries_view(pairs@));
            }
            r
        },
    }
}

/// A copy of a list of values.
pub fn clone_objects(os: &Vec<Object>) -> (r: Vec<Object>)
    ensures
        objects_view(r@) == objects_view(os@),
    decreases os,
{
    let mut out: Vec<Object> = Vec::new();
    let mut i: usize = 0;
    while i < os.len()
        invariant
            i <= os.len(),
            out.len() == i,
            forall|j: int| 0 <= j < i ==> out[j]@ == os[j]@,
        decreases os.len() - i,
    {
        proof {
            assert(decreases_to!(*os => os[i as int]));
        }
        out.push(clone_object(&os[i]));
        i += 1;
    }
    proof {
        assert(objects_view(out@) =~= objects_view(os@));
    }
    out
}

impl Clone for Object {
    fn clone(&self) -> (r: Object)
        ensures
            r@ == self@,
    {
        clone_object(self)
    }
}

/// Appends the display form of a value to `out`.
pub fn write_object(o: &Object, out: &mut String)
    ensures
        final(out)@ == old(out)@ + object_text(o@),
    decreases o,
{
    match o {
        Object::Int(val) => {
            push_i64(out, *val);
        },
        Object::Bool(val) => {
            push_bool(out, *val);
        },
        Object::Null => {
            out.append("null");
        },
        Object::String(val) => {
            out.append("\"");
            out.append(val.as_str());
            out.append("\"");
        },
        Object::ReturnValue(inner) => {
            out.append("return ");
            write_object(inner, out);
        },
        Object::Func { params, body, scope } => {
            out.append("fn(");
            write_exprs(params, out);
            out.append("){");
            write_stmt(body, out);
            out.append("}");
        },
        Object::BuiltIn { func } => {
            out.append("[builtin func]");
        },
        Object::Array { elements } => {
            proof {
                lemma_object_view_lists(*o);
            }
            out.append("[");
            let ghost base = out@;
            let ghost texts = object_texts(objects_view(elements@));
            let mut i: usize = 0;
            while i < elements.len()
                invariant
                    i <= elements.len(),
                    decreases_to!(*o => *elements),
                    texts == object_texts(objects_view(elements@)),
                    out@ == base + join(texts.take(i as int), ", "@),
                decreases elements.len() - i,
            {
                proof {
                    assert(decreases_to!(*elements => elements[i as int]));
                }
                if i > 0 {
                    out.append(", ");
                }
                write_object(&elements[i], out);
                proof {
                    let item = texts[i as int];
                    assert(item == object_text(elements[i as int]@));
                    assert(texts.take(i + 1) =~= texts.take(i as int).push(item));
                    lemma_join_push(texts.take(i as int), ", "@, item);
                    assert(out@ =~= base + join(texts.take(i + 1), ", "@));
                }
                i += 1;
            }
            proof {
                assert(texts.take(i as int) =~= texts);
            }
            out.append("]");
        },
        Object::Hash(pairs) => {
            proof {
                lemma_object_view_lists(*o);
            }
            out.append("{");
            let ghost base = out@;
            let ghost texts = entry_texts(entries_view(pairs@));
            let mut i: usize = 0;
            while i < pairs.len()
                invariant
                    i <= pairs.len(),
                    decreases_to!(*o => *pairs),
                    texts == entry_texts(entries_view(pairs@)),
                    out@ == base + join(texts.take(i as int), ", "@),
                decreases pairs.len() - i,
            {
                proof {
                    assert(decreases_to!(*pairs => pairs[i as int]));
                    assert(decreases_to!(pairs[i as int] => pairs[i as int].0));
                    assert(decreases_to!(pairs[i as int] => pairs[i as int].1));
                }
                if i > 0 {
                    out.append(", ");
                }
                write_object(&pairs[i].0, out);
                out.append(": ");
                write_object(&pairs[i].1, out);
                proof {
                    let item = texts[i as int];
                    assert(item == object_text(pairs[i as int].0@) + ": "@ + object_text(
                        pairs[i as int].1@,
                    ));
                    assert(texts.take(i + 1) =~= texts.take(i as int).push(item));
                    lemma_join_push(texts.take(i as int), ", "@, item);
                    assert(out@ =~= base + join(texts.take(i + 1), ", "@));
                }
                i += 1;
            }
            proof {
                assert(texts.take(i as int) =~= texts);
            }
            out.append("}");
        },
    }
    proof {
        assert(final(out)@ =~= old(out)@ + object_text(o@));
    }
}

impl Object {
    /// The name of the value's type.
    pub fn obj_type(&self) -> (r: &'static str)
        ensures
            r@ == self@.kind_name(),
    {
        match self {
            Object::Int(_) => "INTEGER",
            Object::Bool(_) => "BOOLEAN",
            Object::Null => "NULL",
            Object::ReturnValue(_) => "RETURN_VALUE",
            Object::Func { .. } => "FUNCTION",
            Object::String(_) => "STRING",
            Object::Array { .. } => "ARRAY",
            Object::BuiltIn { .. } => "BUILTIN",
            Object::Hash(_) => "HASH",
        }
    }

    /// The display form of the value.
    pub fn to_string(&self) -> (r: String)
        ensures
            r@ == object_text(self@),
    {
        let mut out = String::new();
        write_object(self, &mut out);
        proof {
            assert(out@ =~= object_text(self@));
        }
        out
    }

    /// Whether the value can be a key of a hash.
    pub fn is_hashable(&self) -> (r: bool)
        ensures
            r == self@.is_hashable(),
    {
        match self {
            Object::Int(_) => true,
            Object::Bool(_) => true,
            Object::String(_) => true,
            _ => false,
        }
    }

    /// Whether two values are the same hash key. Values that cannot be keys
    /// are the same key as nothing.
    pub fn same_key(&self, other: &Object) -> (r: bool)
        ensures
            r == (self@.is_hashable() && self@ == other@),
    {
        match (self, other) {
            (Object::Int(a), Object::Int(b)) => *a == *b,
            (Object::Bool(a), Object::Bool(b)) => *a == *b,
            (Object::String(a), Object::String(b)) => *a == *b,
            _ => false,
        }
    }
}

} // verus!
