//! The native functions of the language.
use vstd::prelude::*;
use vstd::string::*;
use crate::error::{ErrorView, RMonkeyError};
use crate::object::{
    clone_object, lemma_object_view_lists, object_text, object_texts, objects_view, Builtin,
    Object, ObjectView,
};
use crate::scope::bindings_view;
use crate::text::{nat_decimal, push_usize};

verus! {

/// What a native function gave, as a mathematical value.
pub open spec fn value_outcome(r: Result<Object, RMonkeyError>) -> Result<ObjectView, ErrorView> {
    match r {
        Ok(v) => Ok(v@),
        Err(e) => Err(e@),
    }
}

/// The texts of a list of strings.
pub open spec fn lines_view(lines: Seq<String>) -> Seq<Seq<char>> {
    Seq::new(lines.len(), |i: int| lines[i]@)
}

/// The error for a call with `got` arguments where `want` are taken.
pub open spec fn arity_error(got: nat, want: nat) -> ErrorView {
    ErrorView::Custom(
        "wrong number of args. got="@ + nat_decimal(got) + ", want="@ + nat_decimal(want),
    )
}

/// A length as an integer of the language; a length beyond the largest
/// integer counts as the largest.
pub open spec fn length_value(n: nat) -> i64 {
    if n <= i64::MAX {
        n as i64
    } else {
        i64::MAX
    }
}

/// `len`: the number of characters of a string, or of elements of an array.
pub open spec fn builtin_len(args: Seq<ObjectView>) -> Result<ObjectView, ErrorView> {
    if args.len() != 1 {
        Err(arity_error(args.len(), 1))
    } else {
        match args[0] {
            ObjectView::String(s) => Ok(ObjectView::Int(length_value(s.len()))),
            ObjectView::Array { elements } => Ok(ObjectView::Int(length_value(elements.len()))),
            other => Err(
                ErrorView::Custom("arg to `len` not supported, got "@ + other.kind_name()),
            ),
        }
    }
}

/// `first`: the first element of an array; null for an empty array and for
/// what is no array.
pub open spec fn builtin_first(args: Seq<ObjectView>) -> Result<ObjectView, ErrorView> {
    if args.len() != 1 {
        Err(arity_error(args.len(), 1))
    } else {
        match args[0] {
            ObjectView::Array { elements } => if elements.len() > 0 {
                Ok(elements[0])
            } else {
                Ok(ObjectView::Null)
            },
            _ => Ok(ObjectView::Null),
        }
    }
}

/// `last`: the last element of an array that has one.
pub open spec fn builtin_last(args: Seq<ObjectView>) -> Result<ObjectView, ErrorView> {
    if args.len() != 1 {
        Err(arity_error(args.len(), 1))
    } else {
        match args[0] {
            ObjectView::Array { elements } => if elements.len() > 0 {
                Ok(elements.last())
            } else {
                Err(ErrorView::Custom("elements is empty"@))
            },
            other => Err(
                ErrorView::Custom("argument to `last` must be ARRAY, got "@ + other.kind_name()),
            ),
        }
    }
}

/// `rest`: a new array of all elements but the first; null for an empty
/// array.
pub open spec fn builtin_rest(args: Seq<ObjectView>) -> Result<ObjectView, ErrorView> {
    if args.len() != 1 {
        Err(arity_error(args.len(), 1))
    } else {
        match args[0] {
            ObjectView::Array { elements } => if elements.len() > 0 {
                Ok(ObjectView::Array { elements: elements.subrange(1, elements.len() as int) })
            } else {
                Ok(ObjectView::Null)
            },
            other => Err(
                ErrorView::Custom("argument to `rest` must be ARRAY, got "@ + other.kind_name()),
            ),
        }
    }
}

/// `push`: a new array of the elements of the first argument and then the
/// second argument.
pub open spec fn builtin_push(args: Seq<ObjectView>) -> Result<ObjectView, ErrorView> {
    if args.len() != 2 {
        Err(arity_error(args.len(), 2))
    } else {
        match args[0] {
            ObjectView::Array { elements } => Ok(
                ObjectView::Array { elements: elements.push(args[1]) },
            ),
            other => Err(
                ErrorView::Custom("argument to `push` must be ARRAY, got "@ + other.kind_name()),
            ),
        }
    }
}

/// What a call of a native function returns.
pub open spec fn builtin_result(func: Builtin, args: Seq<ObjectView>) -> Result<
    ObjectView,
    ErrorView,
> {
    match func {
        Builtin::Len => builtin_len(args),
        Builtin::First => builtin_first(args),
        Builtin::Last => builtin_last(args),
        Builtin::Rest => builtin_rest(args),
        Builtin::Push => builtin_push(args),
        Builtin::Puts => Ok(ObjectView::Null),
    }
}

/// The lines that a call of a native function puts out: `puts` puts out
/// the display form of each argument, the others nothing.
pub open spec fn builtin_output(func: Builtin, args: Seq<ObjectView>) -> Seq<Seq<char>> {
    match func {
        Builtin::Puts => object_texts(args),
        _ => Seq::empty(),
    }
}

/// The names of the native functions, each with its function.
pub open spec fn builtin_table() -> Seq<(Seq<char>, ObjectView)> {
    seq![
        ("len"@, ObjectView::BuiltIn { func: Builtin::Len }),
        ("first"@, ObjectView::BuiltIn { func: Builtin::First }),
        ("last"@, ObjectView::BuiltIn { func: Builtin::Last }),
        ("rest"@, ObjectView::BuiltIn { func: Builtin::Rest }),
        ("push"@, ObjectView::BuiltIn { func: Builtin::Push }),
        ("puts"@, ObjectView::BuiltIn { func: Builtin::Puts }),
    ]
}

/// The table of native functions.
pub fn builtins() -> (table: Vec<(String, Object)>)
    ensures
        bindings_view(table@) == builtin_table(),
{
    let mut table: Vec<(String, Object)> = Vec::new();
    table.push(("len".to_owned(), Object::BuiltIn { func: Builtin::Len }));
    table.push(("first".to_owned(), Object::BuiltIn { func: Builtin::First }));
    table.push(("last".to_owned(), Object::BuiltIn { func: Builtin::Last }));
    table.push(("rest".to_owned(), Object::BuiltIn { func: Builtin::Rest }));
    table.push(("push".to_owned(), Object::BuiltIn { func: Builtin::Push }));
    table.push(("puts".to_owned(), Object::BuiltIn { func: Builtin::Puts }));
    proof {
        assert(bindings_view(table@) =~= builtin_table());
    }
    table
}

fn length_to_int(n: usize) -> (r: i64)
    ensures
        r == length_value(n as nat),
{
    if n as u64 <= i64::MAX as u64 {
        n as i64
    } else {
        i64::MAX
    }
}

fn wrong_arity(got: usize, want: usize) -> (e: RMonkeyError)
    ensures
        e@ == arity_error(got as nat, want as nat),
{
    let mut msg = String::new();
    msg.append("wrong number of args. got=");
    push_usize(&mut msg, got);
    msg.append(", want=");
    push_usize(&mut msg, want);
    proof {
        assert(msg@ =~= "wrong number of args. got="@ + nat_decimal(got as nat) + ", want="@
            + nat_decimal(want as nat));
    }
    RMonkeyError::Custom(msg)
}

fn kind_error(prefix: &str, obj: &Object) -> (e: RMonkeyError)
    ensures
        e@ == ErrorView::Custom(prefix@ + obj@.kind_name()),
{
    let mut msg = String::new();
    msg.append(prefix);
    msg.append(obj.obj_type());
    proof {
        assert(msg@ =~= prefix@ + obj@.kind_name());
    }
    RMonkeyError::Custom(msg)
}

/// The native function `len`.
pub fn len(args: Vec<Object>) -> (r: Result<Object, RMonkeyError>)
    ensures
        value_outcome(r) == builtin_len(objects_view(args@)),
{
    if args.len() != 1 {
        return Err(wrong_arity(args.len(), 1));
    }
    let obj = &args[0];
    proof {
        lemma_object_view_lists(*obj);
    }
    match obj {
        Object::String(val) => Ok(Object::Int(length_to_int(val.as_str().unicode_len()))),
        Object::Array { elements } => {
            proof {
                assert(objects_view(elements@).len() == elements@.len());
            }
            Ok(Object::Int(length_to_int(elements.len())))
        },
        _ => Err(kind_error("arg to `len` not supported, got ", obj)),
    }
}

/// The native function `first`.
pub fn first(args: Vec<Object>) -> (r: Result<Object, RMonkeyError>)
    ensures
        value_outcome(r) == builtin_first(objects_view(args@)),
{
    if args.len() != 1 {
        return Err(wrong_arity(args.len(), 1));
    }
    let obj = &args[0];
    proof {
        lemma_object_view_lists(*obj);
    }
    match obj {
        Object::Array { elements } => {
            if elements.len() > 0 {
                Ok(clone_object(&elements[0]))
            } else {
                Ok(Object::Null)
            }
        },
        _ => Ok(Object::Null),
    }
}

/// The native function `last`.
pub fn last(args: Vec<Object>) -> (r: Result<Object, RMonkeyError>)
    ensures
        value_outcome(r) == builtin_last(objects_view(args@)),
{
    if args.len() != 1 {
        return Err(wrong_arity(args.len(), 1));
    }
    let obj = &args[0];
    proof {
        lemma_object_view_lists(*obj);
    }
    match obj {
        Object::Array { elements } => {
            if elements.len() > 0 {
                Ok(clone_object(&elements[elements.len() - 1]))
            } else {
                Err(RMonkeyError::Custom("elements is empty".to_owned()))
            }
        },
        _ => Err(kind_error("argument to `last` must be ARRAY, got ", obj)),
    }
}

/// The native function `rest`.
pub fn rest(args: Vec<Object>) -> (r: Result<Object, RMonkeyError>)
    ensures
        value_outcome(r) == builtin_rest(objects_view(args@)),
{
    if args.len() != 1 {
        return Err(wrong_arity(args.len(), 1));
    }
    let obj = &args[0];
    proof {
        lemma_object_view_lists(*obj);
    }
    match obj {
        Object::Array { elements } => {
            let length = elements.len();
            if length > 0 {
                let mut new_array: Vec<Object> = Vec::new();
                let mut i: usize = 1;
                while i < length
                    invariant
                        1 <= i <= length,
                        length == elements.len(),
                        new_array.len() == i - 1,
                        forall|j: int| 0 <= j < i - 1 ==> new_array[j]@ == elements[j + 1]@,
                    decreases length - i,
                {
                    new_array.push(clone_object(&elements[i]));
                    i += 1;
                }
                let r = Object::Array { elements: new_array };
                proof {
                    lemma_object_view_lists(r);
                    assert(objects_view(new_array@) =~= objects_view(elements@).subrange(
                        1,
                        length as int,
                    ));
                }
                Ok(r)
            } else {
                Ok(Object::Null)
            }
        },
        _ => Err(kind_error("argument to `rest` must be ARRAY, got ", obj)),
    }
}

/// The native function `push`.
pub fn push(args: Vec<Object>) -> (r: Result<Object, RMonkeyError>)
    ensures
        value_outcome(r) == builtin_push(objects_view(args@)),
{
    if args.len() != 2 {
        return Err(wrong_arity(args.len(), 2));
    }
    let obj = &args[0];
    proof {
        lemma_object_view_lists(*obj);
    }
    match obj {
        Object::Array { elements } => {
            let mut new_array: Vec<Object> = Vec::new();
            let mut i: usize = 0;
            while i < elements.len()
                invariant
                    i <= elements.len(),
                    new_array.len() == i,
                    forall|j: int| 0 <= j < i ==> new_array[j]@ == elements[j]@,
                decreases elements.len() - i,
            {
                new_array.push(clone_object(&elements[i]));
                i += 1;
            }
            new_array.push(clone_object(&args[1]));
            let r = Object::Array { elements: new_array };
            proof {
                lemma_object_view_lists(r);
                assert(objects_view(new_array@) =~= objects_view(elements@).push(args[1]@));
            }
            Ok(r)
        },
        _ => Err(kind_error("argument to `push` must be ARRAY, got ", obj)),
    }
}

/// The native function `puts`: appends the display form of each argument
/// to `out`, as a line of its own.
pub fn puts(args: Vec<Object>, out: &mut Vec<String>) -> (r: Result<Object, RMonkeyError>)
    ensures
        value_outcome(r) == Ok::<ObjectView, ErrorView>(ObjectView::Null),
        lines_view(final(out)@) == lines_view(old(out)@) + object_texts(objects_view(args@)),
{
    let ghost base = lines_view(out@);
    let ghost texts = object_texts(objects_view(args@));
    let mut i: usize = 0;
    proof {
        assert(base + texts.take(0) =~= base);
    }
    while i < args.len()
        invariant
            i <= args.len(),
            texts == object_texts(objects_view(args@)),
            lines_view(out@) == base + texts.take(i as int),
        decreases args.len() - i,
    {
        let ghost before = lines_view(out@);
        let line = args[i].to_string();
        out.push(line);
        proof {
            assert(texts[i as int] == object_text(args[i as int]@));
            assert(lines_view(out@) =~= before.push(texts[i as int]));
            assert(base + texts.take(i + 1) =~= (base + texts.take(i as int)).push(
                texts[i as int],
            ));
        }
        i += 1;
    }
    proof {
        assert(texts.take(i as int) =~= texts);
    }
    Ok(Object::Null)
}

/// Calls a native function on its arguments; what `puts` puts out is
/// appended to `out`.
pub fn call_builtin(func: Builtin, args: Vec<Object>, out: &mut Vec<String>) -> (r: Result<
    Object,
    RMonkeyError,
>)
    ensures
        value_outcome(r) == builtin_result(func, objects_view(args@)),
        lines_view(final(out)@) == lines_view(old(out)@) + builtin_output(
            func,
            objects_view(args@),
        ),
{
    proof {
        assert(lines_view(out@) + Seq::<Seq<char>>::empty() =~= lines_view(out@));
    }
    match func {
        Builtin::Len => len(args),
        Builtin::First => first(args),
        Builtin::Last => last(args),
        Builtin::Rest => rest(args),
        Builtin::Push => push(args),
        Builtin::Puts => puts(args, out),
    }
}

} // verus!
