//! Scopes: bindings from names to values, each with a link to the scope
//! that encloses it.
use vstd::prelude::*;
use vstd::string::*;
use crate::object::{clone_object, Object, ObjectView};

verus! {

/// The values of a list of bindings.
pub open spec fn bindings_view(pairs: Seq<(String, Object)>) -> Seq<(Seq<char>, ObjectView)> {
    Seq::new(pairs.len(), |i: int| (pairs[i].0@, pairs[i].1@))
}

/// The value that the last binding of `key` in `pairs` gives it.
pub open spec fn assoc_get(pairs: Seq<(Seq<char>, ObjectView)>, key: Seq<char>) -> Option<
    ObjectView,
>
    decreases pairs.len(),
{
    if pairs.len() == 0 {
        None
    } else if pairs.last().0 == key {
        Some(pairs.last().1)
    } else {
        assoc_get(pairs.drop_last(), key)
    }
}

/// The mapping that a list of bindings stands for: a later binding of a
/// name replaces an earlier one.
pub open spec fn assoc_map(pairs: Seq<(Seq<char>, ObjectView)>) -> Map<Seq<char>, ObjectView>
    decreases pairs.len(),
{
    if pairs.len() == 0 {
        Map::empty()
    } else {
        assoc_map(pairs.drop_last()).insert(pairs.last().0, pairs.last().1)
    }
}

/// Looking a name up in a list of bindings is looking it up in the mapping
/// that the list stands for.
pub proof fn lemma_assoc_get(pairs: Seq<(Seq<char>, ObjectView)>, key: Seq<char>)
    ensures
        assoc_get(pairs, key) == if assoc_map(pairs).contains_key(key) {
            Some(assoc_map(pairs)[key])
        } else {
            None
        },
    decreases pairs.len(),
{
    if pairs.len() > 0 {
        lemma_assoc_get(pairs.drop_last(), key);
    }
}

/// Replacing the value of the last binding of a name is binding the name
/// anew.
pub proof fn lemma_assoc_map_update(pairs: Seq<(Seq<char>, ObjectView)>, i: int, val: ObjectView)
    requires
        0 <= i < pairs.len(),
        forall|j: int| i < j < pairs.len() ==> pairs[j].0 != pairs[i].0,
    ensures
        assoc_map(pairs.update(i, (pairs[i].0, val))) == assoc_map(pairs).insert(pairs[i].0, val),
    decreases pairs.len(),
{
    let key = pairs[i].0;
    let after = pairs.update(i, (key, val));
    if i == pairs.len() - 1 {
        assert(after.drop_last() =~= pairs.drop_last());
        assert(assoc_map(after) =~= assoc_map(pairs).insert(key, val));
    } else {
        assert(after.drop_last() =~= pairs.drop_last().update(i, (key, val)));
        assert(after.last() == pairs.last());
        lemma_assoc_map_update(pairs.drop_last(), i, val);
        assert(assoc_map(after) =~= assoc_map(pairs).insert(key, val));
    }
}

/// The index of the last binding of `key` in `pairs`, or the number of
/// bindings if there is none.
pub fn find_last(pairs: &Vec<(String, Object)>, key: &String) -> (i: usize)
    ensures
        i <= pairs.len(),
        i < pairs.len() ==> pairs[i as int].0@ == key@,
        forall|j: int| i < j < pairs.len() ==> pairs[j].0@ != key@,
        i == pairs.len() ==> forall|j: int| 0 <= j < pairs.len() ==> pairs[j].0@ != key@,
{
    let mut i: usize = pairs.len();
    while i > 0
        invariant
            i <= pairs.len(),
            forall|j: int| i <= j < pairs.len() ==> pairs[j].0@ != key@,
        decreases i,
    {
        i -= 1;
        if pairs[i].0 == *key {
            return i;
        }
    }
    pairs.len()
}

/// Finds the value that the last binding of `key` in `pairs` gives it.
pub fn find_binding(pairs: &Vec<(String, Object)>, key: &String) -> (r: Option<Object>)
    ensures
        match r {
            Some(v) => assoc_get(bindings_view(pairs@), key@) == Some(v@),
            None => assoc_get(bindings_view(pairs@), key@) is None,
        },
{
    let ghost all = bindings_view(pairs@);
    let mut i: usize = pairs.len();
    proof {
        assert(all.take(i as int) =~= all);
    }
    while i > 0
        invariant
            i <= pairs.len(),
            all == bindings_view(pairs@),
            assoc_get(all, key@) == assoc_get(all.take(i as int), key@),
        decreases i,
    {
        i -= 1;
        proof {
            let part = all.take(i + 1);
            assert(part.last() == all[i as int]);
            assert(part.drop_last() =~= all.take(i as int));
        }
        if pairs[i].0 == *key {
            return Some(clone_object(&pairs[i].1));
        }
    }
    None
}

/// One scope of bindings.
#[derive(Debug, PartialEq, Eq)]
pub struct Scope {
    /// The bindings; the last binding of a name is in force.
    pub store: Vec<(String, Object)>,
    /// The index of the enclosing scope, if there is one.
    pub parent: Option<usize>,
}

/// The mathematical value of a [`Scope`].
pub struct ScopeView {
    pub store: Map<Seq<char>, ObjectView>,
    pub parent: Option<nat>,
}

impl View for Scope {
    type V = ScopeView;

    open spec fn view(&self) -> ScopeView {
        ScopeView {
            store: assoc_map(bindings_view(self.store@)),
            parent: match self.parent {
                Some(p) => Some(p as nat),
                None => None,
            },
        }
    }
}

impl Default for Scope {
    fn default() -> (s: Scope)
        ensures
            s@ == (ScopeView { store: Map::empty(), parent: None }),
    {
        Scope::new()
    }
}

impl Clone for Scope {
    fn clone(&self) -> (s: Scope)
        ensures
            s@ == self@,
    {
        let mut store: Vec<(String, Object)> = Vec::new();
        let mut i: usize = 0;
        while i < self.store.len()
            invariant
                i <= self.store.len(),
                store.len() == i,
                forall|j: int|
                    0 <= j < i ==> store[j].0@ == self.store[j].0@ && store[j].1@
                        == self.store[j].1@,
            decreases self.store.len() - i,
        {
            store.push((self.store[i].0.clone(), clone_object(&self.store[i].1)));
            i += 1;
        }
        proof {
            assert(bindings_view(store@) =~= bindings_view(self.store@));
        }
        Scope { store, parent: self.parent }
    }
}

impl Scope {
    /// A scope with no bindings and no enclosing scope.
    pub fn new() -> (s: Scope)
        ensures
            s@ == (ScopeView { store: Map::empty(), parent: None }),
    {
        let s = Scope { store: Vec::new(), parent: None };
        proof {
            assert(bindings_view(s.store@) =~= Seq::empty());
        }
        s
    }

    /// A scope with no bindings, enclosed by the scope at index `parent_scope`.
    pub fn new_enclosed_environment(parent_scope: usize) -> (s: Scope)
        ensures
            s@ == (ScopeView { store: Map::empty(), parent: Some(parent_scope as nat) }),
    {
        let s = Scope { store: Vec::new(), parent: Some(parent_scope) };
        proof {
            assert(bindings_view(s.store@) =~= Seq::empty());
        }
        s
    }

    /// Binds `key` to `val` in this scope, in place of what it was bound to.
    pub fn set(&mut self, key: String, val: Object)
        ensures
            final(self)@ == (ScopeView {
                store: old(self)@.store.insert(key@, val@),
                parent: old(self)@.parent,
            }),
    {
        let ghost before = bindings_view(self.store@);
        let ghost kv = (key@, val@);
        let i = find_last(&self.store, &key);
        if i < self.store.len() {
            self.store[i] = (key, val);
            proof {
                assert(bindings_view(self.store@) =~= before.update(i as int, kv));
                lemma_assoc_map_update(before, i as int, kv.1);
            }
        } else {
            self.store.push((key, val));
            proof {
                let after = bindings_view(self.store@);
                assert(after.drop_last() =~= before);
                assert(after.last() == kv);
            }
        }
    }

    /// The value that `key` is bound to in this scope itself.
    pub fn get(&self, key: String) -> (r: Option<Object>)
        ensures
            match r {
                Some(v) => self@.store.contains_key(key@) && self@.store[key@] == v@,
                None => !self@.store.contains_key(key@),
            },
    {
        proof {
            lemma_assoc_get(bindings_view(self.store@), key@);
        }
        find_binding(&self.store, &key)
    }
}

} // verus!
