//! Values by name, in the order of the names.

use crate::text::{before, precedes, same};
use vstd::prelude::*;

verus! {

/// Is `i` the first place whose element has the property?
pub open spec fn is_first<A>(s: Seq<A>, p: spec_fn(A) -> bool, i: int) -> bool {
    &&& 0 <= i < s.len()
    &&& p(s[i])
    &&& forall|j: int| 0 <= j < i ==> !p(#[trigger] s[j])
}

/// The first place whose element has the property, if there is one.
pub open spec fn first_index<A>(s: Seq<A>, p: spec_fn(A) -> bool) -> Option<int> {
    if exists|i: int| is_first(s, p, i) {
        Some(choose|i: int| is_first(s, p, i))
    } else {
        None
    }
}

/// An item that has a property, with none before it that has, is the first.
pub proof fn first_index_found<A>(s: Seq<A>, p: spec_fn(A) -> bool, i: int)
    requires
        is_first(s, p, i),
    ensures
        first_index(s, p) == Some(i),
{
    let k = choose|k: int| is_first(s, p, k);
    assert(is_first(s, p, k));
    if k < i {
        assert(!p(s[k]));
    } else if i < k {
        assert(!p(s[i]));
    }
}

/// A first place that there is, is one.
pub proof fn first_index_is_first<A>(s: Seq<A>, p: spec_fn(A) -> bool)
    requires
        first_index(s, p) is Some,
    ensures
        is_first(s, p, first_index(s, p)->0),
{
}

/// Where no item has a property, there is no first.
pub proof fn first_index_absent<A>(s: Seq<A>, p: spec_fn(A) -> bool)
    requires
        forall|j: int| 0 <= j < s.len() ==> !p(#[trigger] s[j]),
    ensures
        first_index(s, p) is None,
{
    if exists|i: int| is_first(s, p, i) {
        let i = choose|i: int| is_first(s, p, i);
        assert(!p(s[i]));
    }
}

/// Where any element has the property, a first one has.
pub proof fn first_index_exists<A>(s: Seq<A>, p: spec_fn(A) -> bool, j: int)
    requires
        0 <= j < s.len(),
        p(s[j]),
    ensures
        first_index(s, p) is Some,
        0 <= first_index(s, p)->0 <= j,
        is_first(s, p, first_index(s, p)->0),
    decreases j,
{
    if forall|k: int| 0 <= k < j ==> !p(#[trigger] s[k]) {
        first_index_found(s, p, j);
    } else {
        let k = choose|k: int| 0 <= k < j && p(#[trigger] s[k]);
        first_index_exists(s, p, k);
    }
}

/// Where there is no first place, no element has the property.
pub proof fn nowhere_first<A>(s: Seq<A>, p: spec_fn(A) -> bool)
    requires
        first_index(s, p) is None,
    ensures
        forall|j: int| 0 <= j < s.len() ==> !p(#[trigger] s[j]),
{
    assert forall|j: int| 0 <= j < s.len() implies !p(#[trigger] s[j]) by {
        if p(s[j]) {
            first_index_exists(s, p, j);
        }
    }
}

/// The entries that stand under a name.
pub open spec fn has_key<V>(name: Seq<char>) -> spec_fn((Seq<char>, V)) -> bool {
    |e: (Seq<char>, V)| e.0 == name
}

/// The place of a name among entries.
pub open spec fn key_index<V>(entries: Seq<(Seq<char>, V)>, name: Seq<char>) -> Option<int> {
    first_index(entries, has_key(name))
}

/// The value under a name.
pub open spec fn lookup<V>(entries: Seq<(Seq<char>, V)>, name: Seq<char>) -> Option<V> {
    match key_index(entries, name) {
        Some(i) => Some(entries[i].1),
        None => None,
    }
}

/// Each name stands once, and the names are in their order.
pub open spec fn ascending<V>(entries: Seq<(Seq<char>, V)>) -> bool {
    forall|i: int, j: int|
        #![trigger entries[i], entries[j]]
        0 <= i < j < entries.len() ==> before(entries[i].0, entries[j].0)
}

/// A name that is not found is no key.
pub proof fn lookup_none<V>(entries: Seq<(Seq<char>, V)>, name: Seq<char>)
    requires
        lookup(entries, name) is None,
    ensures
        forall|i: int| 0 <= i < entries.len() ==> (#[trigger] entries[i]).0 != name,
{
    let p = has_key::<V>(name);
    assert forall|i: int| 0 <= i < entries.len() implies (#[trigger] entries[i]).0 != name by {
        if p(entries[i]) {
            first_index_exists(entries, p, i);
        }
    }
}

/// A name that is found is a key, and what is found stands under it.
pub proof fn lookup_some<V>(entries: Seq<(Seq<char>, V)>, name: Seq<char>)
    requires
        lookup(entries, name) is Some,
    ensures
        0 <= key_index(entries, name)->0 < entries.len(),
        entries[key_index(entries, name)->0] == (name, lookup(entries, name)->0),
{
    first_index_is_first(entries, has_key::<V>(name));
}

/// In ascending entries, a place is found by its name.
pub proof fn lookup_at<V>(entries: Seq<(Seq<char>, V)>, i: int)
    requires
        ascending(entries),
        0 <= i < entries.len(),
    ensures
        key_index(entries, entries[i].0) == Some(i),
        lookup(entries, entries[i].0) == Some(entries[i].1),
{
    let name = entries[i].0;
    let p = has_key::<V>(name);
    assert forall|j: int| 0 <= j < i implies !p(#[trigger] entries[j]) by {
        crate::text::before_is_irreflexive(name);
    }
    first_index_found(entries, p, i);
}

/// Values by name. Each name stands once, and the entries are in the order of
/// their names.
#[derive(Debug)]
pub struct Table<V> {
    items: Vec<(String, V)>,
}

impl<V> Table<V> {
    #[verifier::type_invariant]
    spec fn in_order(self) -> bool {
        ascending(self.entries())
    }

    /// The names and their values, in the order of the names.
    pub closed spec fn entries(self) -> Seq<(Seq<char>, V)> {
        Seq::new(self.items@.len(), |i: int| (self.items@[i].0@, self.items@[i].1))
    }

    pub fn new() -> (r: Table<V>)
        ensures
            r.entries() == Seq::<(Seq<char>, V)>::empty(),
    {
        let r = Table { items: Vec::new() };
        assert(r.entries() =~= Seq::empty());
        r
    }

    pub fn len(&self) -> (r: usize)
        ensures
            r == self.entries().len(),
            ascending(self.entries()),
    {
        proof {
            use_type_invariant(self);
        }
        self.items.len()
    }

    pub fn key(&self, i: usize) -> (r: &str)
        requires
            i < self.entries().len(),
        ensures
            r@ == self.entries()[i as int].0,
    {
        self.items[i].0.as_str()
    }

    pub fn value(&self, i: usize) -> (r: &V)
        requires
            i < self.entries().len(),
        ensures
            *r == self.entries()[i as int].1,
    {
        &self.items[i].1
    }

    /// The place of a name.
    pub fn find(&self, name: &str) -> (r: Option<usize>)
        ensures
            match r {
                Some(i) => i < self.entries().len() && key_index(self.entries(), name@) == Some(
                    i as int,
                ),
                None => key_index(self.entries(), name@) is None,
            },
    {
        let ghost e = self.entries();
        let ghost p = has_key::<V>(name@);
        for i in 0..self.items.len()
            invariant
                e == self.entries(),
                p == has_key::<V>(name@),
                forall|j: int| 0 <= j < i ==> !p(#[trigger] e[j]),
        {
            if same(&self.items[i].0, name) {
                proof {
                    assert(e[i as int].0 == name@);
                    first_index_found(e, p, i as int);
                }
                return Some(i);
            }
            assert(!p(e[i as int]));
        }
        proof {
            first_index_absent(e, p);
        }
        None
    }

    /// The value under a name.
    pub fn get(&self, name: &str) -> (r: Option<&V>)
        ensures
            match r {
                Some(v) => lookup(self.entries(), name@) == Some(*v),
                None => lookup(self.entries(), name@) is None,
            },
    {
        match self.find(name) {
            Some(i) => Some(self.value(i)),
            None => None,
        }
    }

    pub fn contains_key(&self, name: &str) -> (r: bool)
        ensures
            r == (lookup(self.entries(), name@) is Some),
    {
        self.find(name).is_some()
    }

    /// The table with a value put under a name. What stood there is replaced.
    pub fn with(self, name: String, value: V) -> (r: Table<V>)
        ensures
            ascending(r.entries()),
            lookup(r.entries(), name@) == Some(value),
            forall|other: Seq<char>|
                other != name@ ==> lookup(r.entries(), other) == lookup(self.entries(), other),
    {
        proof {
            use_type_invariant(&self);
        }
        let ghost e = self.entries();
        let mut items = self.items;
        let mut at: usize = 0;
        while at < items.len() && precedes(&items[at].0, &name)
            invariant
                at <= items.len(),
                items@ == self.items@,
                e == self.entries(),
                forall|j: int| 0 <= j < at ==> before((#[trigger] e[j]).0, name@),
            decreases items.len() - at,
        {
            assert(e[at as int].0 == items@[at as int].0@);
            at = at + 1;
        }
        let ghost key = name@;
        let replaces: bool = at < items.len() && same(&items[at].0, &name);
        if replaces {
            items.set(at, (name, value));
        } else {
            items.insert(at, (name, value));
        }
        let ghost f = Seq::new(items@.len(), |i: int| (items@[i].0@, items@[i].1));
        proof {
            if replaces {
                assert(f =~= e.update(at as int, (key, value)));
            } else {
                assert(f =~= e.insert(at as int, (key, value)));
            }
            with_entries(e, f, at as int, key, value, replaces);
        }
        let r = Table { items };
        assert(r.entries() =~= f);
        r
    }
}

/// Putting an entry where it belongs keeps the order and changes one name.
proof fn with_entries<V>(
    e: Seq<(Seq<char>, V)>,
    f: Seq<(Seq<char>, V)>,
    at: int,
    key: Seq<char>,
    value: V,
    replaces: bool,
)
    requires
        ascending(e),
        0 <= at <= e.len(),
        forall|j: int| 0 <= j < at ==> before((#[trigger] e[j]).0, key),
        at < e.len() ==> !before(e[at].0, key),
        replaces == (at < e.len() && e[at].0 == key),
        replaces ==> f == e.update(at, (key, value)),
        !replaces ==> f == e.insert(at, (key, value)),
    ensures
        ascending(f),
        lookup(f, key) == Some(value),
        forall|other: Seq<char>| other != key ==> lookup(f, other) == lookup(e, other),
{
    assert forall|j: int| at <= j < e.len() && !(replaces && j == at) implies before(
        key,
        (#[trigger] e[j]).0,
    ) by {
        if j == at {
            crate::text::before_is_total(e[at].0, key);
        } else if e[at].0 != key {
            crate::text::before_is_total(e[at].0, key);
            crate::text::before_is_transitive(key, e[at].0, e[j].0);
        }
    }
    assert forall|i: int, j: int| #![trigger f[i], f[j]] 0 <= i < j < f.len() implies before(
        f[i].0,
        f[j].0,
    ) by {
        if replaces {
            if i == at {
                assert(f[j] == e[j]);
            } else if j == at {
                assert(f[i] == e[i]);
            } else {
                assert(f[i] == e[i] && f[j] == e[j]);
            }
        } else {
            let i0 = if i < at {
                i
            } else {
                i - 1
            };
            let j0 = if j < at {
                j
            } else {
                j - 1
            };
            if i != at {
                assert(f[i] == e[i0]);
            }
            if j != at {
                assert(f[j] == e[j0]);
            }
        }
    }
    assert(f[at] == (key, value));
    lookup_at(f, at);
    assert forall|other: Seq<char>| other != key implies lookup(f, other) == lookup(e, other) by {
        if lookup(e, other) is Some {
            lookup_some(e, other);
            let i = key_index(e, other)->0;
            let k = if replaces || i < at {
                i
            } else {
                i + 1
            };
            assert(f[k] == e[i]);
            lookup_at(f, k);
        } else {
            lookup_none(e, other);
            if lookup(f, other) is Some {
                lookup_some(f, other);
                let k = key_index(f, other)->0;
                let i = if replaces || k < at {
                    k
                } else {
                    k - 1
                };
                assert(f[k] == e[i]);
            }
        }
    }
}

} // verus!
