//! Lists without repetition, in an order: how a set is written down.

use crate::text::{
    before, before_is_irreflexive, before_is_total, before_is_transitive, precedes, same,
};
use vstd::prelude::*;

verus! {

/// A strict total order.
pub open spec fn is_order<A>(less: spec_fn(A, A) -> bool) -> bool {
    &&& forall|a: A| !#[trigger] less(a, a)
    &&& forall|a: A, b: A, c: A| #[trigger] less(a, b) && #[trigger] less(b, c) ==> less(a, c)
    &&& forall|a: A, b: A| a == b || #[trigger] less(a, b) || less(b, a)
}

/// Each element stands once, and the elements are in their order.
pub open spec fn in_order<A>(s: Seq<A>, less: spec_fn(A, A) -> bool) -> bool {
    forall|i: int, j: int|
        #![trigger s[i], s[j]]
        0 <= i < j < s.len() ==> less(s[i], s[j])
}

/// The list holds exactly what has the property, in order.
pub open spec fn enumerates<A>(
    s: Seq<A>,
    less: spec_fn(A, A) -> bool,
    p: spec_fn(A) -> bool,
) -> bool {
    &&& in_order(s, less)
    &&& forall|x: A| #[trigger] s.contains(x) <==> p(x)
}

/// Everything that has a property, in order.
pub open spec fn listing<A>(less: spec_fn(A, A) -> bool, p: spec_fn(A) -> bool) -> Seq<A> {
    choose|s: Seq<A>| enumerates(s, less, p)
}

/// Two lists in order with the same elements are one list.
pub proof fn in_order_is_unique<A>(a: Seq<A>, b: Seq<A>, less: spec_fn(A, A) -> bool)
    requires
        is_order(less),
        in_order(a, less),
        in_order(b, less),
        forall|x: A| a.contains(x) <==> b.contains(x),
    ensures
        a == b,
    decreases a.len(),
{
    if a.len() == 0 {
        if b.len() > 0 {
            assert(b.contains(b[0]));
            assert(a.contains(b[0]));
        }
        assert(a =~= b);
    } else {
        let x = a.last();
        assert(a.contains(x));
        assert(b.contains(x));
        let y = b.last();
        assert(b.contains(y));
        assert(a.contains(y));
        let i = a.index_of(y);
        let k = b.index_of(x);
        if x != y {
            assert(less(a[i], a[a.len() - 1]));
            assert(less(b[k], b[b.len() - 1]));
            assert(less(x, y) && less(y, x));
        }
        let a0 = a.drop_last();
        let b0 = b.drop_last();
        assert forall|z: A| a0.contains(z) <==> b0.contains(z) by {
            if a0.contains(z) {
                let m = a0.index_of(z);
                assert(less(a[m], a[a.len() - 1]));
                assert(a.contains(z));
                assert(b.contains(z));
                let n = b.index_of(z);
                assert(b0[n] == z);
            }
            if b0.contains(z) {
                let m = b0.index_of(z);
                assert(less(b[m], b[b.len() - 1]));
                assert(b.contains(z));
                assert(a.contains(z));
                let n = a.index_of(z);
                assert(a0[n] == z);
            }
        }
        in_order_is_unique(a0, b0, less);
        assert(a =~= a0.push(x));
        assert(b =~= b0.push(y));
    }
}

/// What enumerates a property in an order is the listing of it.
pub proof fn listing_is<A>(s: Seq<A>, less: spec_fn(A, A) -> bool, p: spec_fn(A) -> bool)
    requires
        is_order(less),
        enumerates(s, less, p),
    ensures
        listing(less, p) == s,
{
    let t = listing(less, p);
    assert(enumerates(t, less, p));
    assert forall|x: A| s.contains(x) <==> t.contains(x) by {
        assert(s.contains(x) <==> p(x));
        assert(t.contains(x) <==> p(x));
    }
    in_order_is_unique(s, t, less);
}

/// Putting an element between those before it and those after it keeps the order.
pub proof fn insert_in_order<A>(s: Seq<A>, less: spec_fn(A, A) -> bool, at: int, x: A)
    requires
        is_order(less),
        in_order(s, less),
        0 <= at <= s.len(),
        forall|j: int| 0 <= j < at ==> less(#[trigger] s[j], x),
        at < s.len() ==> less(x, s[at]),
    ensures
        in_order(s.insert(at, x), less),
        forall|y: A| #[trigger] s.insert(at, x).contains(y) <==> s.contains(y) || y == x,
{
    let t = s.insert(at, x);
    assert forall|j: int| at <= j < s.len() implies less(x, #[trigger] s[j]) by {
        if j > at {
            assert(less(s[at], s[j]));
        }
    }
    assert forall|i: int, j: int| #![trigger t[i], t[j]] 0 <= i < j < t.len() implies less(
        t[i],
        t[j],
    ) by {
        let i0 = if i < at {
            i
        } else {
            i - 1
        };
        let j0 = if j < at {
            j
        } else {
            j - 1
        };
        if i != at {
            assert(t[i] == s[i0]);
        }
        if j != at {
            assert(t[j] == s[j0]);
        }
    }
    assert forall|y: A| #[trigger] t.contains(y) <==> s.contains(y) || y == x by {
        if t.contains(y) {
            let k = t.index_of(y);
            if k < at {
                assert(s[k] == y);
            } else if k > at {
                assert(s[k - 1] == y);
            }
        }
        if s.contains(y) {
            let k = s.index_of(y);
            if k < at {
                assert(t[k] == y);
            } else {
                assert(t[k + 1] == y);
            }
        }
        assert(t[at] == x);
    }
}

/// The elements of a list that have a property.
pub open spec fn among<A>(pool: Seq<A>, p: spec_fn(A) -> bool) -> spec_fn(A) -> bool {
    |x: A| pool.contains(x) && p(x)
}

/// The place where an element belongs.
proof fn place_in_order<A>(s: Seq<A>, less: spec_fn(A, A) -> bool, x: A) -> (at: int)
    requires
        is_order(less),
        in_order(s, less),
        !s.contains(x),
    ensures
        0 <= at <= s.len(),
        forall|j: int| 0 <= j < at ==> less(#[trigger] s[j], x),
        at < s.len() ==> less(x, s[at]),
    decreases s.len(),
{
    if s.len() == 0 || less(s.last(), x) {
        assert forall|j: int| 0 <= j < s.len() implies less(#[trigger] s[j], x) by {
            if j < s.len() - 1 {
                assert(less(s[j], s[s.len() - 1]));
            }
        }
        s.len() as int
    } else {
        assert(s.contains(s.last()));
        assert(less(x, s.last()));
        let t = s.drop_last();
        assert(!t.contains(x)) by {
            if t.contains(x) {
                assert(s[t.index_of(x)] == x);
            }
        }
        let at = place_in_order(t, less, x);
        assert forall|j: int| 0 <= j < at implies less(#[trigger] s[j], x) by {
            assert(t[j] == s[j]);
        }
        at
    }
}

/// What has a property among finitely many can be listed in order.
pub proof fn listing_exists<A>(pool: Seq<A>, less: spec_fn(A, A) -> bool, p: spec_fn(A) -> bool)
    requires
        is_order(less),
        forall|x: A| #[trigger] p(x) ==> pool.contains(x),
    ensures
        enumerates(listing(less, p), less, p),
{
    let s = pool_in_order(pool, less, p);
    assert forall|x: A| #[trigger] s.contains(x) <==> p(x) by {
        assert(s.contains(x) <==> among(pool, p)(x));
    }
    assert(enumerates(s, less, p));
}

proof fn pool_in_order<A>(pool: Seq<A>, less: spec_fn(A, A) -> bool, p: spec_fn(A) -> bool) -> (s:
    Seq<A>)
    requires
        is_order(less),
    ensures
        enumerates(s, less, among(pool, p)),
    decreases pool.len(),
{
    if pool.len() == 0 {
        Seq::empty()
    } else {
        let rest = pool.drop_last();
        let last = pool.last();
        let t = pool_in_order(rest, less, p);
        assert forall|x: A| #[trigger] pool.contains(x) <==> rest.contains(x) || x == last by {
            if rest.contains(x) {
                assert(pool[rest.index_of(x)] == x);
            }
            if pool.contains(x) && x != last {
                assert(rest[pool.index_of(x)] == x);
            }
            assert(pool[pool.len() - 1] == last);
        }
        if p(last) && !t.contains(last) {
            let at = place_in_order(t, less, last);
            insert_in_order(t, less, at, last);
            let u = t.insert(at, last);
            assert forall|x: A| #[trigger] u.contains(x) <==> among(pool, p)(x) by {
                assert(t.contains(x) <==> among(rest, p)(x));
                assert(pool.contains(x) <==> rest.contains(x) || x == last);
            }
            u
        } else {
            assert forall|x: A| #[trigger] t.contains(x) <==> among(pool, p)(x) by {
                assert(t.contains(x) <==> among(rest, p)(x));
                assert(pool.contains(x) <==> rest.contains(x) || x == last);
            }
            t
        }
    }
}

// ---------------------------------------------------------------------------
// Names
// ---------------------------------------------------------------------------

pub open spec fn name_order() -> spec_fn(Seq<char>, Seq<char>) -> bool {
    |a: Seq<char>, b: Seq<char>| before(a, b)
}

/// The order of names is an order.
pub proof fn name_order_is_order()
    ensures
        is_order(name_order()),
{
    let less = name_order();
    assert forall|a: Seq<char>| !#[trigger] less(a, a) by {
        before_is_irreflexive(a);
    }
    assert forall|a: Seq<char>, b: Seq<char>, c: Seq<char>| #[trigger] less(a, b)
        && #[trigger] less(b, c) implies less(a, c) by {
        before_is_transitive(a, b, c);
    }
    assert forall|a: Seq<char>, b: Seq<char>| a == b || #[trigger] less(a, b) || less(b, a) by {
        before_is_total(a, b);
    }
}

/// Put a name among names in order, where it is not there yet.
pub fn add_name(names: &mut Vec<String>, name: String)
    requires
        in_order(old(names).deep_view(), name_order()),
    ensures
        in_order(final(names).deep_view(), name_order()),
        forall|x: Seq<char>|
            final(names).deep_view().contains(x) <==> old(names).deep_view().contains(x) || x
                == name@,
{
    let ghost all = names.deep_view();
    let ghost less = name_order();
    let ghost start = *names;
    let mut at: usize = 0;
    while at < names.len() && precedes(&names[at], &name)
        invariant
            at <= names.len(),
            *names == start,
            all == start.deep_view(),
            less == name_order(),
            forall|j: int| 0 <= j < at ==> less(#[trigger] all[j], name@),
        decreases names.len() - at,
    {
        at = at + 1;
    }
    if at < names.len() && same(&names[at], &name) {
        proof {
            assert(all[at as int] == name@);
        }
        return ;
    }
    proof {
        name_order_is_order();
        if at < all.len() {
            assert(!less(all[at as int], name@));
            assert(all[at as int] == name@ || less(all[at as int], name@) || less(
                name@,
                all[at as int],
            ));
        }
        insert_in_order(all, less, at as int, name@);
    }
    let ghost key = name@;
    names.insert(at, name);
    assert(names.deep_view() =~= all.insert(at as int, key));
}

// ---------------------------------------------------------------------------
// Lists of names
// ---------------------------------------------------------------------------

/// Comes one list before another, by its first difference?
pub open spec fn list_before(a: Seq<Seq<char>>, b: Seq<Seq<char>>) -> bool
    decreases a.len(),
{
    if b.len() == 0 {
        false
    } else if a.len() == 0 {
        true
    } else if a[0] == b[0] {
        list_before(a.skip(1), b.skip(1))
    } else {
        before(a[0], b[0])
    }
}

pub open spec fn list_order() -> spec_fn(Seq<Seq<char>>, Seq<Seq<char>>) -> bool {
    |a: Seq<Seq<char>>, b: Seq<Seq<char>>| list_before(a, b)
}

proof fn list_before_is_irreflexive(a: Seq<Seq<char>>)
    ensures
        !list_before(a, a),
    decreases a.len(),
{
    if a.len() > 0 {
        list_before_is_irreflexive(a.skip(1));
    }
}

proof fn list_before_is_transitive(a: Seq<Seq<char>>, b: Seq<Seq<char>>, c: Seq<Seq<char>>)
    requires
        list_before(a, b),
        list_before(b, c),
    ensures
        list_before(a, c),
    decreases a.len(),
{
    if a.len() > 0 && b.len() > 0 && c.len() > 0 {
        if a[0] == b[0] && b[0] == c[0] {
            list_before_is_transitive(a.skip(1), b.skip(1), c.skip(1));
        } else if a[0] != b[0] && b[0] != c[0] {
            before_is_transitive(a[0], b[0], c[0]);
            before_is_irreflexive(a[0]);
        }
    }
}

proof fn list_before_is_total(a: Seq<Seq<char>>, b: Seq<Seq<char>>)
    ensures
        a == b || list_before(a, b) || list_before(b, a),
    decreases a.len(),
{
    if a.len() > 0 && b.len() > 0 {
        if a[0] == b[0] {
            list_before_is_total(a.skip(1), b.skip(1));
            if a.skip(1) == b.skip(1) {
                assert(a =~= seq![a[0]] + a.skip(1));
                assert(b =~= seq![b[0]] + b.skip(1));
            }
        } else {
            before_is_total(a[0], b[0]);
        }
    } else if a.len() == 0 && b.len() == 0 {
        assert(a =~= b);
    }
}

/// The order of lists is an order.
pub proof fn list_order_is_order()
    ensures
        is_order(list_order()),
{
    let less = list_order();
    assert forall|a: Seq<Seq<char>>| !#[trigger] less(a, a) by {
        list_before_is_irreflexive(a);
    }
    assert forall|a: Seq<Seq<char>>, b: Seq<Seq<char>>, c: Seq<Seq<char>>| #[trigger] less(a, b)
        && #[trigger] less(b, c) implies less(a, c) by {
        list_before_is_transitive(a, b, c);
    }
    assert forall|a: Seq<Seq<char>>, b: Seq<Seq<char>>|
        a == b || #[trigger] less(a, b) || less(b, a) by {
        list_before_is_total(a, b);
    }
}

fn list_precedes(a: &Vec<String>, b: &Vec<String>) -> (r: bool)
    ensures
        r == list_before(a.deep_view(), b.deep_view()),
{
    let ghost x = a.deep_view();
    let ghost y = b.deep_view();
    let mut i: usize = 0;
    assert(x.skip(0) =~= x && y.skip(0) =~= y);
    while i < a.len() && i < b.len()
        invariant
            i <= a.len(),
            i <= b.len(),
            x == a.deep_view(),
            y == b.deep_view(),
            list_before(x.skip(i as int), y.skip(i as int)) == list_before(x, y),
        decreases a.len() - i,
    {
        proof {
            assert(x.skip(i as int)[0] == a@[i as int]@);
            assert(y.skip(i as int)[0] == b@[i as int]@);
        }
        if !same(&a[i], &b[i]) {
            return precedes(&a[i], &b[i]);
        }
        assert(x.skip(i as int).skip(1) =~= x.skip(i as int + 1));
        assert(y.skip(i as int).skip(1) =~= y.skip(i as int + 1));
        i = i + 1;
    }
    i < b.len()
}

/// Put a list among lists in order, where it is not there yet.
pub fn add_list(lists: &mut Vec<Vec<String>>, list: Vec<String>)
    requires
        in_order(old(lists).deep_view(), list_order()),
    ensures
        in_order(final(lists).deep_view(), list_order()),
        forall|x: Seq<Seq<char>>|
            final(lists).deep_view().contains(x) <==> old(lists).deep_view().contains(x) || x
                == list.deep_view(),
{
    let ghost all = lists.deep_view();
    let ghost less = list_order();
    let ghost start = *lists;
    let ghost key = list.deep_view();
    let mut at: usize = 0;
    while at < lists.len() && list_precedes(&lists[at], &list)
        invariant
            at <= lists.len(),
            *lists == start,
            all == start.deep_view(),
            key == list.deep_view(),
            less == list_order(),
            forall|j: int| 0 <= j < at ==> less(#[trigger] all[j], key),
        decreases lists.len() - at,
    {
        at = at + 1;
    }
    proof {
        list_order_is_order();
    }
    if at < lists.len() && !list_precedes(&list, &lists[at]) {
        proof {
            assert(!less(key, all[at as int]));
            assert(!less(all[at as int], key));
            assert(all[at as int] == key || less(all[at as int], key) || less(key, all[at as int]));
        }
        return ;
    }
    proof {
        insert_in_order(all, less, at as int, key);
    }
    lists.insert(at, list);
    assert(lists.deep_view() =~= all.insert(at as int, key));
}

} // verus!
