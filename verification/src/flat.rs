//! Lists made of what each element of another list gives.

use vstd::prelude::*;

verus! {

/// What each element gives, one after the other.
pub open spec fn flat<A, B>(s: Seq<A>, f: spec_fn(A) -> Seq<B>) -> Seq<B>
    decreases s.len(),
{
    if s.len() == 0 {
        Seq::empty()
    } else {
        flat(s.drop_last(), f) + f(s.last())
    }
}

/// One more item adds what it gives at the end.
pub proof fn flat_step<A, B>(s: Seq<A>, f: spec_fn(A) -> Seq<B>, i: int)
    requires
        0 <= i < s.len(),
    ensures
        flat(s.take(i + 1), f) == flat(s.take(i), f) + f(s[i]),
{
    assert(s.take(i + 1).drop_last() =~= s.take(i));
    assert(s.take(i + 1).last() == s[i]);
}

/// Nothing is given exactly where no element gives anything.
pub proof fn flat_empty<A, B>(s: Seq<A>, f: spec_fn(A) -> Seq<B>)
    ensures
        flat(s, f).len() == 0 <==> forall|i: int| 0 <= i < s.len() ==> f(#[trigger] s[i]).len() == 0,
    decreases s.len(),
{
    if s.len() > 0 {
        let d = s.drop_last();
        flat_empty(d, f);
        assert(forall|i: int| 0 <= i < d.len() ==> d[i] == #[trigger] s[i]);
        if forall|i: int| 0 <= i < s.len() ==> f(#[trigger] s[i]).len() == 0 {
            assert forall|i: int| 0 <= i < d.len() implies f(#[trigger] d[i]).len() == 0 by {
                assert(f(s[i]).len() == 0);
            }
            assert(f(s[s.len() - 1]).len() == 0);
        }
        if flat(s, f).len() == 0 {
            assert forall|i: int| 0 <= i < s.len() implies f(#[trigger] s[i]).len() == 0 by {
                if i < d.len() {
                    assert(f(d[i]).len() == 0);
                }
            }
        }
    }
}

/// What an element gives is in the whole.
pub proof fn flat_has<A, B>(s: Seq<A>, f: spec_fn(A) -> Seq<B>, i: int, x: B)
    requires
        0 <= i < s.len(),
        f(s[i]).contains(x),
    ensures
        flat(s, f).contains(x),
    decreases s.len(),
{
    let front = flat(s.drop_last(), f);
    let last = f(s.last());
    if i == s.len() - 1 {
        let k = last.index_of(x);
        assert((front + last)[front.len() + k] == x);
    } else {
        assert(s.drop_last()[i] == s[i]);
        flat_has(s.drop_last(), f, i, x);
        let k = front.index_of(x);
        assert((front + last)[k] == x);
    }
}

/// How much the elements before one give.
pub open spec fn ahead<A, B>(s: Seq<A>, f: spec_fn(A) -> Seq<B>, k: int) -> int {
    flat(s.take(k), f).len() as int
}

/// What the elements before one give is at the start of the whole.
proof fn flat_starts_with<A, B>(s: Seq<A>, f: spec_fn(A) -> Seq<B>, k: int)
    requires
        0 <= k <= s.len(),
    ensures
        ahead(s, f, k) <= flat(s, f).len(),
        flat(s, f).take(ahead(s, f, k)) == flat(s.take(k), f),
    decreases s.len() - k,
{
    if k == s.len() {
        assert(s.take(k) =~= s);
        assert(flat(s, f).take(ahead(s, f, k)) =~= flat(s, f));
    } else {
        flat_starts_with(s, f, k + 1);
        flat_step(s, f, k);
        let n = ahead(s, f, k);
        assert forall|i: int| 0 <= i < n implies flat(s, f).take(n)[i] == flat(s.take(k), f)[i] by {
            assert(flat(s, f).take(ahead(s, f, k + 1))[i] == flat(s, f)[i]);
        }
        assert(flat(s, f).take(n) =~= flat(s.take(k), f));
    }
}

/// Where in the whole a thing is that an element gives.
pub proof fn flat_at<A, B>(s: Seq<A>, f: spec_fn(A) -> Seq<B>, k: int, m: int)
    requires
        0 <= k < s.len(),
        0 <= m < f(s[k]).len(),
    ensures
        0 <= ahead(s, f, k) + m < flat(s, f).len(),
        flat(s, f)[ahead(s, f, k) + m] == f(s[k])[m],
{
    flat_starts_with(s, f, k + 1);
    flat_step(s, f, k);
    let i = ahead(s, f, k) + m;
    assert(flat(s, f).take(ahead(s, f, k + 1))[i] == flat(s, f)[i]);
}

/// What comes before the first element, before the one behind another, and in all.
pub proof fn flat_ahead<A, B>(s: Seq<A>, f: spec_fn(A) -> Seq<B>, k: int)
    requires
        0 <= k < s.len(),
    ensures
        ahead(s, f, 0) == 0,
        ahead(s, f, k + 1) == ahead(s, f, k) + f(s[k]).len(),
        ahead(s, f, s.len() as int) == flat(s, f).len(),
{
    flat_step(s, f, k);
    assert(s.take(0).len() == 0);
    assert(s.take(s.len() as int) =~= s);
}

/// The element that gives what is at a place of the whole, and the place in what it gives.
pub proof fn flat_where<A, B>(s: Seq<A>, f: spec_fn(A) -> Seq<B>, i: int) -> (r: (int, int))
    requires
        0 <= i < flat(s, f).len(),
    ensures
        0 <= r.0 < s.len(),
        0 <= r.1 < f(s[r.0]).len(),
        i == ahead(s, f, r.0) + r.1,
    decreases s.len(),
{
    let d = s.drop_last();
    if i < flat(d, f).len() {
        let (k, m) = flat_where(d, f, i);
        assert(d.take(k) =~= s.take(k));
        (k, m)
    } else {
        assert(s.take(s.len() - 1) =~= d);
        (s.len() - 1, i - flat(d, f).len())
    }
}

/// What an element gives is behind all that those before it give.
proof fn flat_in_order<A, B>(s: Seq<A>, f: spec_fn(A) -> Seq<B>, k: int, l: int)
    requires
        0 <= k < l <= s.len(),
    ensures
        ahead(s, f, k) + f(s[k]).len() <= ahead(s, f, l),
    decreases l - k,
{
    flat_step(s, f, l - 1);
    if k < l - 1 {
        flat_in_order(s, f, k, l - 1);
    }
}

/// A place of the whole comes from one element, and from one place in what it gives.
pub proof fn flat_comes_from_one<A, B>(
    s: Seq<A>,
    f: spec_fn(A) -> Seq<B>,
    k: int,
    m: int,
    l: int,
    n: int,
)
    requires
        0 <= k < s.len(),
        0 <= m < f(s[k]).len(),
        0 <= l < s.len(),
        0 <= n < f(s[l]).len(),
        ahead(s, f, k) + m == ahead(s, f, l) + n,
    ensures
        k == l,
        m == n,
{
    if k < l {
        flat_in_order(s, f, k, l);
    } else if l < k {
        flat_in_order(s, f, l, k);
    }
}

} // verus!
