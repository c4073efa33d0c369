//! Cycles in how pipelines are composed.
//!
//! A pipeline leads to another where one of its steps runs it. The search walks
//! every path without repetition; a path that comes back to a pipeline it has
//! already been through has closed a cycle.

use super::Policy;
use crate::flat::{flat, flat_has};
use crate::order::{add_list, in_order, list_order};
use crate::table::{first_index_is_first, lookup_some};
use crate::text::{
    before, before_is_irreflexive, before_is_total, before_is_transitive, copy, is_name,
    place_of, precedes, push_deep,
};
use vstd::prelude::*;

verus! {

/// Does one pipeline lead to another?
pub open spec fn leads(policy: Policy, from: Seq<char>, to: Seq<char>) -> bool {
    &&& policy.pipeline_called(from) is Some
    &&& policy.pipeline_called(from)->0.all_labels().contains(to)
    &&& policy.nests(to)
}

/// Each name leads to the next.
pub open spec fn is_walk(policy: Policy, w: Seq<Seq<char>>) -> bool {
    forall|i: int| 0 <= i < w.len() - 1 ==> leads(policy, #[trigger] w[i], w[i + 1])
}

/// A composition that is a cycle, as it is reported: from its own smallest name,
/// which is written again at its end.
pub open spec fn is_cycle(policy: Policy, c: Seq<Seq<char>>) -> bool {
    &&& c.len() >= 2
    &&& c.last() == c[0]
    &&& c.drop_last().no_duplicates()
    &&& forall|i: int| 0 < i < c.len() - 1 ==> before(c[0], #[trigger] c[i])
    &&& is_walk(policy, c)
}

pub open spec fn cycle_of(policy: Policy) -> spec_fn(Seq<Seq<char>>) -> bool {
    |c: Seq<Seq<char>>| is_cycle(policy, c)
}

/// A walk whose last name, and no other, repeats an earlier one.
pub open spec fn comes_back(policy: Policy, w: Seq<Seq<char>>) -> bool {
    &&& w.len() >= 2
    &&& is_walk(policy, w)
    &&& w.drop_last().no_duplicates()
    &&& w.drop_last().contains(w.last())
}

/// The cycle that such a walk ends in.
pub open spec fn closed_by(w: Seq<Seq<char>>) -> Seq<Seq<char>> {
    w.drop_last().skip(w.drop_last().index_of(w.last()))
}

/// The place of the smallest of different names.
pub open spec fn is_least(c: Seq<Seq<char>>, m: int) -> bool {
    &&& 0 <= m < c.len()
    &&& forall|i: int| 0 <= i < c.len() && i != m ==> before(c[m], #[trigger] c[i])
}

pub open spec fn rotated(c: Seq<Seq<char>>, m: int) -> Seq<Seq<char>> {
    c.skip(m) + c.take(m)
}

/// A cycle as it is reported.
pub open spec fn reported(c: Seq<Seq<char>>) -> Seq<Seq<char>> {
    let r = rotated(c, choose|m: int| is_least(c, m));
    r.push(r[0])
}

/// Is `c` reported for some walk that begins with `start`?
pub open spec fn found_from(policy: Policy, start: Seq<Seq<char>>, c: Seq<Seq<char>>) -> bool {
    exists|w: Seq<Seq<char>>|
        #![trigger comes_back(policy, w)]
        start.is_prefix_of(w) && comes_back(policy, w) && c == reported(closed_by(w))
}

proof fn least_is_unique(c: Seq<Seq<char>>, m: int)
    requires
        is_least(c, m),
    ensures
        (choose|k: int| is_least(c, k)) == m,
{
    let k = choose|k: int| is_least(c, k);
    assert(is_least(c, k));
    if k != m {
        assert(before(c[m], c[k]));
        assert(before(c[k], c[m]));
        before_is_transitive(c[m], c[k], c[m]);
        before_is_irreflexive(c[m]);
    }
}

/// Different pipelines are no more than there are pipelines.
proof fn names_fit(policy: Policy, names: Seq<Seq<char>>)
    requires
        names.no_duplicates(),
        forall|i: int|
            0 <= i < names.len() ==> policy.pipeline_called(#[trigger] names[i]) is Some,
    ensures
        names.len() <= policy.pipelines().len(),
{
    let e = policy.pipelines();
    let keys = Seq::new(e.len(), |i: int| e[i].0);
    let a = names.to_set();
    let b = keys.to_set();
    assert forall|x: Seq<char>| a.contains(x) implies b.contains(x) by {
        let i = names.index_of(x);
        assert(policy.pipeline_called(names[i]) is Some);
        lookup_some(e, x);
        let k = crate::table::key_index(e, x)->0;
        assert(keys[k] == x);
        assert(keys.contains(x));
    }
    names.unique_seq_to_set();
    vstd::seq_lib::seq_to_set_is_finite(keys);
    vstd::set_lib::lemma_len_subset(a, b);
    keys.lemma_cardinality_of_set();
}

/// What a walk that comes back ends in is a cycle, once it is turned round.
pub proof fn closed_is_cycle(policy: Policy, w: Seq<Seq<char>>)
    requires
        comes_back(policy, w),
    ensures
        closed_by(w).len() > 0,
        closed_by(w).no_duplicates(),
        is_cycle(policy, reported(closed_by(w))),
{
    let body = w.drop_last();
    let s = body.index_of(w.last());
    let c = closed_by(w);
    assert(body[s] == w.last());
    assert(c.len() == body.len() - s);
    assert forall|i: int| 0 <= i < c.len() implies #[trigger] c[i] == w[s + i] by {}
    assert forall|i: int, j: int| 0 <= i < j < c.len() implies c[i] != c[j] by {
        assert(body[s + i] != body[s + j]);
    }
    assert(c.no_duplicates());
    assert forall|i: int| 0 <= i < c.len() implies leads(
        policy,
        #[trigger] c[i],
        c[(i + 1) % c.len() as int],
    ) by {
        assert(leads(policy, w[s + i], w[s + i + 1]));
        if i + 1 < c.len() {
            assert((i + 1) % c.len() as int == i + 1) by (nonlinear_arith)
                requires
                    0 <= i + 1 < c.len(),
            ;
        } else {
            assert((i + 1) % c.len() as int == 0) by (nonlinear_arith)
                requires
                    i + 1 == c.len(),
                    c.len() > 0,
            ;
            assert(c[0] == w.last());
        }
    }
    least_exists(c);
    let m = choose|m: int| is_least(c, m);
    let r = rotated(c, m);
    let x = reported(c);
    assert(r.len() == c.len());
    assert forall|i: int| 0 <= i < r.len() implies #[trigger] r[i] == c[if i < c.len() - m {
        i + m
    } else {
        i + m - c.len()
    }] by {}
    assert(x.drop_last() =~= r);
    assert forall|i: int, j: int| 0 <= i < j < r.len() implies r[i] != r[j] by {}
    assert(r.no_duplicates());
    assert forall|i: int| 0 < i < x.len() - 1 implies before(x[0], #[trigger] x[i]) by {
        assert(x[0] == c[m]);
        assert(x[i] == r[i]);
    }
    assert forall|i: int| 0 <= i < x.len() - 1 implies leads(policy, #[trigger] x[i], x[i + 1]) by {
        let k = if i < c.len() - m {
            i + m
        } else {
            i + m - c.len()
        };
        assert(x[i] == r[i] && r[i] == c[k]);
        assert(leads(policy, c[k], c[(k + 1) % c.len() as int]));
        if k + 1 < c.len() {
            assert((k + 1) % c.len() as int == k + 1) by (nonlinear_arith)
                requires
                    0 <= k + 1 < c.len(),
            ;
        } else {
            assert((k + 1) % c.len() as int == 0) by (nonlinear_arith)
                requires
                    k + 1 == c.len(),
                    c.len() > 0,
            ;
        }
        if i + 1 < r.len() {
            assert(x[i + 1] == r[i + 1]);
        } else {
            assert(x[i + 1] == r[0]);
        }
    }
}

/// Of different names one is the smallest.
pub proof fn least_exists(c: Seq<Seq<char>>)
    requires
        c.len() > 0,
        c.no_duplicates(),
    ensures
        exists|m: int| is_least(c, m),
    decreases c.len(),
{
    if c.len() == 1 {
        assert(is_least(c, 0));
    } else {
        let d = c.drop_last();
        assert(d.no_duplicates());
        least_exists(d);
        let m = choose|m: int| is_least(d, m);
        let n = c.len() - 1;
        assert(c[m] != c[n]);
        before_is_total(c[m], c[n]);
        if before(c[m], c[n]) {
            assert forall|i: int| 0 <= i < c.len() && i != m implies before(
                c[m],
                #[trigger] c[i],
            ) by {
                if i < n {
                    assert(d[i] == c[i]);
                }
            }
            assert(is_least(c, m));
        } else {
            assert forall|i: int| 0 <= i < c.len() && i != n implies before(
                c[n],
                #[trigger] c[i],
            ) by {
                assert(d[i] == c[i]);
                if i != m {
                    before_is_transitive(c[n], c[m], c[i]);
                }
            }
            assert(is_least(c, n));
        }
    }
}

/// A cycle is a walk that comes back, and is reported as it stands.
proof fn cycle_comes_back(policy: Policy, c: Seq<Seq<char>>)
    requires
        is_cycle(policy, c),
    ensures
        comes_back(policy, c),
        c == reported(closed_by(c)),
{
    let body = c.drop_last();
    assert(body[0] == c.last());
    assert(body.contains(c.last()));
    let s = body.index_of(c.last());
    assert(body[s] == body[0]);
    assert(s == 0);
    assert(closed_by(c) =~= body);
    assert forall|i: int| 0 <= i < body.len() && i != 0 implies before(
        body[0],
        #[trigger] body[i],
    ) by {
        assert(body[i] == c[i]);
    }
    assert(is_least(body, 0));
    least_is_unique(body, 0);
    assert(rotated(body, 0) =~= body);
    assert(c =~= body.push(body[0]));
}

/// The walks from all pipelines together report every cycle, and only cycles.
pub proof fn all_walks_report_cycles(policy: Policy, c: Seq<Seq<char>>)
    ensures
        is_cycle(policy, c) <==> exists|i: int|
            0 <= i < policy.pipelines().len() && found_from(
                policy,
                seq![#[trigger] policy.pipelines()[i].0],
                c,
            ),
{
    if is_cycle(policy, c) {
        cycle_comes_back(policy, c);
        assert(leads(policy, c[0], c[1]));
        lookup_some(policy.pipelines(), c[0]);
        let i = crate::table::key_index(policy.pipelines(), c[0])->0;
        let start = seq![policy.pipelines()[i].0];
        assert(start.is_prefix_of(c)) by {
            assert(start =~= c.take(1));
        }
        assert(found_from(policy, start, c));
    }
    if exists|i: int|
        0 <= i < policy.pipelines().len() && found_from(
            policy,
            seq![#[trigger] policy.pipelines()[i].0],
            c,
        ) {
        let i = choose|i: int|
            0 <= i < policy.pipelines().len() && found_from(
                policy,
                seq![#[trigger] policy.pipelines()[i].0],
                c,
            );
        let start = seq![policy.pipelines()[i].0];
        let w = choose|w: Seq<Seq<char>>|
            #![trigger comes_back(policy, w)]
            start.is_prefix_of(w) && comes_back(policy, w) && c == reported(closed_by(w));
        closed_is_cycle(policy, w);
    }
}

/// The cycle as it is reported: turned round so that its smallest name is first,
/// with that name again at the end.
fn report_cycle(path: &Vec<String>, from: usize) -> (r: Vec<String>)
    requires
        from < path.len(),
        path.deep_view().skip(from as int).no_duplicates(),
    ensures
        r.deep_view() == reported(path.deep_view().skip(from as int)),
{
    broadcast use push_deep;

    let ghost all = path.deep_view();
    let ghost c = all.skip(from as int);
    let n: usize = path.len();
    let mut least: usize = from;
    for i in from + 1..n
        invariant
            n == path.len(),
            from <= least < i <= n,
            all == path.deep_view(),
            c == all.skip(from as int),
            c.no_duplicates(),
            forall|k: int| from <= k < i && k != least ==> before(all[least as int], #[trigger] all[k]),
    {
        assert(c[i - from] == all[i as int] && c[least - from] == all[least as int]);
        proof {
            before_is_total(all[least as int], all[i as int]);
        }
        if precedes(&path[i], &path[least]) {
            proof {
                assert forall|k: int| from <= k < i + 1 && k != i implies before(
                    all[i as int],
                    #[trigger] all[k],
                ) by {
                    if k != least {
                        before_is_transitive(all[i as int], all[least as int], all[k]);
                    }
                }
            }
            least = i;
        }
    }
    let ghost m = least - from;
    proof {
        assert forall|i: int| 0 <= i < c.len() && i != m implies before(c[m], #[trigger] c[i]) by {
            assert(c[i] == all[from + i]);
        }
        assert(is_least(c, m));
        least_is_unique(c, m);
    }
    let ghost r0 = rotated(c, m);
    let mut out: Vec<String> = Vec::new();
    for i in least..n
        invariant
            n == path.len(),
            from <= least < n,
            all == path.deep_view(),
            c == all.skip(from as int),
            out.deep_view() == all.subrange(least as int, i as int),
    {
        let ghost prev = out;
        out.push(copy(&path[i]));
        assert(prev.deep_view().push(all[i as int]) =~= all.subrange(least as int, i as int + 1));
    }
    assert(out.deep_view() =~= c.skip(m) + c.take(0));
    for i in from..least
        invariant
            n == path.len(),
            from <= least < n,
            m == least - from,
            all == path.deep_view(),
            c == all.skip(from as int),
            out.deep_view() == c.skip(m) + c.take(i - from),
    {
        let ghost prev = out;
        out.push(copy(&path[i]));
        assert(all[i as int] == c[i - from]);
        assert(prev.deep_view().push(all[i as int]) =~= c.skip(m) + c.take(i + 1 - from));
    }
    assert(out.deep_view() =~= r0);
    let first: String = copy(&path[least]);
    assert(first@ == r0[0]);
    out.push(first);
    out
}

/// Add to `found` every cycle that is closed by a walk which begins with `path`
/// and then `at`.
pub fn find_cycles(policy: &Policy, at: &str, path: &mut Vec<String>, found: &mut Vec<Vec<String>>)
    requires
        policy.pipeline_called(at@) is Some,
        is_walk(*policy, old(path).deep_view().push(at@)),
        old(path).deep_view().no_duplicates(),
        forall|i: int|
            0 <= i < old(path).deep_view().len() ==> policy.pipeline_called(
                #[trigger] old(path).deep_view()[i],
            ) is Some,
        in_order(old(found).deep_view(), list_order()),
    ensures
        final(path).deep_view() == old(path).deep_view(),
        in_order(final(found).deep_view(), list_order()),
        forall|c: Seq<Seq<char>>|
            final(found).deep_view().contains(c) <==> old(found).deep_view().contains(c)
                || found_from(*policy, old(path).deep_view().push(at@), c),
    decreases policy.pipelines().len() - old(path).deep_view().len(),
{
    broadcast use push_deep;

    let ghost pre = path.deep_view();
    let ghost start = pre.push(at@);
    let ghost found0 = found.deep_view();
    proof {
        names_fit(*policy, pre);
    }
    if let Some(s) = place_of(path, at) {
        let cycle: Vec<String>;
        proof {
            first_index_is_first(pre, is_name(at@));
            assert forall|i: int, j: int| 0 <= i < j < pre.skip(s as int).len() implies pre.skip(
                s as int,
            )[i] != pre.skip(s as int)[j] by {
                assert(pre[s + i] != pre[s + j]);
            }
        }
        cycle = report_cycle(path, s);
        let ghost c0 = cycle.deep_view();
        add_list(found, cycle);
        proof {
            assert(start.drop_last() =~= pre);
            assert(pre[s as int] == at@);
            assert(pre.contains(start.last()));
            let k = pre.index_of(at@);
            assert(k == s);
            assert(closed_by(start) == pre.skip(s as int));
            assert(comes_back(*policy, start));
            assert forall|c: Seq<Seq<char>>| found_from(*policy, start, c) <==> c == c0 by {
                if found_from(*policy, start, c) {
                    let w = choose|w: Seq<Seq<char>>|
                        #![trigger comes_back(*policy, w)]
                        start.is_prefix_of(w) && comes_back(*policy, w) && c == reported(
                            closed_by(w),
                        );
                    if w.len() > start.len() {
                        assert(w.drop_last()[s as int] == start[s as int]);
                        assert(w.drop_last()[pre.len() as int] == start[pre.len() as int]);
                    }
                    assert(w =~= start);
                }
                if c == c0 {
                    assert(start.is_prefix_of(start));
                }
            }
        }
        return ;
    }
    proof {
        crate::table::nowhere_first(pre, is_name(at@));
        assert(start.no_duplicates()) by {
            assert forall|i: int, j: int| 0 <= i < start.len() && 0 <= j < start.len() && i
                != j implies start[i] != start[j] by {
                if i == pre.len() {
                    assert(!is_name(at@)(pre[j]));
                } else if j == pre.len() {
                    assert(!is_name(at@)(pre[i]));
                }
            }
        }
        assert forall|i: int| 0 <= i < start.len() implies policy.pipeline_called(
            #[trigger] start[i],
        ) is Some by {
            if i < pre.len() {
                assert(start[i] == pre[i]);
            }
        }
        names_fit(*policy, start);
    }
    let names: Vec<String> = match policy.config.pipeline.get(at) {
        Some(pipeline) => pipeline.step_names(),
        None => Vec::new(),
    };
    let ghost labels = policy.pipeline_called(at@)->0.all_labels();
    path.push(copy(at));
    assert(path.deep_view() =~= start);
    assert forall|c: Seq<Seq<char>>| #[trigger]
        found.deep_view().contains(c) <==> found0.contains(c) || found_below(
        *policy,
        start,
        labels,
        0,
        c,
    ) by {}
    for i in 0..names.len()
        invariant
            policy.pipeline_called(at@) is Some,
            labels == policy.pipeline_called(at@)->0.all_labels(),
            names.deep_view() == labels,
            pre == old(path).deep_view(),
            start == pre.push(at@),
            start.no_duplicates(),
            is_walk(*policy, start),
            start.len() <= policy.pipelines().len(),
            forall|k: int|
                0 <= k < start.len() ==> policy.pipeline_called(#[trigger] start[k]) is Some,
            path.deep_view() == start,
            in_order(found.deep_view(), list_order()),
            forall|c: Seq<Seq<char>>| #[trigger]
                found.deep_view().contains(c) <==> found0.contains(c) || found_below(
                    *policy,
                    start,
                    labels,
                    i as int,
                    c,
                ),
    {
        let ghost here = found.deep_view();
        let inner: Option<&str> = policy.nested_pipeline(&names[i]);
        let ghost label = labels[i as int];
        assert(names@[i as int]@ == label);
        if inner.is_some() {
            let next: String = copy(&names[i]);
            proof {
                assert(labels.contains(label));
                assert(leads(*policy, at@, label));
                let w = start.push(label);
                assert forall|k: int| 0 <= k < w.len() - 1 implies leads(
                    *policy,
                    #[trigger] w[k],
                    w[k + 1],
                ) by {
                    if k < start.len() - 1 {
                        assert(leads(*policy, start[k], start[k + 1]));
                    }
                }
            }
            find_cycles(policy, &next, path, found);
        }
        proof {
            assert forall|c: Seq<Seq<char>>| #[trigger]
                found.deep_view().contains(c) <==> found0.contains(c) || found_below(
                *policy,
                start,
                labels,
                i as int + 1,
                c,
            ) by {
                assert(here.contains(c) <==> found0.contains(c) || found_below(
                    *policy,
                    start,
                    labels,
                    i as int,
                    c,
                ));
                found_below_step(*policy, start, labels, i as int, c);
            }
        }
    }
    path.pop();
    proof {
        assert(path.deep_view() =~= start.drop_last());
        assert(start.drop_last() =~= pre);
        assert forall|c: Seq<Seq<char>>|
            found.deep_view().contains(c) <==> found0.contains(c) || found_from(
                *policy,
                start,
                c,
            ) by {
            found_below_is_from(*policy, pre, at@, c);
            assert(found.deep_view().contains(c) <==> found0.contains(c) || found_below(
                *policy,
                start,
                labels,
                labels.len() as int,
                c,
            ));
        }
    }
}

/// Is `c` reported for a walk that goes on from `start` to one of the first `n`
/// labels?
spec fn found_below(
    policy: Policy,
    start: Seq<Seq<char>>,
    labels: Seq<Seq<char>>,
    n: int,
    c: Seq<Seq<char>>,
) -> bool {
    exists|j: int|
        0 <= j < n && policy.nests(#[trigger] labels[j]) && found_from(
            policy,
            start.push(labels[j]),
            c,
        )
}

proof fn found_below_step(
    policy: Policy,
    start: Seq<Seq<char>>,
    labels: Seq<Seq<char>>,
    n: int,
    c: Seq<Seq<char>>,
)
    ensures
        found_below(policy, start, labels, n + 1, c) <==> found_below(policy, start, labels, n, c)
            || (n >= 0 && policy.nests(labels[n]) && found_from(
            policy,
            start.push(labels[n]),
            c,
        )),
{
    if found_below(policy, start, labels, n + 1, c) {
        let j = choose|j: int|
            0 <= j < n + 1 && policy.nests(#[trigger] labels[j]) && found_from(
                policy,
                start.push(labels[j]),
                c,
            );
        if j < n {
            assert(found_below(policy, start, labels, n, c));
        }
    }
    if found_below(policy, start, labels, n, c) {
        let j = choose|j: int|
            0 <= j < n && policy.nests(#[trigger] labels[j]) && found_from(
                policy,
                start.push(labels[j]),
                c,
            );
        assert(0 <= j < n + 1);
    }
}

/// A walk that begins with different names and comes back goes on through one of
/// the last one's steps.
proof fn found_below_is_from(policy: Policy, pre: Seq<Seq<char>>, at: Seq<char>, c: Seq<Seq<char>>)
    requires
        policy.pipeline_called(at) is Some,
        pre.push(at).no_duplicates(),
    ensures
        found_from(policy, pre.push(at), c) <==> found_below(
            policy,
            pre.push(at),
            policy.pipeline_called(at)->0.all_labels(),
            policy.pipeline_called(at)->0.all_labels().len() as int,
            c,
        ),
{
    let start = pre.push(at);
    let labels = policy.pipeline_called(at)->0.all_labels();
    if found_from(policy, start, c) {
        let w = choose|w: Seq<Seq<char>>|
            #![trigger comes_back(policy, w)]
            start.is_prefix_of(w) && comes_back(policy, w) && c == reported(closed_by(w));
        let n = start.len() as int;
        if w.len() == n {
            assert(w =~= start);
            let k = w.drop_last().index_of(w.last());
            assert(start[k] == start[n - 1]);
        }
        assert(w.len() > n);
        assert(w.subrange(0, n)[n - 1] == w[n - 1]);
        assert(leads(policy, w[n - 1], w[n]));
        let j = labels.index_of(w[n]);
        assert(labels[j] == w[n]);
        let longer = start.push(labels[j]);
        assert(longer.is_prefix_of(w)) by {
            assert(longer =~= w.take(n + 1));
        }
        assert(found_from(policy, longer, c));
        assert(policy.nests(labels[j]));
    }
    if found_below(policy, start, labels, labels.len() as int, c) {
        let j = choose|j: int|
            0 <= j < labels.len() && policy.nests(#[trigger] labels[j]) && found_from(
                policy,
                start.push(labels[j]),
                c,
            );
        let longer = start.push(labels[j]);
        let w = choose|w: Seq<Seq<char>>|
            #![trigger comes_back(policy, w)]
            longer.is_prefix_of(w) && comes_back(policy, w) && c == reported(closed_by(w));
        assert(start.is_prefix_of(w)) by {
            assert(longer.take(start.len() as int) =~= start);
            assert(start =~= w.take(start.len() as int));
        }
    }
}

/// Every list of a length made of given names.
pub open spec fn lists_of(names: Seq<Seq<char>>, n: nat) -> Seq<Seq<Seq<char>>>
    decreases n,
{
    if n == 0 {
        seq![Seq::empty()]
    } else {
        flat(lists_of(names, (n - 1) as nat), extended_by(names))
    }
}

/// A list with each of the names put at its end.
pub open spec fn extended_by(names: Seq<Seq<char>>) -> spec_fn(Seq<Seq<char>>) -> Seq<
    Seq<Seq<char>>,
> {
    |w: Seq<Seq<char>>| Seq::new(names.len(), |i: int| w.push(names[i]))
}

proof fn lists_of_has(names: Seq<Seq<char>>, w: Seq<Seq<char>>)
    requires
        forall|i: int| 0 <= i < w.len() ==> names.contains(#[trigger] w[i]),
    ensures
        lists_of(names, w.len()).contains(w),
    decreases w.len(),
{
    if w.len() == 0 {
        assert(w =~= Seq::empty());
        assert(lists_of(names, 0)[0] == w);
    } else {
        let t = w.drop_last();
        assert forall|i: int| 0 <= i < t.len() implies names.contains(#[trigger] t[i]) by {
            assert(t[i] == w[i]);
        }
        lists_of_has(names, t);
        let shorter = lists_of(names, t.len());
        let at = shorter.index_of(t);
        assert(names.contains(w[w.len() - 1]));
        let i = names.index_of(w.last());
        let more = extended_by(names)(t);
        assert(more[i] == t.push(names[i]));
        assert(t.push(names[i]) =~= w);
        flat_has(shorter, extended_by(names), at, w);
    }
}

/// Every list of names that a cycle could be, the longest last.
pub open spec fn lists_up_to(names: Seq<Seq<char>>, n: nat) -> Seq<Seq<Seq<char>>>
    decreases n,
{
    if n == 0 {
        lists_of(names, 0)
    } else {
        lists_up_to(names, (n - 1) as nat) + lists_of(names, n)
    }
}

proof fn lists_up_to_has(names: Seq<Seq<char>>, n: nat, w: Seq<Seq<char>>)
    requires
        forall|i: int| 0 <= i < w.len() ==> names.contains(#[trigger] w[i]),
        w.len() <= n,
    ensures
        lists_up_to(names, n).contains(w),
    decreases n,
{
    lists_of_has(names, w);
    if n == w.len() {
        let last = lists_of(names, n);
        let i = last.index_of(w);
        if n > 0 {
            let front = lists_up_to(names, (n - 1) as nat);
            assert((front + last)[front.len() + i] == w);
        }
    } else {
        lists_up_to_has(names, (n - 1) as nat, w);
        let front = lists_up_to(names, (n - 1) as nat);
        let i = front.index_of(w);
        assert((front + lists_of(names, n))[i] == w);
    }
}

/// The lists among which every cycle is.
pub open spec fn all_cycle_shapes(policy: Policy) -> Seq<Seq<Seq<char>>> {
    let e = policy.pipelines();
    lists_up_to(Seq::new(e.len(), |i: int| e[i].0), e.len() + 1)
}

/// A cycle visits no more pipelines than there are.
pub proof fn cycle_has_shape(policy: Policy, c: Seq<Seq<char>>)
    requires
        is_cycle(policy, c),
    ensures
        all_cycle_shapes(policy).contains(c),
{
    let e = policy.pipelines();
    let names = Seq::new(e.len(), |i: int| e[i].0);
    assert forall|i: int| 0 <= i < c.len() implies policy.pipeline_called(
        #[trigger] c[i],
    ) is Some by {
        if i < c.len() - 1 {
            assert(leads(policy, c[i], c[i + 1]));
        } else {
            assert(leads(policy, c[i - 1], c[i]));
        }
    }
    assert forall|i: int| 0 <= i < c.len() implies names.contains(#[trigger] c[i]) by {
        lookup_some(e, c[i]);
        assert(names[crate::table::key_index(e, c[i])->0] == c[i]);
    }
    assert forall|i: int| 0 <= i < c.drop_last().len() implies policy.pipeline_called(
        #[trigger] c.drop_last()[i],
    ) is Some by {
        assert(c.drop_last()[i] == c[i]);
    }
    names_fit(policy, c.drop_last());
    lists_up_to_has(names, e.len() + 1, c);
}

} // verus!
