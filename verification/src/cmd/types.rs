//! `shep types`: the menu. This exists so an agent can choose, which is why
//! `description` lives on types and nowhere else.

use super::{add_line, widest, width_of};
use crate::config::{Policy, TaskType};
use crate::flat::{flat, flat_step};
use crate::text::{cat2, cat3, copy, join, joined, pad, padded};
use vstd::prelude::*;

verus! {

/// The names of the types.
pub open spec fn type_names(policy: Policy) -> Seq<Seq<char>> {
    let e = policy.config.types.entries();
    Seq::new(e.len(), |i: int| e[i].0)
}

/// How wide the column of names is.
pub open spec fn name_width(policy: Policy) -> nat {
    if policy.config.types.entries().len() == 0 {
        4
    } else {
        widest(type_names(policy))
    }
}

/// The two lines about a type.
pub open spec fn type_lines(width: nat) -> spec_fn((Seq<char>, TaskType)) -> Seq<Seq<char>> {
    |e: (Seq<char>, TaskType)|
        seq![
            padded(e.0, width) + "  "@ + e.1.description@,
            padded(""@, width) + "  "@ + joined(e.1.pipelines.deep_view(), " → "@),
        ]
}

/// What `shep types` prints.
pub open spec fn types_of(policy: Policy) -> Seq<Seq<char>> {
    flat(policy.config.types.entries(), type_lines(name_width(policy)))
}

fn names(policy: &Policy) -> (r: Vec<String>)
    ensures
        r.deep_view() == type_names(*policy),
{
    let ghost all = type_names(*policy);
    let n: usize = policy.config.types.len();
    let mut out: Vec<String> = Vec::new();
    assert(out.deep_view() =~= all.take(0));
    for i in 0..n
        invariant
            all == type_names(*policy),
            n == all.len(),
            out.deep_view() == all.take(i as int),
    {
        let ghost prev = out.deep_view();
        add_line(&mut out, copy(policy.config.types.key(i)));
        assert(prev.push(all[i as int]) =~= all.take(i as int + 1));
    }
    assert(all.take(n as int) =~= all);
    out
}

pub fn lines(policy: &Policy) -> (r: Vec<String>)
    ensures
        r.deep_view() == types_of(*policy),
{
    let n: usize = policy.config.types.len();
    let width: usize = if n == 0 {
        4
    } else {
        width_of(&names(policy))
    };
    let ghost e = policy.config.types.entries();
    let ghost f = type_lines(name_width(*policy));
    let mut out: Vec<String> = Vec::new();
    assert(out.deep_view() =~= flat(e.take(0), f));
    for i in 0..n
        invariant
            e == policy.config.types.entries(),
            n == e.len(),
            width == name_width(*policy),
            f == type_lines(name_width(*policy)),
            out.deep_view() == flat(e.take(i as int), f),
    {
        proof {
            flat_step(e, f, i as int);
        }
        let ghost prev = out.deep_view();
        let t: &TaskType = policy.config.types.value(i);
        add_line(
            &mut out,
            cat3(&pad(policy.config.types.key(i), width), "  ", &t.description),
        );
        add_line(&mut out, cat3(&pad("", width), "  ", &join(&t.pipelines, " → ")));
        assert(out.deep_view() =~= prev + f(e[i as int]));
    }
    assert(e.take(n as int) =~= e);
    out
}

/// The two lines about a type in a list for an agent.
pub open spec fn menu_items() -> spec_fn((Seq<char>, TaskType)) -> Seq<Seq<char>> {
    |e: (Seq<char>, TaskType)|
        seq![
            "- `"@ + e.0 + "` — "@ + e.1.description@,
            "  - pipelines: "@ + joined(e.1.pipelines.deep_view(), " → "@),
        ]
}

/// The types as `shep skill` lists them.
pub fn skill_lines(policy: &Policy) -> (r: Vec<String>)
    ensures
        r.deep_view() == flat(policy.config.types.entries(), menu_items()),
{
    let n: usize = policy.config.types.len();
    let ghost e = policy.config.types.entries();
    let ghost f = menu_items();
    let mut out: Vec<String> = Vec::new();
    assert(out.deep_view() =~= flat(e.take(0), f));
    for i in 0..n
        invariant
            e == policy.config.types.entries(),
            n == e.len(),
            f == menu_items(),
            out.deep_view() == flat(e.take(i as int), f),
    {
        proof {
            flat_step(e, f, i as int);
        }
        let ghost prev = out.deep_view();
        let t: &TaskType = policy.config.types.value(i);
        add_line(
            &mut out,
            cat2(&cat3("- `", policy.config.types.key(i), "` — "), &t.description),
        );
        add_line(&mut out, cat2("  - pipelines: ", &join(&t.pipelines, " → ")));
        assert(out.deep_view() =~= prev + f(e[i as int]));
    }
    assert(e.take(n as int) =~= e);
    out
}

} // verus!
