//! `shep validate`: what a config resolved to, where there is no problem with it.

use super::{add_line, add_lines};
use crate::config::model::StepKindModel;
use crate::config::validate::meanings;
use crate::config::{resolved_steps, Pipeline, Policy, Signal, StepKind, TaskType};
use crate::flat::{flat, flat_step};
use crate::text::{
    cat2, cat3, cat4, cat5, copy, join, joined, nat_text, natural, pad, padded,
};
use vstd::prelude::*;

verus! {

/// What is worth saying of a pipeline's loop.
pub open spec fn loop_notes(p: Pipeline) -> Seq<Seq<char>> {
    (match p.on_fail {
        Some(on_fail) => seq![
            "on_fail → "@ + on_fail@ + ", max "@ + nat_text(
                match p.max_rounds {
                    Some(n) => n as nat,
                    None => 0,
                },
            ) + " round(s)"@,
        ],
        None => Seq::empty(),
    }) + (match p.on_exhausted {
        Some(outcome) => seq!["on_exhausted "@ + outcome.word()],
        None => Seq::empty(),
    })
}

/// The notes in brackets, where there are any.
pub open spec fn bracketed(notes: Seq<Seq<char>>) -> Seq<char> {
    if notes.len() == 0 {
        ""@
    } else {
        "  ["@ + joined(notes, "; "@) + "]"@
    }
}

/// What a step waits for, behind it.
pub open spec fn waiting(signal: Option<Seq<char>>) -> Seq<char> {
    match signal {
        Some(s) => "  ⟳ await "@ + s,
        None => ""@,
    }
}

/// The line about a step. The filename is the registration, so showing the file is
/// showing the registration.
pub open spec fn step_line(
    step: Seq<char>,
    kind: Option<StepKindModel>,
    signal: Option<Seq<char>>,
) -> Seq<char> {
    "  "@ + padded(step, 14) + match kind {
        Some(StepKindModel::Script(path)) => " "@ + path + waiting(signal),
        Some(StepKindModel::Pipeline(inner)) => " pipeline "@ + inner + waiting(signal),
        None => " UNRESOLVED"@,
    }
}

pub open spec fn step_lines(policy: Policy, pipeline: Seq<char>) -> spec_fn(
    (Seq<char>, Option<StepKindModel>),
) -> Seq<Seq<char>> {
    |s: (Seq<char>, Option<StepKindModel>)|
        seq![step_line(s.0, s.1, policy.awaited(pipeline, s.0))]
}

/// The lines about a pipeline.
pub open spec fn pipeline_lines(policy: Policy) -> spec_fn((Seq<char>, Pipeline)) -> Seq<
    Seq<char>,
> {
    |e: (Seq<char>, Pipeline)|
        seq!["\npipeline "@ + e.0 + bracketed(loop_notes(e.1))] + flat(
            meanings(policy, e.0),
            step_lines(policy, e.0),
        )
}

pub open spec fn signal_lines() -> spec_fn((Seq<char>, Signal)) -> Seq<Seq<char>> {
    |e: (Seq<char>, Signal)| seq!["  "@ + padded(e.0, 14) + " "@ + e.1.description@]
}

pub open spec fn type_lines() -> spec_fn((Seq<char>, TaskType)) -> Seq<Seq<char>> {
    |e: (Seq<char>, TaskType)|
        seq![
            "\ntype "@ + e.0 + "  "@ + e.1.description@,
            "  "@ + joined(e.1.pipelines.deep_view(), " → "@),
        ]
}

/// What `shep validate` prints of a valid config.
pub open spec fn listing_of(policy: Policy) -> Seq<Seq<char>> {
    seq![policy.path@ + " is valid"@] + flat(policy.pipelines(), pipeline_lines(policy)) + (
    if policy.config.signal.entries().len() > 0 {
        seq!["\nsignals"@] + flat(policy.config.signal.entries(), signal_lines())
    } else {
        Seq::empty()
    }) + flat(policy.config.types.entries(), type_lines())
}

fn notes(p: &Pipeline) -> (r: String)
    ensures
        r@ == bracketed(loop_notes(*p)),
{
    let mut out: Vec<String> = Vec::new();
    assert(out.deep_view() =~= Seq::empty());
    if let Some(on_fail) = &p.on_fail {
        let max: u32 = match p.max_rounds {
            Some(n) => n,
            None => 0,
        };
        add_line(
            &mut out,
            cat5("on_fail → ", on_fail, ", max ", &natural(max as u64), " round(s)"),
        );
    }
    if let Some(outcome) = p.on_exhausted {
        add_line(&mut out, cat2("on_exhausted ", outcome.as_str()));
    }
    assert(out.deep_view() =~= loop_notes(*p));
    if out.len() == 0 {
        copy("")
    } else {
        cat3("  [", &join(&out, "; "), "]")
    }
}

fn step_text(step: &str, kind: &Option<StepKind>, signal: Option<&str>) -> (r: String)
    ensures
        r@ == step_line(
            step@,
            kind.deep_view(),
            match signal {
                Some(s) => Some(s@),
                None => None,
            },
        ),
{
    let wait: String = match signal {
        Some(s) => cat2("  ⟳ await ", s),
        None => copy(""),
    };
    let tail: String = match kind {
        Some(StepKind::Script(path)) => cat3(" ", path, &wait),
        Some(StepKind::Pipeline(inner)) => cat3(" pipeline ", inner, &wait),
        None => copy(" UNRESOLVED"),
    };
    cat3("  ", &pad(step, 14), &tail)
}

fn pipeline_text(policy: &Policy, name: &str, p: &Pipeline) -> (r: Vec<String>)
    ensures
        r.deep_view() == pipeline_lines(*policy)((name@, *p)),
{
    let mut out: Vec<String> = Vec::new();
    assert(out.deep_view() =~= Seq::empty());
    add_line(&mut out, cat3("\npipeline ", name, &notes(p)));
    let ghost head = out.deep_view();
    let steps: Vec<(String, Option<StepKind>)> = resolved_steps(policy, name);
    let ghost all = steps.deep_view();
    let ghost f = step_lines(*policy, name@);
    assert(out.deep_view() =~= head + flat(all.take(0), f));
    for i in 0..steps.len()
        invariant
            all == steps.deep_view(),
            f == step_lines(*policy, name@),
            out.deep_view() == head + flat(all.take(i as int), f),
    {
        proof {
            flat_step(all, f, i as int);
            assert(all[i as int] == (steps@[i as int].0@, steps@[i as int].1.deep_view()));
        }
        let ghost prev = out.deep_view();
        let step: &str = steps[i].0.as_str();
        add_line(&mut out, step_text(step, &steps[i].1, policy.step_await(name, step)));
        assert(out.deep_view() =~= prev + f(all[i as int]));
        assert(out.deep_view() =~= head + flat(all.take(i as int + 1), f));
    }
    assert(all.take(all.len() as int) =~= all);
    assert(head =~= seq!["\npipeline "@ + name@ + bracketed(loop_notes(*p))]);
    out
}

fn all_pipelines(policy: &Policy) -> (r: Vec<String>)
    ensures
        r.deep_view() == flat(policy.pipelines(), pipeline_lines(*policy)),
{
    let mut out: Vec<String> = Vec::new();
    let n: usize = policy.config.pipeline.len();
    let ghost e = policy.pipelines();
    let ghost f = pipeline_lines(*policy);
    assert(out.deep_view() =~= flat(e.take(0), f));
    for i in 0..n
        invariant
            e == policy.pipelines(),
            n == e.len(),
            f == pipeline_lines(*policy),
            out.deep_view() == flat(e.take(i as int), f),
    {
        proof {
            flat_step(e, f, i as int);
        }
        add_lines(
            &mut out,
            pipeline_text(policy, policy.config.pipeline.key(i), policy.config.pipeline.value(i)),
        );
    }
    assert(e.take(n as int) =~= e);
    out
}

fn all_signals(policy: &Policy) -> (r: Vec<String>)
    ensures
        r.deep_view() == flat(policy.config.signal.entries(), signal_lines()),
{
    let mut out: Vec<String> = Vec::new();
    let n: usize = policy.config.signal.len();
    let ghost e = policy.config.signal.entries();
    let ghost f = signal_lines();
    assert(out.deep_view() =~= flat(e.take(0), f));
    for i in 0..n
        invariant
            e == policy.config.signal.entries(),
            n == e.len(),
            f == signal_lines(),
            out.deep_view() == flat(e.take(i as int), f),
    {
        proof {
            flat_step(e, f, i as int);
        }
        let ghost prev = out.deep_view();
        add_line(
            &mut out,
            cat4(
                "  ",
                &pad(policy.config.signal.key(i), 14),
                " ",
                &policy.config.signal.value(i).description,
            ),
        );
        assert(out.deep_view() =~= prev + f(e[i as int]));
    }
    assert(e.take(n as int) =~= e);
    out
}

fn all_types(policy: &Policy) -> (r: Vec<String>)
    ensures
        r.deep_view() == flat(policy.config.types.entries(), type_lines()),
{
    let mut out: Vec<String> = Vec::new();
    let n: usize = policy.config.types.len();
    let ghost e = policy.config.types.entries();
    let ghost f = type_lines();
    assert(out.deep_view() =~= flat(e.take(0), f));
    for i in 0..n
        invariant
            e == policy.config.types.entries(),
            n == e.len(),
            f == type_lines(),
            out.deep_view() == flat(e.take(i as int), f),
    {
        proof {
            flat_step(e, f, i as int);
        }
        let ghost prev = out.deep_view();
        let t: &TaskType = policy.config.types.value(i);
        add_line(
            &mut out,
            cat4("\ntype ", policy.config.types.key(i), "  ", &t.description),
        );
        add_line(&mut out, cat2("  ", &join(&t.pipelines, " → ")));
        assert(out.deep_view() =~= prev + f(e[i as int]));
    }
    assert(e.take(n as int) =~= e);
    out
}

pub fn lines(policy: &Policy) -> (r: Vec<String>)
    ensures
        r.deep_view() == listing_of(*policy),
{
    let mut out: Vec<String> = Vec::new();
    assert(out.deep_view() =~= Seq::empty());
    add_line(&mut out, cat2(&policy.path, " is valid"));
    add_lines(&mut out, all_pipelines(policy));
    if policy.config.signal.len() > 0 {
        add_line(&mut out, copy("\nsignals"));
        add_lines(&mut out, all_signals(policy));
    }
    add_lines(&mut out, all_types(policy));
    assert(out.deep_view() =~= listing_of(*policy));
    out
}

} // verus!
