//! What validation finds, over what the config says.
//!
//! Every broken rule is one problem: none is passed over because of another, and none is
//! made up. A problem says which pipeline or type it is about.

use super::cycles::{
    all_cycle_shapes, closed_by, closed_is_cycle, comes_back, cycle_has_shape, cycle_of, is_cycle,
    is_least, leads, least_exists, rotated,
};
use super::model::{duration, StepKindModel};
use super::validate::{
    await_rules, cycle_problem, cycles, deeper, depth_of, depth_of_step, loop_rules, meanings,
    missing_rules, nested_in_loop, pipeline_problems_of, pipeline_rules, problems_of, repeated,
    repeated_pipeline, repeated_step, round_rules, run_twice, sequence_rules, signal_rules,
    step_rules, timeout_rules, type_problems_of, type_rules, unknown_pipeline,
    unresolved_problems, ProblemModel,
};
use super::{Pipeline, Policy, Step, StepDef, TaskType};
use crate::flat::{flat, flat_has};
use crate::order::{list_order, list_order_is_order, listing_exists};
use crate::outcome::Outcome;
use crate::text::{
    is_blank, mentions, padding_only_adds_blanks, parts_are_mentioned, quoted,
};
use vstd::prelude::*;

verus! {

// ---------------------------------------------------------------------------
// How many
// ---------------------------------------------------------------------------

/// One where a rule is broken.
pub open spec fn one(broken: bool) -> nat {
    if broken {
        1
    } else {
        0
    }
}

/// What each element counts for, taken together.
pub open spec fn total<A>(s: Seq<A>, f: spec_fn(A) -> nat) -> nat
    decreases s.len(),
{
    if s.len() == 0 {
        0
    } else {
        total(s.drop_last(), f) + f(s.last())
    }
}

proof fn flat_len<A, B>(s: Seq<A>, g: spec_fn(A) -> Seq<B>, f: spec_fn(A) -> nat)
    requires
        forall|i: int| 0 <= i < s.len() ==> g(#[trigger] s[i]).len() == f(s[i]),
    ensures
        flat(s, g).len() == total(s, f),
    decreases s.len(),
{
    if s.len() > 0 {
        let d = s.drop_last();
        assert forall|i: int| 0 <= i < d.len() implies g(#[trigger] d[i]).len() == f(d[i]) by {
            assert(d[i] == s[i]);
        }
        flat_len(d, g, f);
        assert(g(s[s.len() - 1]).len() == f(s[s.len() - 1]));
    }
}

/// Does a name stand for nothing: no script, and no pipeline?
pub open spec fn stands_for_nothing(policy: Policy, name: Seq<char>) -> bool {
    policy.script(name) is None && policy.pipeline_called(name) is None
}

/// Does a name stand for a pipeline? A script of the name goes before it.
pub open spec fn stands_for_pipeline(policy: Policy, name: Seq<char>) -> bool {
    policy.script(name) is None && policy.pipeline_called(name) is Some
}

/// Is a signal one that is built in, or declared?
pub open spec fn is_signal(policy: Policy, name: Seq<char>) -> bool {
    name == "agent_stopped"@ || exists|i: int|
        0 <= i < policy.config.signal.entries().len() && (
        #[trigger] policy.config.signal.entries()[i]).0 == name
}

/// How many rules a step's wait breaks.
pub open spec fn wait_faults(policy: Policy, def: StepDef) -> nat {
    one(def.await_on is Some && !is_signal(policy, def.await_on->0@)) + (one(
        def.on_missing is Some && def.await_on is None,
    ) + one(
        def.on_missing is Some && def.await_on is Some && def.await_on->0@ != "agent_stopped"@,
    ) + one(def.on_missing == Some(Outcome::Started))) + (one(
        def.timeout is Some && def.await_on is None,
    ) + one(def.timeout is Some && duration(def.timeout->0@) is None) + one(
        def.on_timeout is Some && def.timeout is None,
    ) + one(def.on_timeout == Some(Outcome::Started)))
}

/// How many rules a step of a pipeline breaks.
pub open spec fn step_faults(policy: Policy, pipeline: Seq<char>, step: Step) -> nat {
    let name = match step {
        Step::Name(name) => name@,
        Step::Spec(def) => def.run@,
    };
    one(stands_for_nothing(policy, name)) + (match step {
        Step::Name(_) => 0,
        Step::Spec(def) => wait_faults(policy, def),
    }) + one(
        name != pipeline && policy.script(name) is Some && policy.pipeline_called(name) is Some,
    )
}

/// How many rules a pipeline breaks by itself.
pub open spec fn pipeline_faults(policy: Policy, name: Seq<char>, p: Pipeline) -> nat {
    let sequence = one(p.steps@.len() == 0) + repeated(p.labels()).len() + total(
        p.steps@,
        |s: Step| step_faults(policy, name, s),
    );
    let rounds = match p.on_fail {
        Some(repair) => one(stands_for_nothing(policy, repair@)) + one(p.max_rounds is None)
            + total(p.all_labels(), |s: Seq<char>| one(stands_for_pipeline(policy, s))),
        None => one(p.max_rounds is Some) + one(p.on_exhausted is Some),
    };
    sequence + rounds + one(p.max_rounds == Some(0u32)) + one(
        p.on_exhausted == Some(Outcome::Started),
    )
}

/// How many rules a type breaks.
pub open spec fn type_faults(policy: Policy, t: TaskType) -> nat {
    let names = t.pipelines.deep_view();
    one(is_blank(t.description@)) + one(names.len() == 0) + run_twice(policy, names).len() + total(
        names,
        |n: Seq<char>| one(policy.pipeline_called(n) is None),
    )
}

/// How many steps of a pipeline run a pipeline that itself runs another.
pub open spec fn depth_faults(policy: Policy, p: Pipeline) -> nat {
    total(
        p.all_labels(),
        |s: Seq<char>|
            one(
                stands_for_pipeline(policy, s) && exists|j: int|
                    0 <= j < policy.pipeline_called(s)->0.steps@.len() && stands_for_pipeline(
                        policy,
                        (#[trigger] policy.pipeline_called(s)->0.steps@[j]).label(),
                    ),
            ),
    )
}

proof fn names_mean(policy: Policy, name: Seq<char>)
    ensures
        policy.meaning(name) is None <==> stands_for_nothing(policy, name),
        policy.nests(name) <==> stands_for_pipeline(policy, name),
        policy.knows_signal(name) <==> is_signal(policy, name),
{
    super::a_script_wins_over_a_pipeline(policy, name);
    super::a_known_signal_is_built_in_or_declared(policy, name);
}

proof fn wait_rules_count(policy: Policy, at: Seq<char>, def: StepDef)
    ensures
        await_rules(policy, at, Step::Spec(def)).len() == wait_faults(policy, def),
{
    let step = Step::Spec(def);
    if def.await_on is Some {
        names_mean(policy, def.await_on->0@);
    }
    assert(signal_rules(policy, at, step).len() == one(
        def.await_on is Some && !is_signal(policy, def.await_on->0@),
    ));
    assert(missing_rules(at, step).len() == one(def.on_missing is Some && def.await_on is None)
        + one(def.on_missing is Some && def.await_on is Some && def.await_on->0@
        != "agent_stopped"@) + one(def.on_missing == Some(Outcome::Started)));
    assert(timeout_rules(at, step).len() == one(def.timeout is Some && def.await_on is None) + one(
        def.timeout is Some && duration(def.timeout->0@) is None,
    ) + one(def.on_timeout is Some && def.timeout is None) + one(
        def.on_timeout == Some(Outcome::Started),
    ));
}

proof fn bare_steps_wait_for_nothing(policy: Policy, at: Seq<char>, name: String)
    ensures
        await_rules(policy, at, Step::Name(name)).len() == 0,
{
    let step = Step::Name(name);
    assert(signal_rules(policy, at, step).len() == 0);
    assert(missing_rules(at, step).len() == 0);
    assert(timeout_rules(at, step).len() == 0);
}

proof fn step_rules_count(policy: Policy, pipeline: Seq<char>, step: Step)
    ensures
        step_rules(policy, pipeline)(step).len() == step_faults(policy, pipeline, step),
{
    let at = "pipeline."@ + pipeline;
    names_mean(policy, step.label());
    match step {
        Step::Name(name) => {
            bare_steps_wait_for_nothing(policy, at, name);
        },
        Step::Spec(def) => {
            wait_rules_count(policy, at, def);
        },
    }
}

proof fn sequence_rules_count(policy: Policy, name: Seq<char>, p: Pipeline)
    ensures
        sequence_rules(policy, name, p).len() == one(p.steps@.len() == 0) + repeated(
            p.labels(),
        ).len() + total(p.steps@, |s: Step| step_faults(policy, name, s)),
{
    let at = "pipeline."@ + name;
    let again = repeated(p.labels());
    flat_len(again, repeated_step(at), |n: Seq<char>| 1nat);
    ones(again);
    let f = |s: Step| step_faults(policy, name, s);
    assert forall|i: int| 0 <= i < p.steps@.len() implies step_rules(policy, name)(
        #[trigger] p.steps@[i],
    ).len() == f(p.steps@[i]) by {
        step_rules_count(policy, name, p.steps@[i]);
    }
    flat_len(p.steps@, step_rules(policy, name), f);
}

proof fn ones<A>(s: Seq<A>)
    ensures
        total(s, |x: A| 1nat) == s.len(),
    decreases s.len(),
{
    if s.len() > 0 {
        ones(s.drop_last());
    }
}

proof fn round_rules_count(policy: Policy, at: Seq<char>, p: Pipeline)
    ensures
        round_rules(policy, at, p).len() == (match p.on_fail {
            Some(repair) => one(stands_for_nothing(policy, repair@)) + one(p.max_rounds is None)
                + total(p.all_labels(), |s: Seq<char>| one(stands_for_pipeline(policy, s))),
            None => one(p.max_rounds is Some) + one(p.on_exhausted is Some),
        }) + one(p.max_rounds == Some(0u32)) + one(p.on_exhausted == Some(Outcome::Started)),
{
    match p.on_fail {
        Some(repair) => {
            names_mean(policy, repair@);
            assert(loop_rules(policy, at, p).len() == one(stands_for_nothing(policy, repair@))
                + one(p.max_rounds is None));
            let f = |s: Seq<char>| one(stands_for_pipeline(policy, s));
            assert forall|i: int| 0 <= i < p.all_labels().len() implies nested_in_loop(policy, at)(
                #[trigger] p.all_labels()[i],
            ).len() == f(p.all_labels()[i]) by {
                names_mean(policy, p.all_labels()[i]);
            }
            flat_len(p.all_labels(), nested_in_loop(policy, at), f);
        },
        None => {
            assert(loop_rules(policy, at, p).len() == one(p.max_rounds is Some) + one(
                p.on_exhausted is Some,
            ));
        },
    }
}

/// A pipeline has as many problems as it breaks rules: each step for itself, and the loop
/// for itself.
pub proof fn a_pipeline_has_a_problem_for_each_fault(policy: Policy, name: Seq<char>, p: Pipeline)
    ensures
        pipeline_problems_of(policy, name, p).len() == pipeline_faults(policy, name, p),
{
    sequence_rules_count(policy, name, p);
    round_rules_count(policy, "pipeline."@ + name, p);
}

/// A type has as many problems as it breaks rules.
pub proof fn a_type_has_a_problem_for_each_fault(policy: Policy, name: Seq<char>, t: TaskType)
    ensures
        type_problems_of(policy, name, t).len() == type_faults(policy, t),
{
    let at = "type."@ + name;
    let names = t.pipelines.deep_view();
    let again = run_twice(policy, names);
    flat_len(again, repeated_pipeline(at), |n: Seq<char>| 1nat);
    ones(again);
    let f = |n: Seq<char>| one(policy.pipeline_called(n) is None);
    assert forall|i: int| 0 <= i < names.len() implies unknown_pipeline(policy, at)(
        #[trigger] names[i],
    ).len() == f(names[i]) by {}
    flat_len(names, unknown_pipeline(policy, at), f);
}

proof fn depth_rules_count(policy: Policy, name: Seq<char>, p: Pipeline)
    ensures
        depth_of(policy)((name, p)).len() == depth_faults(policy, p),
{
    let at = "pipeline."@ + name;
    let all = p.all_labels();
    let f = |s: Seq<char>|
        one(
            stands_for_pipeline(policy, s) && exists|j: int|
                0 <= j < policy.pipeline_called(s)->0.steps@.len() && stands_for_pipeline(
                    policy,
                    (#[trigger] policy.pipeline_called(s)->0.steps@[j]).label(),
                ),
        );
    assert forall|i: int| 0 <= i < all.len() implies depth_of_step(policy, at)(
        #[trigger] all[i],
    ).len() == f(all[i]) by {
        names_mean(policy, all[i]);
        if policy.nests(all[i]) {
            deeper_is_some(policy, all[i]);
        }
    }
    flat_len(all, depth_of_step(policy, at), f);
}

proof fn deeper_is_some(policy: Policy, step: Seq<char>)
    requires
        policy.pipeline_called(step) is Some,
    ensures
        deeper(policy, step).len() > 0 <==> exists|j: int|
            0 <= j < policy.pipeline_called(step)->0.steps@.len() && stands_for_pipeline(
                policy,
                (#[trigger] policy.pipeline_called(step)->0.steps@[j]).label(),
            ),
{
    let p = policy.pipeline_called(step)->0;
    let inner = deeper(policy, step);
    let is = super::validate::nesting(policy);
    if inner.len() > 0 {
        p.labels().lemma_filter_pred(is, 0);
        p.labels().lemma_filter_contains_rev(is, inner[0]);
        let j = p.labels().index_of(inner[0]);
        names_mean(policy, inner[0]);
        assert(p.steps@[j].label() == inner[0]);
    }
    if exists|j: int|
        0 <= j < p.steps@.len() && stands_for_pipeline(policy, (#[trigger] p.steps@[j]).label()) {
        let j = choose|j: int|
            0 <= j < p.steps@.len() && stands_for_pipeline(
                policy,
                (#[trigger] p.steps@[j]).label(),
            );
        names_mean(policy, p.labels()[j]);
        p.labels().lemma_filter_contains(is, j);
        assert(inner.contains(p.labels()[j]));
    }
}

/// A config has as many problems as it breaks rules: that there is a type, those of each
/// pipeline and of each type, each cycle, and, where there is none, each step that goes
/// down more than once.
pub proof fn a_config_has_a_problem_for_each_fault(policy: Policy)
    ensures
        problems_of(policy).len() == one(policy.config.types.entries().len() == 0) + total(
            policy.pipelines(),
            |e: (Seq<char>, Pipeline)| pipeline_faults(policy, e.0, e.1),
        ) + (if cycles(policy).len() > 0 {
            cycles(policy).len()
        } else {
            total(policy.pipelines(), |e: (Seq<char>, Pipeline)| depth_faults(policy, e.1))
        }) + total(
            policy.config.types.entries(),
            |e: (Seq<char>, TaskType)| type_faults(policy, e.1),
        ),
{
    let pipelines = policy.pipelines();
    let types = policy.config.types.entries();
    let f = |e: (Seq<char>, Pipeline)| pipeline_faults(policy, e.0, e.1);
    assert forall|i: int| 0 <= i < pipelines.len() implies pipeline_rules(policy)(
        #[trigger] pipelines[i],
    ).len() == f(pipelines[i]) by {
        a_pipeline_has_a_problem_for_each_fault(policy, pipelines[i].0, pipelines[i].1);
    }
    flat_len(pipelines, pipeline_rules(policy), f);
    let g = |e: (Seq<char>, TaskType)| type_faults(policy, e.1);
    assert forall|i: int| 0 <= i < types.len() implies type_rules(policy)(
        #[trigger] types[i],
    ).len() == g(types[i]) by {
        a_type_has_a_problem_for_each_fault(policy, types[i].0, types[i].1);
    }
    flat_len(types, type_rules(policy), g);
    let round = cycles(policy);
    if round.len() > 0 {
        flat_len(round, cycle_problem(), |c: Seq<Seq<char>>| 1nat);
        ones(round);
    } else {
        let h = |e: (Seq<char>, Pipeline)| depth_faults(policy, e.1);
        assert forall|i: int| 0 <= i < pipelines.len() implies depth_of(policy)(
            #[trigger] pipelines[i],
        ).len() == h(pipelines[i]) by {
            depth_rules_count(policy, pipelines[i].0, pipelines[i].1);
        }
        flat_len(pipelines, depth_of(policy), h);
    }
}

// ---------------------------------------------------------------------------
// Where
// ---------------------------------------------------------------------------

/// Are all of some problems about one place?
pub open spec fn all_at(problems: Seq<ProblemModel>, at: Seq<char>) -> bool {
    forall|i: int| 0 <= i < problems.len() ==> (#[trigger] problems[i]).at == at
}

proof fn flat_all_at<A>(s: Seq<A>, f: spec_fn(A) -> Seq<ProblemModel>, at: Seq<char>)
    requires
        forall|i: int| 0 <= i < s.len() ==> all_at(f(#[trigger] s[i]), at),
    ensures
        all_at(flat(s, f), at),
    decreases s.len(),
{
    if s.len() > 0 {
        let d = s.drop_last();
        assert forall|i: int| 0 <= i < d.len() implies all_at(f(#[trigger] d[i]), at) by {
            assert(d[i] == s[i]);
        }
        flat_all_at(d, f, at);
        assert(all_at(f(s[s.len() - 1]), at));
        both_at(flat(d, f), f(s.last()), at);
    }
}

proof fn both_at(a: Seq<ProblemModel>, b: Seq<ProblemModel>, at: Seq<char>)
    requires
        all_at(a, at),
        all_at(b, at),
    ensures
        all_at(a + b, at),
{
    assert forall|i: int| 0 <= i < (a + b).len() implies (#[trigger] (a + b)[i]).at == at by {
        if i < a.len() {
            assert((a + b)[i] == a[i]);
        } else {
            assert((a + b)[i] == b[i - a.len()]);
        }
    }
}

proof fn step_rules_at(policy: Policy, pipeline: Seq<char>, step: Step)
    ensures
        all_at(step_rules(policy, pipeline)(step), "pipeline."@ + pipeline),
{
    let at = "pipeline."@ + pipeline;
    let missing = missing_rules(at, step);
    let timeout = timeout_rules(at, step);
    let signal = signal_rules(policy, at, step);
    assert(all_at(signal, at));
    assert(all_at(missing, at));
    assert(all_at(timeout, at));
    both_at(signal, missing, at);
    both_at(signal + missing, timeout, at);
    let unresolved = unresolved_problems(policy, at, step.label(), "step"@);
    assert(all_at(unresolved, at));
    both_at(unresolved, await_rules(policy, at, step), at);
}

/// Every problem of a pipeline says that it is that pipeline's.
pub proof fn a_pipelines_problems_name_it(policy: Policy, name: Seq<char>, p: Pipeline)
    ensures
        all_at(pipeline_problems_of(policy, name, p), "pipeline."@ + name),
        all_at(depth_of(policy)((name, p)), "pipeline."@ + name),
{
    let at = "pipeline."@ + name;
    flat_all_at(repeated(p.labels()), repeated_step(at), at);
    assert forall|i: int| 0 <= i < p.steps@.len() implies all_at(
        step_rules(policy, name)(#[trigger] p.steps@[i]),
        at,
    ) by {
        step_rules_at(policy, name, p.steps@[i]);
    }
    flat_all_at(p.steps@, step_rules(policy, name), at);
    flat_all_at(p.all_labels(), nested_in_loop(policy, at), at);
    flat_all_at(p.all_labels(), depth_of_step(policy, at), at);
    let empty = crate::config::validate::when(
        p.steps@.len() == 0,
        super::validate::plain(at, "no steps, so this pipeline does nothing"@),
    );
    both_at(empty, flat(repeated(p.labels()), repeated_step(at)), at);
    both_at(
        empty + flat(repeated(p.labels()), repeated_step(at)),
        flat(p.steps@, step_rules(policy, name)),
        at,
    );
    let loops = loop_rules(policy, at, p);
    assert(all_at(loops, at));
    assert(all_at(round_rules(policy, at, p), at));
    both_at(sequence_rules(policy, name, p), round_rules(policy, at, p), at);
}

/// Every problem of a type says that it is that type's.
pub proof fn a_types_problems_name_it(policy: Policy, name: Seq<char>, t: TaskType)
    ensures
        all_at(type_problems_of(policy, name, t), "type."@ + name),
{
    let at = "type."@ + name;
    let names = t.pipelines.deep_view();
    flat_all_at(run_twice(policy, names), repeated_pipeline(at), at);
    flat_all_at(names, unknown_pipeline(policy, at), at);
}

/// What is wrong with a pipeline or a type is among what is wrong with the config.
pub proof fn every_problem_is_reported(policy: Policy, i: int, x: ProblemModel)
    ensures
        ({
            let pipelines = policy.pipelines();
            let types = policy.config.types.entries();
            &&& 0 <= i < pipelines.len() && pipeline_problems_of(
                policy,
                pipelines[i].0,
                pipelines[i].1,
            ).contains(x) ==> problems_of(policy).contains(x)
            &&& 0 <= i < types.len() && type_problems_of(policy, types[i].0, types[i].1).contains(x)
                ==> problems_of(policy).contains(x)
        }),
{
    let pipelines = policy.pipelines();
    let types = policy.config.types.entries();
    let a = crate::config::validate::when(
        types.len() == 0,
        super::validate::hinted(
            "config"@,
            "no types defined, so nothing can be created"@,
            "a type is what an agent picks: [type.feature] with a description and pipelines"@,
        ),
    );
    let b = flat(pipelines, pipeline_rules(policy));
    let c = super::validate::composition_rules(policy);
    let d = flat(types, type_rules(policy));
    let all = problems_of(policy);
    assert(all == a + b + c + d);
    if 0 <= i < pipelines.len() && pipeline_rules(policy)(pipelines[i]).contains(x) {
        flat_has(pipelines, pipeline_rules(policy), i, x);
        let k = b.index_of(x);
        assert(all[a.len() as int + k] == x);
    }
    if 0 <= i < types.len() && type_rules(policy)(types[i]).contains(x) {
        flat_has(types, type_rules(policy), i, x);
        let k = d.index_of(x);
        assert(all[a.len() as int + b.len() + c.len() + k] == x);
    }
}

/// Do all of some problems mention a text?
pub open spec fn all_mention(problems: Seq<ProblemModel>, x: Seq<char>) -> bool {
    forall|i: int| 0 <= i < problems.len() ==> mentions((#[trigger] problems[i]).message, x)
}

proof fn both_mention(a: Seq<ProblemModel>, b: Seq<ProblemModel>, x: Seq<char>)
    requires
        all_mention(a, x),
        all_mention(b, x),
    ensures
        all_mention(a + b, x),
{
    assert forall|i: int| 0 <= i < (a + b).len() implies mentions(
        (#[trigger] (a + b)[i]).message,
        x,
    ) by {
        if i < a.len() {
            assert((a + b)[i] == a[i]);
        } else {
            assert((a + b)[i] == b[i - a.len()]);
        }
    }
}

proof fn missing_rules_mention(at: Seq<char>, step: Step)
    ensures
        all_mention(missing_rules(at, step), quoted(step.label())),
{
    let x = quoted(step.label());
    parts_are_mentioned("step "@, x, " sets on_missing but not await"@);
    parts_are_mentioned("step "@, x, " sets on_missing but does not await \"agent_stopped\""@);
    parts_are_mentioned("step "@, x, " on_missing = \"started\" is not a settled outcome"@);
}

proof fn timeout_rules_mention(at: Seq<char>, step: Step)
    ensures
        all_mention(timeout_rules(at, step), quoted(step.label())),
{
    let x = quoted(step.label());
    parts_are_mentioned("step "@, x, " sets timeout but not await"@);
    parts_are_mentioned("step "@, x, " sets on_timeout but not timeout"@);
    parts_are_mentioned("step "@, x, " on_timeout = \"started\" is not a settled outcome"@);
    if step.wait() is Some {
        let a = " has an unreadable timeout "@;
        let b = quoted(step.wait()->0);
        parts_are_mentioned("step "@, x, a + b);
        assert("step "@ + x + (a + b) =~= "step "@ + x + a + b);
    }
}

proof fn signal_rules_mention(policy: Policy, at: Seq<char>, step: Step)
    ensures
        all_mention(signal_rules(policy, at, step), quoted(step.label())),
{
    let x = quoted(step.label());
    if step.awaited() is Some {
        let a = " awaits unknown signal "@;
        let b = quoted(step.awaited()->0);
        parts_are_mentioned("step "@, x, a + b);
        assert("step "@ + x + (a + b) =~= "step "@ + x + a + b);
    }
}

/// Every problem of a step names the step.
pub proof fn a_steps_problems_name_it(policy: Policy, pipeline: Seq<char>, step: Step)
    ensures
        all_mention(step_rules(policy, pipeline)(step), quoted(step.label())),
{
    let at = "pipeline."@ + pipeline;
    let x = quoted(step.label());
    signal_rules_mention(policy, at, step);
    missing_rules_mention(at, step);
    timeout_rules_mention(at, step);
    let signal = signal_rules(policy, at, step);
    let missing = missing_rules(at, step);
    both_mention(signal, missing, x);
    both_mention(signal + missing, timeout_rules(at, step), x);
    let unresolved = unresolved_problems(policy, at, step.label(), "step"@);
    let tail = " is neither a pipeline nor a runnable script"@;
    parts_are_mentioned("step"@ + " "@, x, tail);
    assert(all_mention(unresolved, x));
    both_mention(unresolved, await_rules(policy, at, step), x);
    let a = " names a pipeline, but the script "@;
    let b = policy.script(step.label())->0;
    let c = " shadows it"@;
    parts_are_mentioned("step "@, x, a + b + c);
    assert("step "@ + x + (a + b + c) =~= "step "@ + x + a + b + c);
    let all = step_rules(policy, pipeline)(step);
    let front = unresolved + await_rules(policy, at, step);
    assert forall|i: int| 0 <= i < all.len() implies mentions((#[trigger] all[i]).message, x) by {
        if i < front.len() {
            assert(all[i] == front[i]);
        }
    }
}

/// What is printed of a problem says where it is, what it is, and what to do about it.
pub proof fn a_problem_is_printed_in_full(p: ProblemModel)
    ensures
        ({
            let line = super::validate::problem_lines()(p);
            &&& mentions(line, p.at)
            &&& mentions(line, p.message)
            &&& p.hint is Some ==> mentions(line, p.hint->0)
        }),
{
    let line = super::validate::problem_lines()(p);
    let hint = match p.hint {
        Some(hint) => "\n    "@ + hint,
        None => Seq::empty(),
    };
    let a = "\n  "@;
    let b = ": "@;
    parts_are_mentioned(a, p.at, b + p.message + hint);
    assert(a + p.at + (b + p.message + hint) =~= line);
    parts_are_mentioned(a + p.at + b, p.message, hint);
    assert(a + p.at + b + p.message + hint =~= line);
    if p.hint is Some {
        let none = Seq::<char>::empty();
        let front = a + p.at + b + p.message + "\n    "@;
        parts_are_mentioned(front, p.hint->0, none);
        assert(front + p.hint->0 =~= line);
    }
}

// ---------------------------------------------------------------------------
// Round and round
// ---------------------------------------------------------------------------

/// Does a pipeline run another as one of its steps, the repair step included?
pub open spec fn runs_as_step(policy: Policy, outer: Seq<char>, inner: Seq<char>) -> bool {
    &&& policy.pipeline_called(outer) is Some
    &&& stands_for_pipeline(policy, inner)
    &&& policy.pipeline_called(outer)->0.labels().contains(inner) || policy.pipeline_called(
        outer,
    )->0.on_fail.deep_view() == Some(inner)
}

/// Pipelines that run each other round and round are reported as a cycle of just those.
pub proof fn going_round_is_reported(policy: Policy, w: Seq<Seq<char>>)
    requires
        w.len() >= 2,
        w[0] == w.last(),
        w.drop_last().no_duplicates(),
        forall|i: int| 0 <= i < w.len() - 1 ==> runs_as_step(policy, #[trigger] w[i], w[i + 1]),
    ensures
        exists|c: Seq<Seq<char>>| #[trigger]
            cycles(policy).contains(c) && forall|x: Seq<char>| c.contains(x) <==> w.contains(x),
{
    assert forall|i: int| 0 <= i < w.len() - 1 implies leads(policy, #[trigger] w[i], w[i + 1]) by {
        assert(runs_as_step(policy, w[i], w[i + 1]));
        names_mean(policy, w[i + 1]);
        let p = policy.pipeline_called(w[i])->0;
        if p.labels().contains(w[i + 1]) {
            let k = p.labels().index_of(w[i + 1]);
            assert(p.all_labels()[k] == w[i + 1]);
        } else {
            assert(p.all_labels()[p.labels().len() as int] == w[i + 1]);
        }
    }
    let body = w.drop_last();
    assert(body[0] == w.last());
    assert(comes_back(policy, w));
    closed_is_cycle(policy, w);
    let s = body.index_of(w.last());
    assert(body[s] == body[0]);
    assert(s == 0);
    let turned = closed_by(w);
    assert(turned =~= body);
    let c = crate::config::cycles::reported(turned);
    every_cycle_is_listed(policy, c);
    let m = choose|m: int| is_least(turned, m);
    least_exists(turned);
    let r = rotated(turned, m);
    assert forall|x: Seq<char>| c.contains(x) <==> w.contains(x) by {
        if c.contains(x) {
            let i = c.index_of(x);
            let j = if i == r.len() {
                0
            } else {
                i
            };
            assert(r[j] == x);
            if j < turned.len() - m {
                assert(w[j + m] == x);
            } else {
                assert(w[j - (turned.len() - m)] == x);
            }
        }
        if w.contains(x) {
            let i = w.index_of(x);
            let j = if i == body.len() {
                0
            } else {
                i
            };
            assert(body[j] == x);
            if j >= m {
                assert(c[j - m] == x);
            } else {
                assert(c[turned.len() - m + j] == x);
            }
        }
    }
}

proof fn every_cycle_is_listed(policy: Policy, c: Seq<Seq<char>>)
    requires
        is_cycle(policy, c),
    ensures
        cycles(policy).contains(c),
{
    list_order_is_order();
    let pool = all_cycle_shapes(policy);
    assert forall|d: Seq<Seq<char>>| #[trigger] cycle_of(policy)(d) implies pool.contains(d) by {
        cycle_has_shape(policy, d);
    }
    listing_exists(pool, list_order(), cycle_of(policy));
    assert(cycles(policy).contains(c) <==> cycle_of(policy)(c));
}

/// Each step of a pipeline is shown with what it means, in order; a pipeline that there is
/// not has none.
pub proof fn each_step_is_shown_with_its_meaning(policy: Policy, pipeline: Seq<char>, i: int)
    ensures
        policy.pipeline_called(pipeline) is None ==> meanings(policy, pipeline).len() == 0,
        policy.pipeline_called(pipeline) is Some ==> meanings(policy, pipeline).len()
            == policy.pipeline_called(pipeline)->0.steps@.len(),
        ({
            let p = policy.pipeline_called(pipeline)->0;
            policy.pipeline_called(pipeline) is Some && 0 <= i < p.steps@.len() ==> {
                let (name, meaning) = meanings(policy, pipeline)[i];
                &&& name == p.labels()[i]
                &&& meaning is None <==> stands_for_nothing(policy, name)
                &&& stands_for_pipeline(policy, name) ==> meaning == Some(
                    StepKindModel::Pipeline(name),
                )
                &&& policy.script(name) is Some ==> meaning == Some(
                    StepKindModel::Script(policy.script(name)->0),
                )
            }
        }),
{
    if policy.pipeline_called(pipeline) is Some {
        let p = policy.pipeline_called(pipeline)->0;
        if 0 <= i < p.steps@.len() {
            names_mean(policy, p.labels()[i]);
        }
    }
}

/// A menu has every type on it, with what it is for, in the order of the names.
pub proof fn each_type_is_on_the_menu(types: Seq<(Seq<char>, TaskType)>, e: (Seq<char>, TaskType))
    ensures
        super::menu_lines(Seq::empty()).len() == 0,
        super::menu_lines(types.push(e)) == super::menu_lines(types) + super::menu_line(e.0, e.1),
        mentions(super::menu_line(e.0, e.1), e.0),
        mentions(super::menu_line(e.0, e.1), e.1.description@),
{
    let none = Seq::<char>::empty();
    assert(types.push(e).drop_last() =~= types);
    let a = "\n  "@;
    let rest = super::menu_line(e.0, e.1).skip((a + e.0).len() as int);
    padding_only_adds_blanks(e.0, 12);
    let wide = crate::text::padded(e.0, 12);
    assert(wide.take(e.0.len() as int) =~= e.0);
    parts_are_mentioned(a, e.0, rest);
    assert(a + e.0 + rest =~= super::menu_line(e.0, e.1)) by {
        assert(super::menu_line(e.0, e.1) =~= a + wide + " "@ + e.1.description@);
        assert((a + wide).take((a + e.0).len() as int) =~= a + e.0);
    }
    parts_are_mentioned(a + wide + " "@, e.1.description@, none);
}

} // verus!
