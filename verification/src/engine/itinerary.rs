//! The places a task goes through.
//!
//! A plan names pipelines, and a step of one may itself be a pipeline. Written out, a
//! plan is a list of places: a script, and the pipeline that runs it. A task goes
//! through them in order, but for the rounds of a pipeline that loops.

use super::plan::{
    after_top, carried, composes, entered, entering_goes_down_once, enters, fails, goes_to, leaves,
    moved, nested_steps_are_scripts, parent, parent_place, passes, passing_never_parks,
    plan_is_known, proceeds, rejections_are_bounded, starts, valid_pipeline, well_placed,
    PlanModel,
};
use crate::config::model::is_called;
use crate::config::validate::{
    composed, is_valid, nesting, nests_scripts, step_is_sound, type_is_sound, with_nested,
};
use crate::config::{Pipeline, Policy, Step};
use crate::db::task::TaskModel;
use crate::flat::{ahead, flat, flat_ahead, flat_at, flat_comes_from_one, flat_where};
use crate::outcome::Outcome;
use crate::table::{
    first_index, first_index_absent, first_index_found, first_index_is_first, key_index,
    lookup_some,
};
use crate::text::is_name;
use vstd::prelude::*;

verus! {

/// The places of a pipeline that runs only scripts: its steps in order.
pub open spec fn stops(policy: Policy, name: Seq<char>) -> Seq<(Seq<char>, Seq<char>)> {
    let labels = policy.pipeline_called(name)->0.labels();
    Seq::new(labels.len(), |i: int| (name, labels[i]))
}

/// The places of a step: those of the pipeline that it runs, or the step itself.
pub open spec fn run_of(policy: Policy, outer: Seq<char>) -> spec_fn(Step) -> Seq<
    (Seq<char>, Seq<char>),
> {
    |step: Step|
        if policy.nests(step.label()) {
            stops(policy, step.label())
        } else {
            seq![(outer, step.label())]
        }
}

/// The places of a pipeline: those of its steps, one after the other.
pub open spec fn tour(policy: Policy) -> spec_fn(Seq<char>) -> Seq<(Seq<char>, Seq<char>)> {
    |name: Seq<char>|
        match policy.pipeline_called(name) {
            Some(p) => flat(p.steps@, run_of(policy, name)),
            None => Seq::empty(),
        }
}

/// The places of a plan: those of its pipelines, one after the other.
pub open spec fn itinerary(policy: Policy, plan: Seq<Seq<char>>) -> Seq<(Seq<char>, Seq<char>)> {
    flat(plan, tour(policy))
}

// ---------------------------------------------------------------------------
// Where a place is
// ---------------------------------------------------------------------------

/// The steps of a pipeline of a plan.
spec fn steps_at(policy: Policy, plan: Seq<Seq<char>>, k: int) -> Seq<Step> {
    policy.pipeline_called(plan[k])->0.steps@
}

/// The places of a step of a pipeline of a plan.
spec fn run_at(policy: Policy, plan: Seq<Seq<char>>, k: int, j: int) -> Seq<
    (Seq<char>, Seq<char>),
> {
    run_of(policy, plan[k])(steps_at(policy, plan, k)[j])
}

/// Is there such a pipeline in the plan, such a step in it, and such a place of it?
spec fn there_is(policy: Policy, plan: Seq<Seq<char>>, k: int, j: int, q: int) -> bool {
    &&& 0 <= k < plan.len()
    &&& 0 <= j < steps_at(policy, plan, k).len()
    &&& 0 <= q < run_at(policy, plan, k, j).len()
}

/// How far along the plan a place of a step of one of its pipelines is.
spec fn spot(policy: Policy, plan: Seq<Seq<char>>, k: int, j: int, q: int) -> int {
    ahead(plan, tour(policy), k) + ahead(
        steps_at(policy, plan, k),
        run_of(policy, plan[k]),
        j,
    ) + q
}

proof fn spot_holds(policy: Policy, plan: Seq<Seq<char>>, k: int, j: int, q: int)
    requires
        plan_is_known(policy, plan),
        there_is(policy, plan, k, j, q),
    ensures
        0 <= spot(policy, plan, k, j, q) < itinerary(policy, plan).len(),
        itinerary(policy, plan)[spot(policy, plan, k, j, q)] == run_at(policy, plan, k, j)[q],
{
    assert(policy.pipeline_called(plan[k]) is Some);
    let steps = steps_at(policy, plan, k);
    let f = run_of(policy, plan[k]);
    flat_at(steps, f, j, q);
    flat_at(plan, tour(policy), k, ahead(steps, f, j) + q);
}

proof fn spot_found(policy: Policy, plan: Seq<Seq<char>>, i: int) -> (r: (int, int, int))
    requires
        plan_is_known(policy, plan),
        0 <= i < itinerary(policy, plan).len(),
    ensures
        there_is(policy, plan, r.0, r.1, r.2),
        i == spot(policy, plan, r.0, r.1, r.2),
{
    let (k, m) = flat_where(plan, tour(policy), i);
    assert(policy.pipeline_called(plan[k]) is Some);
    let (j, q) = flat_where(steps_at(policy, plan, k), run_of(policy, plan[k]), m);
    (k, j, q)
}

/// A place is in one pipeline of the plan, and at one step of it.
proof fn one_spot(
    policy: Policy,
    plan: Seq<Seq<char>>,
    k: int,
    j: int,
    q: int,
    l: int,
    m: int,
    n: int,
)
    requires
        plan_is_known(policy, plan),
        itinerary(policy, plan).no_duplicates(),
        there_is(policy, plan, k, j, q),
        there_is(policy, plan, l, m, n),
        run_at(policy, plan, k, j)[q] == run_at(policy, plan, l, m)[n],
    ensures
        k == l,
        j == m,
        q == n,
{
    spot_holds(policy, plan, k, j, q);
    spot_holds(policy, plan, l, m, n);
    assert(policy.pipeline_called(plan[k]) is Some);
    assert(policy.pipeline_called(plan[l]) is Some);
    let f = run_of(policy, plan[k]);
    let g = run_of(policy, plan[l]);
    flat_at(steps_at(policy, plan, k), f, j, q);
    flat_at(steps_at(policy, plan, l), g, m, n);
    let a = ahead(steps_at(policy, plan, k), f, j) + q;
    let b = ahead(steps_at(policy, plan, l), g, m) + n;
    flat_comes_from_one(plan, tour(policy), k, a, l, b);
    flat_comes_from_one(steps_at(policy, plan, k), f, j, q, m, n);
}

/// What comes after a place: the next of the same step, the first of the next step, the
/// first of the next pipeline, or nothing.
proof fn next_spot(policy: Policy, plan: Seq<Seq<char>>, k: int, j: int, q: int)
    requires
        plan_is_known(policy, plan),
        there_is(policy, plan, k, j, q),
    ensures
        ({
            let here = spot(policy, plan, k, j, q);
            if q + 1 < run_at(policy, plan, k, j).len() {
                spot(policy, plan, k, j, q + 1) == here + 1
            } else if j + 1 < steps_at(policy, plan, k).len() {
                spot(policy, plan, k, j + 1, 0) == here + 1
            } else if k + 1 < plan.len() {
                steps_at(policy, plan, k + 1).len() > 0 ==> spot(policy, plan, k + 1, 0, 0) == here
                    + 1
            } else {
                here + 1 == itinerary(policy, plan).len()
            }
        }),
{
    assert(policy.pipeline_called(plan[k]) is Some);
    flat_ahead(steps_at(policy, plan, k), run_of(policy, plan[k]), j);
    flat_ahead(plan, tour(policy), k);
    if k + 1 < plan.len() && steps_at(policy, plan, k + 1).len() > 0 {
        flat_ahead(steps_at(policy, plan, k + 1), run_of(policy, plan[k + 1]), 0);
    }
}

// ---------------------------------------------------------------------------
// What a valid config adds
// ---------------------------------------------------------------------------

/// A pipeline that another runs as a step runs only scripts in sequence.
proof fn nested_is_flat(policy: Policy, outer: Seq<char>, j: int, q: int)
    requires
        is_valid(policy),
        policy.pipeline_called(outer) is Some,
        0 <= j < policy.pipeline_called(outer)->0.steps@.len(),
        policy.nests(policy.pipeline_called(outer)->0.steps@[j].label()),
        0 <= q < stops(policy, policy.pipeline_called(outer)->0.steps@[j].label()).len(),
    ensures
        !policy.nests(
            stops(policy, policy.pipeline_called(outer)->0.steps@[j].label())[q].1,
        ),
{
    valid_pipeline(policy, outer);
    let o = policy.pipeline_called(outer)->0;
    assert(o.all_labels()[j] == o.steps@[j].label());
    assert(!policy.nests(policy.pipeline_called(o.all_labels()[j])->0.labels()[q]));
}

/// Every step of a pipeline of the plan has a place.
proof fn step_has_place(policy: Policy, plan: Seq<Seq<char>>, k: int, j: int)
    requires
        is_valid(policy),
        plan_is_known(policy, plan),
        0 <= k < plan.len(),
        0 <= j < steps_at(policy, plan, k).len(),
    ensures
        there_is(policy, plan, k, j, 0),
{
    assert(policy.pipeline_called(plan[k]) is Some);
    let label = steps_at(policy, plan, k)[j].label();
    if policy.nests(label) {
        valid_pipeline(policy, label);
    }
}

/// Every pipeline of the plan has a place.
proof fn pipeline_has_place(policy: Policy, plan: Seq<Seq<char>>, k: int)
    requires
        is_valid(policy),
        plan_is_known(policy, plan),
        0 <= k < plan.len(),
    ensures
        there_is(policy, plan, k, 0, 0),
{
    assert(policy.pipeline_called(plan[k]) is Some);
    valid_pipeline(policy, plan[k]);
    step_has_place(policy, plan, k, 0);
}

/// A plan none of whose places comes twice names no pipeline twice.
proof fn named_once(policy: Policy, plan: Seq<Seq<char>>, k: int, l: int)
    requires
        is_valid(policy),
        plan_is_known(policy, plan),
        itinerary(policy, plan).no_duplicates(),
        0 <= k < plan.len(),
        0 <= l < plan.len(),
        plan[k] == plan[l],
    ensures
        k == l,
{
    pipeline_has_place(policy, plan, k);
    one_spot(policy, plan, k, 0, 0, l, 0, 0);
}

/// Nor does it run one as a step twice.
proof fn nested_once(policy: Policy, plan: Seq<Seq<char>>, k: int, j: int, l: int, m: int)
    requires
        is_valid(policy),
        plan_is_known(policy, plan),
        itinerary(policy, plan).no_duplicates(),
        0 <= k < plan.len(),
        0 <= l < plan.len(),
        0 <= j < steps_at(policy, plan, k).len(),
        0 <= m < steps_at(policy, plan, l).len(),
        steps_at(policy, plan, k)[j].label() == steps_at(policy, plan, l)[m].label(),
        policy.nests(steps_at(policy, plan, k)[j].label()),
    ensures
        k == l,
        j == m,
{
    step_has_place(policy, plan, k, j);
    one_spot(policy, plan, k, j, 0, l, m, 0);
}

/// Nor one that it names.
proof fn nested_is_not_named(policy: Policy, plan: Seq<Seq<char>>, k: int, j: int, l: int)
    requires
        is_valid(policy),
        plan_is_known(policy, plan),
        itinerary(policy, plan).no_duplicates(),
        0 <= k < plan.len(),
        0 <= j < steps_at(policy, plan, k).len(),
        policy.nests(steps_at(policy, plan, k)[j].label()),
        0 <= l < plan.len(),
    ensures
        plan[l] != steps_at(policy, plan, k)[j].label(),
{
    let name = steps_at(policy, plan, k)[j].label();
    if plan[l] == name {
        assert(policy.pipeline_called(plan[k]) is Some);
        step_has_place(policy, plan, k, j);
        pipeline_has_place(policy, plan, l);
        nested_is_flat(policy, plan[k], j, 0);
        assert(stops(policy, name)[0].1 == steps_at(policy, plan, l)[0].label());
        one_spot(policy, plan, k, j, 0, l, 0, 0);
        nested_is_flat(policy, plan[k], j, j);
    }
}

/// A step has one place in its pipeline.
proof fn placed_at(p: Pipeline, j: int)
    requires
        p.labels().no_duplicates(),
        0 <= j < p.steps@.len(),
    ensures
        p.place(p.steps@[j].label()) == Some(j),
{
    let name = p.steps@[j].label();
    assert forall|i: int| 0 <= i < j implies !is_called(name)(#[trigger] p.steps@[i]) by {
        assert(p.labels()[i] != p.labels()[j]);
    }
    first_index_found(p.steps@, is_called(name), j);
}

/// A place that a plan runs.
pub open spec fn runs_at(next: PlanModel, place: (Seq<char>, Seq<char>)) -> bool {
    next is Run && (next->pipeline, next->step) == place
}

/// What comes after a place of a plan: the next one, and rest after the last.
pub open spec fn follows(
    policy: Policy,
    plan: Seq<Seq<char>>,
    i: int,
    next: PlanModel,
) -> bool {
    let places = itinerary(policy, plan);
    &&& i + 1 == places.len() ==> next is Rest
    &&& i + 1 < places.len() ==> runs_at(next, places[i + 1])
}

/// Is a task at this place of a plan that goes through each place once?
pub open spec fn on_its_way(policy: Policy, t: TaskModel, i: int) -> bool {
    let places = itinerary(policy, t.plan);
    &&& is_valid(policy)
    &&& plan_is_known(policy, t.plan)
    &&& places.no_duplicates()
    &&& 0 <= i < places.len()
    &&& t.pipeline == Some(places[i].0)
    &&& t.step == Some(places[i].1)
}

/// Entering a pipeline goes to the first of its places.
proof fn entering_is_first(policy: Policy, t: TaskModel, name: Seq<char>)
    requires
        is_valid(policy),
        policy.pipeline_called(name) is Some,
    ensures
        policy.pipeline_called(name)->0.steps@.len() > 0,
        run_of(policy, name)(policy.pipeline_called(name)->0.steps@[0]).len() > 0,
        runs_at(
            enters(policy, t, name),
            run_of(policy, name)(policy.pipeline_called(name)->0.steps@[0])[0],
        ),
{
    valid_pipeline(policy, name);
    entering_goes_down_once(policy, name);
    let at = entered(policy, name);
    valid_pipeline(policy, at);
    let q = policy.pipeline_called(at)->0;
    assert(q.labels()[0] == q.steps@[0].label());
    assert(step_is_sound(policy, at, q.steps@[0]));
}

/// Going to a step goes to the first of its places.
proof fn stepping_is_first(policy: Policy, t: TaskModel, outer: Seq<char>, j: int, round: i64)
    requires
        is_valid(policy),
        policy.pipeline_called(outer) is Some,
        0 <= j < policy.pipeline_called(outer)->0.steps@.len(),
    ensures
        runs_at(
            goes_to(policy, t, outer, policy.pipeline_called(outer)->0.steps@[j].label(), round),
            run_of(policy, outer)(policy.pipeline_called(outer)->0.steps@[j])[0],
        ),
{
    valid_pipeline(policy, outer);
    let o = policy.pipeline_called(outer)->0;
    let label = o.steps@[j].label();
    assert(step_is_sound(policy, outer, o.steps@[j]));
    if policy.nests(label) {
        let n = policy.pipeline_called(label)->0;
        entering_is_first(policy, t, label);
        nested_is_flat(policy, outer, j, 0);
        assert(n.labels()[0] == n.steps@[0].label());
    }
}

/// Passing the last step of a pipeline of the plan goes to the first place of the next.
proof fn leaving_the_top(policy: Policy, t: TaskModel, k: int)
    requires
        is_valid(policy),
        plan_is_known(policy, t.plan),
        itinerary(policy, t.plan).no_duplicates(),
        0 <= k < t.plan.len(),
    ensures
        first_index(t.plan, is_name(t.plan[k])) == Some(k),
        k + 1 == t.plan.len() ==> after_top(policy, t, k) is Rest,
        k + 1 < t.plan.len() ==> there_is(policy, t.plan, k + 1, 0, 0) && runs_at(
            after_top(policy, t, k),
            run_at(policy, t.plan, k + 1, 0)[0],
        ),
{
    let name = t.plan[k];
    assert forall|l: int| 0 <= l < k implies !is_name(name)(#[trigger] t.plan[l]) by {
        if t.plan[l] == name {
            named_once(policy, t.plan, k, l);
        }
    }
    first_index_found(t.plan, is_name(name), k);
    if k + 1 < t.plan.len() {
        assert(policy.pipeline_called(t.plan[k + 1]) is Some);
        entering_is_first(policy, t, t.plan[k + 1]);
    }
}

/// The pipeline of the plan that runs one as a step, and the step.
proof fn composed_at(policy: Policy, plan: Seq<Seq<char>>, k: int, j: int)
    requires
        is_valid(policy),
        plan_is_known(policy, plan),
        itinerary(policy, plan).no_duplicates(),
        0 <= k < plan.len(),
        0 <= j < steps_at(policy, plan, k).len(),
        policy.nests(steps_at(policy, plan, k)[j].label()),
    ensures
        first_index(plan, is_name(steps_at(policy, plan, k)[j].label())) is None,
        parent(policy, plan, steps_at(policy, plan, k)[j].label()) == Some(plan[k]),
        policy.pipeline_called(plan[k])->0.place(steps_at(policy, plan, k)[j].label()) == Some(j),
{
    let name = steps_at(policy, plan, k)[j].label();
    assert(policy.pipeline_called(plan[k]) is Some);
    valid_pipeline(policy, plan[k]);
    placed_at(policy.pipeline_called(plan[k])->0, j);
    assert forall|l: int| 0 <= l < plan.len() implies !is_name(name)(#[trigger] plan[l]) by {
        nested_is_not_named(policy, plan, k, j, l);
    }
    first_index_absent(plan, is_name(name));
    assert forall|l: int| 0 <= l < k implies !composes(policy, name)(#[trigger] plan[l]) by {
        if composes(policy, name)(plan[l]) {
            let p = policy.pipeline_called(plan[l])->0;
            first_index_is_first(p.steps@, is_called(name));
            nested_once(policy, plan, k, j, l, p.place(name)->0);
        }
    }
    first_index_found(plan, composes(policy, name), k);
}

/// Passing a step of a pipeline of the plan goes to the next place.
proof fn passing_a_step(policy: Policy, t: TaskModel, k: int, j: int, q: int)
    requires
        is_valid(policy),
        plan_is_known(policy, t.plan),
        itinerary(policy, t.plan).no_duplicates(),
        there_is(policy, t.plan, k, j, q),
        !policy.nests(steps_at(policy, t.plan, k)[j].label()),
        t.pipeline == Some(t.plan[k]),
        t.step == Some(steps_at(policy, t.plan, k)[j].label()),
    ensures
        follows(policy, t.plan, spot(policy, t.plan, k, j, q), passes(policy, t)),
{
    let outer = t.plan[k];
    assert(policy.pipeline_called(outer) is Some);
    let o = policy.pipeline_called(outer)->0;
    valid_pipeline(policy, outer);
    placed_at(o, j);
    next_spot(policy, t.plan, k, j, q);
    if j + 1 < o.steps@.len() {
        stepping_is_first(policy, t, outer, j + 1, carried(t, outer));
        step_has_place(policy, t.plan, k, j + 1);
        spot_holds(policy, t.plan, k, j + 1, 0);
    } else {
        leaving_the_top(policy, t, k);
        if k + 1 < t.plan.len() {
            spot_holds(policy, t.plan, k + 1, 0, 0);
        }
    }
}

/// Passing a step of a pipeline that runs as a step goes to the next place.
proof fn passing_a_nested_step(policy: Policy, t: TaskModel, k: int, j: int, q: int)
    requires
        is_valid(policy),
        plan_is_known(policy, t.plan),
        itinerary(policy, t.plan).no_duplicates(),
        there_is(policy, t.plan, k, j, q),
        policy.nests(steps_at(policy, t.plan, k)[j].label()),
        t.pipeline == Some(run_at(policy, t.plan, k, j)[q].0),
        t.step == Some(run_at(policy, t.plan, k, j)[q].1),
    ensures
        follows(policy, t.plan, spot(policy, t.plan, k, j, q), passes(policy, t)),
{
    let outer = t.plan[k];
    assert(policy.pipeline_called(outer) is Some);
    let o = policy.pipeline_called(outer)->0;
    let name = o.steps@[j].label();
    let n = policy.pipeline_called(name)->0;
    valid_pipeline(policy, name);
    placed_at(n, q);
    assert(n.labels()[q] == n.steps@[q].label());
    next_spot(policy, t.plan, k, j, q);
    if q + 1 < n.steps@.len() {
        stepping_is_first(policy, t, name, q + 1, carried(t, name));
        nested_is_flat(policy, outer, j, q + 1);
        spot_holds(policy, t.plan, k, j, q + 1);
    } else {
        composed_at(policy, t.plan, k, j);
        if j + 1 < o.steps@.len() {
            stepping_is_first(policy, t, outer, j + 1, carried(t, outer));
            step_has_place(policy, t.plan, k, j + 1);
            spot_holds(policy, t.plan, k, j + 1, 0);
        } else {
            leaving_the_top(policy, t, k);
            if k + 1 < t.plan.len() {
                spot_holds(policy, t.plan, k + 1, 0, 0);
            }
        }
    }
}

// ---------------------------------------------------------------------------
// The order
// ---------------------------------------------------------------------------

/// A task starts at the first place of its plan.
pub proof fn a_task_starts_at_the_first_place(policy: Policy, t: TaskModel)
    requires
        is_valid(policy),
        plan_is_known(policy, t.plan),
        t.plan.len() > 0,
    ensures
        itinerary(policy, t.plan).len() > 0,
        runs_at(starts(policy, t), itinerary(policy, t.plan)[0]),
{
    assert(policy.pipeline_called(t.plan[0]) is Some);
    entering_is_first(policy, t, t.plan[0]);
    spot_holds(policy, t.plan, 0, 0, 0);
    flat_ahead(t.plan, tour(policy), 0);
    flat_ahead(steps_at(policy, t.plan, 0), run_of(policy, t.plan[0]), 0);
}

/// A pass at a place of the plan goes to the place after it, and one at the last place
/// brings the task to rest.
pub proof fn a_pass_goes_to_the_next_place(policy: Policy, t: TaskModel, i: int)
    requires
        is_valid(policy),
        plan_is_known(policy, t.plan),
        itinerary(policy, t.plan).no_duplicates(),
        0 <= i < itinerary(policy, t.plan).len(),
        t.pipeline == Some(itinerary(policy, t.plan)[i].0),
        t.step == Some(itinerary(policy, t.plan)[i].1),
    ensures
        i + 1 == itinerary(policy, t.plan).len() ==> passes(policy, t) is Rest,
        i + 1 < itinerary(policy, t.plan).len() ==> passes(policy, t) is Run && (
            passes(policy, t)->pipeline,
            passes(policy, t)->step,
        ) == itinerary(policy, t.plan)[i + 1],
{
    let (k, j, q) = spot_found(policy, t.plan, i);
    spot_holds(policy, t.plan, k, j, q);
    if policy.nests(steps_at(policy, t.plan, k)[j].label()) {
        passing_a_nested_step(policy, t, k, j, q);
    } else {
        passing_a_step(policy, t, k, j, q);
    }
}

// ---------------------------------------------------------------------------
// The plan of a type
// ---------------------------------------------------------------------------

/// The pipeline of a place among those that the plan runs: the first that a pipeline of
/// the plan brings is itself, and the others are those it runs as steps.
proof fn in_composed(policy: Policy, plan: Seq<Seq<char>>, k: int, j: int, q: int) -> (m: int)
    requires
        is_valid(policy),
        plan_is_known(policy, plan),
        there_is(policy, plan, k, j, q),
    ensures
        0 <= m < with_nested(policy)(plan[k]).len(),
        with_nested(policy)(plan[k])[m] == run_at(policy, plan, k, j)[q].0,
        m == 0 <==> !policy.nests(steps_at(policy, plan, k)[j].label()),
{
    assert(policy.pipeline_called(plan[k]) is Some);
    let p = policy.pipeline_called(plan[k])->0;
    let label = p.steps@[j].label();
    if policy.nests(label) {
        let inner = p.labels().filter(nests_scripts(policy));
        nested_runs_scripts(policy, plan[k], j);
        assert(p.labels()[j] == label);
        p.labels().lemma_filter_contains(nests_scripts(policy), j);
        let x = inner.index_of(label);
        assert(with_nested(policy)(plan[k]) == seq![plan[k]] + inner);
        assert((seq![plan[k]] + inner)[x + 1] == inner[x]);
        x + 1
    } else {
        0
    }
}

proof fn nested_runs_scripts(policy: Policy, outer: Seq<char>, j: int)
    requires
        is_valid(policy),
        policy.pipeline_called(outer) is Some,
        0 <= j < policy.pipeline_called(outer)->0.steps@.len(),
        policy.nests(policy.pipeline_called(outer)->0.steps@[j].label()),
    ensures
        nests_scripts(policy)(policy.pipeline_called(outer)->0.steps@[j].label()),
{
    let label = policy.pipeline_called(outer)->0.steps@[j].label();
    let inner = policy.pipeline_called(label)->0.labels();
    let kept = inner.filter(nesting(policy));
    if kept.len() > 0 {
        inner.lemma_filter_pred(nesting(policy), 0);
        inner.lemma_filter_contains_rev(nesting(policy), kept[0]);
        let q = inner.index_of(kept[0]);
        assert(stops(policy, label)[q].1 == kept[0]);
        nested_is_flat(policy, outer, j, q);
    }
}

/// A plan that runs each pipeline once goes through each place once.
proof fn pipelines_once_are_places_once(policy: Policy, plan: Seq<Seq<char>>)
    requires
        is_valid(policy),
        plan_is_known(policy, plan),
        composed(policy, plan).no_duplicates(),
    ensures
        itinerary(policy, plan).no_duplicates(),
{
    let places = itinerary(policy, plan);
    assert forall|a: int, b: int|
        0 <= a < places.len() && 0 <= b < places.len() && a != b implies places[a]
        != places[b] by {
        if places[a] == places[b] {
            let (k, j, q) = spot_found(policy, plan, a);
            let (l, m, n) = spot_found(policy, plan, b);
            spot_holds(policy, plan, k, j, q);
            spot_holds(policy, plan, l, m, n);
            let x = in_composed(policy, plan, k, j, q);
            let y = in_composed(policy, plan, l, m, n);
            let f = with_nested(policy);
            flat_at(plan, f, k, x);
            flat_at(plan, f, l, y);
            flat_comes_from_one(plan, f, k, x, l, y);
            assert(policy.pipeline_called(plan[k]) is Some);
            let p = policy.pipeline_called(plan[k])->0;
            valid_pipeline(policy, plan[k]);
            assert(p.labels()[j] == p.labels()[m]);
            assert(j == m);
            let label = p.steps@[j].label();
            if policy.nests(label) {
                valid_pipeline(policy, label);
                let inner = policy.pipeline_called(label)->0.labels();
                assert(inner[q] == inner[n]);
            }
        }
    }
}

/// What a pipeline of the plan brings: itself, or one that it runs as a step.
proof fn brought_by(policy: Policy, plan: Seq<Seq<char>>, k: int, x: int) -> (j: int)
    requires
        plan_is_known(policy, plan),
        0 <= k < plan.len(),
        0 <= x < with_nested(policy)(plan[k]).len(),
    ensures
        x == 0 ==> with_nested(policy)(plan[k])[x] == plan[k],
        x > 0 ==> 0 <= j < steps_at(policy, plan, k).len() && policy.nests(
            steps_at(policy, plan, k)[j].label(),
        ) && steps_at(policy, plan, k)[j].label() == with_nested(policy)(plan[k])[x],
{
    assert(policy.pipeline_called(plan[k]) is Some);
    let labels = policy.pipeline_called(plan[k])->0.labels();
    let inner = labels.filter(nests_scripts(policy));
    assert(with_nested(policy)(plan[k]) == seq![plan[k]] + inner);
    if x > 0 {
        assert((seq![plan[k]] + inner)[x] == inner[x - 1]);
        labels.lemma_filter_pred(nests_scripts(policy), x - 1);
        labels.lemma_filter_contains_rev(nests_scripts(policy), inner[x - 1]);
        labels.index_of(inner[x - 1])
    } else {
        0
    }
}

/// What a pipeline brings as steps, it brings once.
proof fn brought_once(policy: Policy, plan: Seq<Seq<char>>, k: int, x: int, y: int)
    requires
        is_valid(policy),
        plan_is_known(policy, plan),
        0 <= k < plan.len(),
        0 < x < with_nested(policy)(plan[k]).len(),
        0 < y < with_nested(policy)(plan[k]).len(),
        with_nested(policy)(plan[k])[x] == with_nested(policy)(plan[k])[y],
    ensures
        x == y,
{
    assert(policy.pipeline_called(plan[k]) is Some);
    valid_pipeline(policy, plan[k]);
    let labels = policy.pipeline_called(plan[k])->0.labels();
    let inner = labels.filter(nests_scripts(policy));
    assert(with_nested(policy)(plan[k]) == seq![plan[k]] + inner);
    assert((seq![plan[k]] + inner)[x] == inner[x - 1]);
    assert((seq![plan[k]] + inner)[y] == inner[y - 1]);
    kept_once(labels, nests_scripts(policy));
}

/// What is kept of a list without repetitions has none.
proof fn kept_once<A>(s: Seq<A>, p: spec_fn(A) -> bool)
    requires
        s.no_duplicates(),
    ensures
        s.filter(p).no_duplicates(),
    decreases s.len(),
{
    reveal(Seq::filter);
    if s.len() > 0 {
        let d = s.drop_last();
        kept_once(d, p);
        if p(s.last()) {
            assert forall|i: int| 0 <= i < d.filter(p).len() implies d.filter(p)[i]
                != s.last() by {
                d.lemma_filter_contains_rev(p, d.filter(p)[i]);
                let k = d.index_of(d.filter(p)[i]);
                assert(s[k] == d[k]);
            }
        }
    }
}

/// A plan that goes through each place once runs each pipeline once.
proof fn places_once_are_pipelines_once(policy: Policy, plan: Seq<Seq<char>>)
    requires
        is_valid(policy),
        plan_is_known(policy, plan),
        itinerary(policy, plan).no_duplicates(),
    ensures
        composed(policy, plan).no_duplicates(),
{
    let names = composed(policy, plan);
    let f = with_nested(policy);
    assert forall|a: int, b: int|
        0 <= a < names.len() && 0 <= b < names.len() && a != b implies names[a] != names[b] by {
        if names[a] == names[b] {
            let (k, x) = flat_where(plan, f, a);
            let (l, y) = flat_where(plan, f, b);
            flat_at(plan, f, k, x);
            flat_at(plan, f, l, y);
            let j = brought_by(policy, plan, k, x);
            let m = brought_by(policy, plan, l, y);
            if x == 0 && y == 0 {
                named_once(policy, plan, k, l);
            } else if x == 0 {
                nested_is_not_named(policy, plan, l, m, k);
            } else if y == 0 {
                nested_is_not_named(policy, plan, k, j, l);
            } else {
                nested_once(policy, plan, k, j, l, m);
                brought_once(policy, plan, k, x, y);
            }
        }
    }
}

/// Under a valid config, a plan runs each pipeline once, by name or as a step of another,
/// exactly where it goes through each place once.
pub proof fn each_pipeline_once_is_each_place_once(policy: Policy, plan: Seq<Seq<char>>)
    requires
        is_valid(policy),
        plan_is_known(policy, plan),
    ensures
        composed(policy, plan).no_duplicates() <==> itinerary(policy, plan).no_duplicates(),
{
    if composed(policy, plan).no_duplicates() {
        pipelines_once_are_places_once(policy, plan);
    }
    if itinerary(policy, plan).no_duplicates() {
        places_once_are_pipelines_once(policy, plan);
    }
}

/// Under a valid config, the plan of a type is of its pipelines, and goes through each
/// place once.
pub proof fn a_type_goes_through_each_place_once(policy: Policy, name: Seq<char>)
    requires
        is_valid(policy),
        policy.type_called(name) is Some,
    ensures
        plan_is_known(policy, policy.type_called(name)->0.pipelines.deep_view()),
        policy.type_called(name)->0.pipelines.deep_view().len() > 0,
        itinerary(
            policy,
            policy.type_called(name)->0.pipelines.deep_view(),
        ).no_duplicates(),
{
    assert(type_is_sound(policy, policy.type_called(name)->0)) by {
        reveal(is_valid);
        lookup_some(policy.config.types.entries(), name);
        let i = key_index(policy.config.types.entries(), name)->0;
        assert(policy.config.types.entries()[i].0 == name);
    }
    each_pipeline_once_is_each_place_once(
        policy,
        policy.type_called(name)->0.pipelines.deep_view(),
    );
}

// ---------------------------------------------------------------------------
// The end
// ---------------------------------------------------------------------------

/// A task at a script of its plan.
pub open spec fn stands(policy: Policy, t: TaskModel) -> bool {
    &&& well_placed(policy, t)
    &&& policy.script(t.step->0) is Some
    &&& itinerary(policy, t.plan).no_duplicates()
}

/// How far along its plan a task is.
pub open spec fn reached(policy: Policy, t: TaskModel) -> int {
    itinerary(policy, t.plan).index_of((t.pipeline->0, t.step->0))
}

/// How far along its plan the last step of a task's pipeline is.
pub open spec fn way_out(policy: Policy, t: TaskModel) -> int {
    let labels = policy.pipeline_called(t.pipeline->0)->0.labels();
    itinerary(policy, t.plan).index_of((t.pipeline->0, labels.last()))
}

/// Is a task in a pipeline that loops?
pub open spec fn in_a_loop(policy: Policy, t: TaskModel) -> bool {
    policy.pipeline_called(t.pipeline->0)->0.on_fail is Some
}

/// How many places a task has before it once it is out of the loop it is in.
pub open spec fn places_beyond(policy: Policy, t: TaskModel) -> int {
    let at = if in_a_loop(policy, t) {
        way_out(policy, t)
    } else {
        reached(policy, t)
    };
    itinerary(policy, t.plan).len() - 1 - at
}

/// How many rounds the loop that a task is in has left.
pub open spec fn rounds_left(policy: Policy, t: TaskModel) -> int {
    if in_a_loop(policy, t) {
        policy.pipeline_called(t.pipeline->0)->0.max_rounds->0 - t.round
    } else {
        0
    }
}

/// How many steps a task has before it in this round of its loop. At the repair step they
/// are all still to come.
pub open spec fn steps_left(policy: Policy, t: TaskModel) -> int {
    let labels = policy.pipeline_called(t.pipeline->0)->0.labels();
    if !in_a_loop(policy, t) {
        0
    } else if labels.contains(t.step->0) {
        way_out(policy, t) - reached(policy, t)
    } else {
        labels.len() as int
    }
}

/// Is the second of two tasks closer to its end than the first? It has fewer places beyond
/// its loop, or as many and fewer rounds, or as many of both and fewer steps.
pub open spec fn closer(policy: Policy, t: TaskModel, u: TaskModel) -> bool {
    ||| 0 <= places_beyond(policy, u) < places_beyond(policy, t)
    ||| places_beyond(policy, u) == places_beyond(policy, t) && 0 <= rounds_left(policy, u)
        < rounds_left(policy, t)
    ||| places_beyond(policy, u) == places_beyond(policy, t) && rounds_left(policy, u)
        == rounds_left(policy, t) && 0 <= steps_left(policy, u) < steps_left(policy, t)
}

proof fn index_of_place<A>(s: Seq<A>, i: int)
    requires
        s.no_duplicates(),
        0 <= i < s.len(),
    ensures
        s.index_of(s[i]) == i,
{
    let k = s.index_of(s[i]);
    assert(0 <= k < s.len() && s[k] == s[i]);
}

/// The steps of a pipeline of the plan that loops stand one after the other.
proof fn row(policy: Policy, plan: Seq<Seq<char>>, k: int, x: int)
    requires
        is_valid(policy),
        plan_is_known(policy, plan),
        0 <= k < plan.len(),
        0 <= x < steps_at(policy, plan, k).len(),
        policy.pipeline_called(plan[k])->0.on_fail is Some,
    ensures
        there_is(policy, plan, k, x, 0),
        run_at(policy, plan, k, x) == seq![(plan[k], steps_at(policy, plan, k)[x].label())],
        spot(policy, plan, k, x, 0) == spot(policy, plan, k, 0, 0) + x,
    decreases x,
{
    assert(policy.pipeline_called(plan[k]) is Some);
    let p = policy.pipeline_called(plan[k])->0;
    valid_pipeline(policy, plan[k]);
    assert(p.all_labels()[x] == p.steps@[x].label());
    if x > 0 {
        row(policy, plan, k, x - 1);
        next_spot(policy, plan, k, x - 1, 0);
    }
}

/// Where in the plan a step of a task's pipeline is.
proof fn placed_in_plan(policy: Policy, t: TaskModel, x: int) -> (i: int)
    requires
        is_valid(policy),
        well_placed(policy, t),
        0 <= x < policy.pipeline_called(t.pipeline->0)->0.steps@.len(),
        !policy.nests(policy.pipeline_called(t.pipeline->0)->0.steps@[x].label()),
    ensures
        0 <= i < itinerary(policy, t.plan).len(),
        itinerary(policy, t.plan)[i] == (
            t.pipeline->0,
            policy.pipeline_called(t.pipeline->0)->0.steps@[x].label(),
        ),
        in_a_loop(policy, t) ==> i - x == row_start(policy, t),
{
    let name = t.pipeline->0;
    let plan = t.plan;
    if plan.contains(name) {
        let k = plan.index_of(name);
        spot_holds(policy, plan, k, x, 0);
        if in_a_loop(policy, t) {
            row(policy, plan, k, x);
        }
        spot(policy, plan, k, x, 0)
    } else {
        let (k, j) = parent_place(policy, plan, name);
        nested_steps_are_scripts(policy, plan, name, x);
        spot_holds(policy, plan, k, j, x);
        spot(policy, plan, k, j, x)
    }
}

/// Where in the plan the first step of a task's pipeline is.
spec fn row_start(policy: Policy, t: TaskModel) -> int {
    let name = t.pipeline->0;
    if t.plan.contains(name) {
        spot(policy, t.plan, t.plan.index_of(name), 0, 0)
    } else {
        let k = first_index(t.plan, composes(policy, name))->0;
        spot(policy, t.plan, k, policy.pipeline_called(t.plan[k])->0.place(name)->0, 0)
    }
}

/// Where in the plan the steps of the loop that a task is in are, and the last of them.
proof fn loop_in_plan(policy: Policy, t: TaskModel, x: int)
    requires
        is_valid(policy),
        stands(policy, t),
        in_a_loop(policy, t),
        0 <= x < policy.pipeline_called(t.pipeline->0)->0.steps@.len(),
    ensures
        ({
            let p = policy.pipeline_called(t.pipeline->0)->0;
            let places = itinerary(policy, t.plan);
            let i = row_start(policy, t) + x;
            &&& 0 <= i < places.len()
            &&& places[i] == (t.pipeline->0, p.steps@[x].label())
            &&& places.index_of((t.pipeline->0, p.steps@[x].label())) == i
            &&& way_out(policy, t) == row_start(policy, t) + p.steps@.len() - 1
            &&& way_out(policy, t) < places.len()
        }),
{
    let p = policy.pipeline_called(t.pipeline->0)->0;
    let places = itinerary(policy, t.plan);
    let last = p.steps@.len() - 1;
    valid_pipeline(policy, t.pipeline->0);
    assert(p.all_labels()[x] == p.steps@[x].label());
    assert(p.all_labels()[last] == p.steps@[last].label());
    assert(p.labels().last() == p.steps@[last].label());
    let i = placed_in_plan(policy, t, x);
    index_of_place(places, i);
    let e = placed_in_plan(policy, t, last);
    index_of_place(places, e);
}

/// A place of a plan is a step of the pipeline it names.
proof fn place_is_step(policy: Policy, plan: Seq<Seq<char>>, i: int) -> (x: int)
    requires
        plan_is_known(policy, plan),
        0 <= i < itinerary(policy, plan).len(),
    ensures
        0 <= x < policy.pipeline_called(itinerary(policy, plan)[i].0)->0.steps@.len(),
        policy.pipeline_called(itinerary(policy, plan)[i].0)->0.steps@[x].label() == itinerary(
            policy,
            plan,
        )[i].1,
{
    let (k, j, q) = spot_found(policy, plan, i);
    spot_holds(policy, plan, k, j, q);
    if policy.nests(steps_at(policy, plan, k)[j].label()) {
        q
    } else {
        j
    }
}

/// A task at a place has no more places beyond its loop than the plan has behind that place.
proof fn going_further(policy: Policy, t: TaskModel, i: int)
    requires
        is_valid(policy),
        stands(policy, t),
        0 <= i < itinerary(policy, t.plan).len(),
        (t.pipeline->0, t.step->0) == itinerary(policy, t.plan)[i],
    ensures
        0 <= places_beyond(policy, t) <= itinerary(policy, t.plan).len() - 1 - i,
{
    index_of_place(itinerary(policy, t.plan), i);
    if in_a_loop(policy, t) {
        let x = place_is_step(policy, t.plan, i);
        loop_in_plan(policy, t, x);
    }
}

/// A pass of a step in sequence.
proof fn a_pass_gets_closer(policy: Policy, t: TaskModel, x: int)
    requires
        is_valid(policy),
        stands(policy, t),
        0 <= x < policy.pipeline_called(t.pipeline->0)->0.steps@.len(),
        policy.pipeline_called(t.pipeline->0)->0.steps@[x].label() == t.step->0,
    ensures
        passes(policy, t) is Rest || (proceeds(policy, t, passes(policy, t)) && closer(
            policy,
            t,
            moved(t, passes(policy, t)),
        )),
{
    let name = t.pipeline->0;
    let p = policy.pipeline_called(name)->0;
    let places = itinerary(policy, t.plan);
    let i = placed_in_plan(policy, t, x);
    index_of_place(places, i);
    passing_never_parks(policy, t);
    a_pass_goes_to_the_next_place(policy, t, i);
    let next = passes(policy, t);
    if next is Run {
        let u = moved(t, next);
        going_further(policy, u, i + 1);
        if in_a_loop(policy, t) {
            loop_in_plan(policy, t, x);
            if x + 1 < p.steps@.len() {
                valid_pipeline(policy, name);
                placed_at(p, x);
                loop_in_plan(policy, t, x + 1);
                assert(p.labels()[x] == t.step->0);
                assert(p.labels()[x + 1] == u.step->0);
                assert(p.labels().contains(t.step->0));
                assert(p.labels().contains(u.step->0));
                assert(p.all_labels()[x + 1] == p.steps@[x + 1].label());
                assert(next->round == t.round);
                assert(u.pipeline == t.pipeline);
            }
        }
    }
}

/// A pass of the repair step goes back to the first step of its pipeline, at the round that
/// the rejection set.
pub proof fn a_repair_goes_back_to_the_first_step(policy: Policy, t: TaskModel)
    requires
        is_valid(policy),
        stands(policy, t),
        !policy.pipeline_called(t.pipeline->0)->0.labels().contains(t.step->0),
    ensures
        in_a_loop(policy, t),
        passes(policy, t) == (PlanModel::Run {
            pipeline: t.pipeline->0,
            step: policy.pipeline_called(t.pipeline->0)->0.labels()[0],
            round: t.round,
        }),
{
    let name = t.pipeline->0;
    let p = policy.pipeline_called(name)->0;
    valid_pipeline(policy, name);
    let all = p.all_labels();
    let i = all.index_of(t.step->0);
    assert(p.on_fail is Some && all[i] == t.step->0) by {
        if i < p.labels().len() {
            assert(p.labels()[i] == t.step->0);
        }
    }
    assert(p.on_fail.deep_view() == Some(t.step->0));
    assert forall|j: int| 0 <= j < p.steps@.len() implies !is_called(t.step->0)(
        #[trigger] p.steps@[j],
    ) by {
        assert(p.labels()[j] == p.steps@[j].label());
    }
    first_index_absent(p.steps@, is_called(t.step->0));
    assert(all[0] == p.steps@[0].label());
    assert(p.labels()[0] == p.steps@[0].label());
    assert(step_is_sound(policy, name, p.steps@[0]));
}

/// A pass of the repair step.
proof fn a_repair_gets_closer(policy: Policy, t: TaskModel)
    requires
        is_valid(policy),
        stands(policy, t),
        !policy.pipeline_called(t.pipeline->0)->0.labels().contains(t.step->0),
    ensures
        proceeds(policy, t, passes(policy, t)),
        closer(policy, t, moved(t, passes(policy, t))),
{
    let p = policy.pipeline_called(t.pipeline->0)->0;
    valid_pipeline(policy, t.pipeline->0);
    a_repair_goes_back_to_the_first_step(policy, t);
    passing_never_parks(policy, t);
    let u = moved(t, passes(policy, t));
    assert(p.labels()[0] == p.steps@[0].label());
    assert(p.labels().contains(u.step->0));
    loop_in_plan(policy, t, 0);
    loop_in_plan(policy, u, 0);
}

/// Leaving a pipeline is the same from each of its steps.
proof fn leaving_is_the_same(policy: Policy, t: TaskModel, u: TaskModel, name: Seq<char>)
    requires
        t.plan == u.plan,
        t.pipeline == u.pipeline,
        t.round == u.round,
    ensures
        leaves(policy, t, name) == leaves(policy, u, name),
{
    assert(forall|at: Seq<char>| #[trigger] carried(t, at) == carried(u, at));
    assert(forall|at: Seq<char>| #[trigger] enters(policy, t, at) == enters(policy, u, at));
}

/// A loop whose rounds are spent, and that then passes, goes on behind its last step, as a
/// pass of that step would.
pub proof fn a_spent_loop_that_passes_goes_on(policy: Policy, t: TaskModel)
    requires
        is_valid(policy),
        stands(policy, t),
        in_a_loop(policy, t),
        t.round + 1 >= policy.pipeline_called(t.pipeline->0)->0.max_rounds->0,
        policy.pipeline_called(t.pipeline->0)->0.on_exhausted == Some(Outcome::Pass),
    ensures
        0 <= way_out(policy, t) < itinerary(policy, t.plan).len(),
        follows(policy, t.plan, way_out(policy, t), fails(policy, t)),
{
    let name = t.pipeline->0;
    let p = policy.pipeline_called(name)->0;
    valid_pipeline(policy, name);
    rejections_are_bounded(policy, t);
    let last = p.steps@.len() - 1;
    let end = TaskModel { step: Some(p.steps@[last].label()), ..t };
    placed_at(p, last);
    loop_in_plan(policy, t, last);
    leaving_is_the_same(policy, t, end, name);
    a_pass_goes_to_the_next_place(policy, end, way_out(policy, t));
    assert(passes(policy, end) == leaves(policy, end, name));
}

/// A rejection.
proof fn a_rejection_gets_closer(policy: Policy, t: TaskModel)
    requires
        is_valid(policy),
        stands(policy, t),
    ensures
        fails(policy, t) is Rest || fails(policy, t) is Park || (proceeds(
            policy,
            t,
            fails(policy, t),
        ) && closer(policy, t, moved(t, fails(policy, t)))),
{
    let p = policy.pipeline_called(t.pipeline->0)->0;
    valid_pipeline(policy, t.pipeline->0);
    rejections_are_bounded(policy, t);
    let next = fails(policy, t);
    if next is Run {
        loop_in_plan(policy, t, 0);
        if t.round + 1 >= p.max_rounds->0 {
            a_spent_loop_that_passes_goes_on(policy, t);
            going_further(policy, moved(t, next), way_out(policy, t) + 1);
        }
    }
}

/// What a task does on an answer of what it runs: a pass, or a rejection.
pub open spec fn answered(policy: Policy, t: TaskModel, pass: bool) -> PlanModel {
    if pass {
        passes(policy, t)
    } else {
        fails(policy, t)
    }
}

/// Every answer ends the task's way, or brings it to a script of its plan that is closer
/// to the end: with fewer places beyond the loop it is in, or as many and fewer rounds of
/// that loop, or as many of both and fewer steps of the round.
pub proof fn every_answer_gets_closer_to_the_end(policy: Policy, t: TaskModel, pass: bool)
    requires
        is_valid(policy),
        stands(policy, t),
    ensures
        answered(policy, t, pass) is Run ==> stands(policy, moved(t, answered(policy, t, pass))),
        answered(policy, t, pass) is Run ==> closer(
            policy,
            t,
            moved(t, answered(policy, t, pass)),
        ),
{
    if pass {
        let p = policy.pipeline_called(t.pipeline->0)->0;
        if p.labels().contains(t.step->0) {
            let x = p.labels().index_of(t.step->0);
            a_pass_gets_closer(policy, t, x);
        } else {
            a_repair_gets_closer(policy, t);
        }
    } else {
        a_rejection_gets_closer(policy, t);
    }
}

/// What a task that runs a script comes to do after so many answers.
pub open spec fn after_answers(
    policy: Policy,
    t: TaskModel,
    answers: spec_fn(nat) -> bool,
    n: nat,
) -> PlanModel
    decreases n,
{
    if n == 0 {
        PlanModel::Run { pipeline: t.pipeline->0, step: t.step->0, round: t.round }
    } else {
        let before = after_answers(policy, t, answers, (n - 1) as nat);
        if before is Run {
            answered(policy, moved(t, before), answers((n - 1) as nat))
        } else {
            before
        }
    }
}

proof fn ends_from(policy: Policy, t: TaskModel, answers: spec_fn(nat) -> bool, n: nat) -> (m: nat)
    requires
        is_valid(policy),
        after_answers(policy, t, answers, n) is Run,
        stands(policy, moved(t, after_answers(policy, t, answers, n))),
    ensures
        !(after_answers(policy, t, answers, m) is Run),
    decreases
            places_beyond(policy, moved(t, after_answers(policy, t, answers, n))),
            rounds_left(policy, moved(t, after_answers(policy, t, answers, n))),
            steps_left(policy, moved(t, after_answers(policy, t, answers, n))),
{
    let u = moved(t, after_answers(policy, t, answers, n));
    every_answer_gets_closer_to_the_end(policy, u, answers(n));
    let next = after_answers(policy, t, answers, n + 1);
    assert(next == answered(policy, u, answers(n)));
    if next is Run {
        assert(moved(t, next) == moved(u, next));
        ends_from(policy, t, answers, n + 1)
    } else {
        n + 1
    }
}

/// Whatever the answers are, a task comes to its end: to rest, or parked.
pub proof fn every_task_ends(policy: Policy, t: TaskModel, answers: spec_fn(nat) -> bool)
    requires
        is_valid(policy),
        stands(policy, t),
    ensures
        exists|n: nat| !(#[trigger] after_answers(policy, t, answers, n) is Run),
{
    assert(moved(t, after_answers(policy, t, answers, 0)) == t);
    let m = ends_from(policy, t, answers, 0);
}

/// While every answer is a pass, a task goes through the rest of its plan place by place,
/// and after the last comes to rest.
pub proof fn passes_go_through_the_plan(
    policy: Policy,
    t: TaskModel,
    answers: spec_fn(nat) -> bool,
    i: int,
    n: nat,
)
    requires
        is_valid(policy),
        plan_is_known(policy, t.plan),
        itinerary(policy, t.plan).no_duplicates(),
        0 <= i < itinerary(policy, t.plan).len(),
        t.pipeline == Some(itinerary(policy, t.plan)[i].0),
        t.step == Some(itinerary(policy, t.plan)[i].1),
        forall|m: nat| #[trigger] answers(m),
    ensures
        i + n < itinerary(policy, t.plan).len() ==> runs_at(
            after_answers(policy, t, answers, n),
            itinerary(policy, t.plan)[i + n],
        ),
        i + n >= itinerary(policy, t.plan).len() ==> after_answers(policy, t, answers, n) is Rest,
    decreases n,
{
    if n > 0 {
        let before = (n - 1) as nat;
        passes_go_through_the_plan(policy, t, answers, i, before);
        assert(answers(before));
        if i + before < itinerary(policy, t.plan).len() {
            let u = moved(t, after_answers(policy, t, answers, before));
            a_pass_goes_to_the_next_place(policy, u, i + before);
        }
    }
}

} // verus!
