//! Where a task goes next.
//!
//! Pure: config plus a task row in, one decision out. The engine decides nothing a
//! human didn't write down, so every branch taken here comes from the config.

use super::itinerary::{
    a_pass_goes_to_the_next_place, a_task_starts_at_the_first_place, follows, itinerary,
    on_its_way, runs_at,
};
use crate::config::validate::{is_valid, pipeline_is_sound, nesting_is_flat};
use crate::config::{Pipeline, Policy, StepKind};
use crate::db::task::{Task, TaskModel};
use crate::outcome::Outcome;
use crate::table::{
    first_index, first_index_absent, first_index_exists, first_index_found, first_index_is_first,
    is_first, lookup_some,
};
use crate::text::{
    cat2, cat3, cat4, cat5, cat6, copy, is_name, is_text, mentions, nat_text, natural,
    parts_are_mentioned, place_of, quote, quoted, what_a_part_mentions,
};
use vstd::prelude::*;
use vstd::string::*;

verus! {

/// What to do with a task, given where it has got to.
#[derive(Debug)]
pub enum Plan {
    /// Run this step. `pipeline` is where round is scoped, which for a nested
    /// pipeline is the nested one.
    Run { pipeline: String, step: String, round: i64 },
    /// The task's plan is spent: it comes to rest until something applies more.
    Rest,
    /// Nothing can proceed. Parking is inert: the task sits there until
    /// `shep retry`.
    Park { reason: String },
}

#[verifier::ext_equal]
pub enum PlanModel {
    Run { pipeline: Seq<char>, step: Seq<char>, round: i64 },
    Rest,
    Park { reason: Seq<char> },
}

impl View for Plan {
    type V = PlanModel;

    open spec fn view(&self) -> PlanModel {
        match self {
            Plan::Run { pipeline, step, round } => PlanModel::Run {
                pipeline: pipeline@,
                step: step@,
                round: *round,
            },
            Plan::Rest => PlanModel::Rest,
            Plan::Park { reason } => PlanModel::Park { reason: reason@ },
        }
    }
}

/// What a reason calls the thing that goes through a plan.
pub const UNIT: &'static str = "task";

pub open spec fn parks(reason: Seq<char>) -> PlanModel {
    PlanModel::Park { reason }
}

fn park(reason: String) -> (r: Plan)
    ensures
        r@ == parks(reason@),
{
    Plan::Park { reason }
}

// ---------------------------------------------------------------------------
// Descending
// ---------------------------------------------------------------------------

/// The pipeline that a pipeline's first step runs, where it runs one.
pub open spec fn opens_with(policy: Policy, name: Seq<char>) -> Option<Seq<char>> {
    match policy.pipeline_called(name) {
        Some(p) => if p.steps@.len() > 0 && policy.nests(p.steps@[0].label()) {
            Some(p.steps@[0].label())
        } else {
            None
        },
        None => None,
    }
}

/// The pipeline that entering one gets to, going down no more than so many times.
pub open spec fn innermost(policy: Policy, name: Seq<char>, down: nat) -> Option<Seq<char>>
    decreases down,
{
    match opens_with(policy, name) {
        None => Some(name),
        Some(inner) => if down == 0 {
            None
        } else {
            innermost(policy, inner, (down - 1) as nat)
        },
    }
}

/// Does entering a pipeline get anywhere?
pub open spec fn gets_somewhere(policy: Policy, name: Seq<char>) -> bool {
    exists|down: nat| innermost(policy, name, down) is Some
}

/// The pipeline that entering one gets to.
pub open spec fn entered(policy: Policy, name: Seq<char>) -> Seq<char> {
    innermost(policy, name, choose|down: nat| innermost(policy, name, down) is Some)->0
}

/// Entering any pipeline gets somewhere. A cycle of first steps would not.
pub open spec fn composition_ends(policy: Policy) -> bool {
    forall|name: Seq<char>| #[trigger] gets_somewhere(policy, name)
}

proof fn innermost_is_one(policy: Policy, name: Seq<char>, a: nat, b: nat)
    requires
        innermost(policy, name, a) is Some,
        innermost(policy, name, b) is Some,
    ensures
        innermost(policy, name, a) == innermost(policy, name, b),
    decreases a,
{
    if let Some(inner) = opens_with(policy, name) {
        innermost_is_one(policy, inner, (a - 1) as nat, (b - 1) as nat);
    }
}

/// Is this how far down entering a pipeline goes?
spec fn is_depth(policy: Policy, name: Seq<char>, down: nat) -> bool {
    innermost(policy, name, down) is Some && (down == 0 || innermost(
        policy,
        name,
        (down - 1) as nat,
    ) is None)
}

spec fn depth(policy: Policy, name: Seq<char>) -> nat {
    choose|down: nat| is_depth(policy, name, down)
}

proof fn depth_exists(policy: Policy, name: Seq<char>, down: nat)
    requires
        innermost(policy, name, down) is Some,
    ensures
        is_depth(policy, name, depth(policy, name)),
    decreases down,
{
    if down == 0 || innermost(policy, name, (down - 1) as nat) is None {
        assert(is_depth(policy, name, down));
    } else {
        depth_exists(policy, name, (down - 1) as nat);
    }
}

/// Going down once gets to the same place, and is one closer to it.
proof fn going_down(policy: Policy, name: Seq<char>)
    requires
        gets_somewhere(policy, name),
    ensures
        match opens_with(policy, name) {
            None => entered(policy, name) == name,
            Some(inner) => gets_somewhere(policy, inner) && entered(policy, inner) == entered(
                policy,
                name,
            ) && depth(policy, inner) < depth(policy, name),
        },
{
    let n = choose|down: nat| innermost(policy, name, down) is Some;
    if let Some(inner) = opens_with(policy, name) {
        assert(innermost(policy, inner, (n - 1) as nat) is Some);
        let m = choose|down: nat| innermost(policy, inner, down) is Some;
        innermost_is_one(policy, inner, (n - 1) as nat, m);
        depth_exists(policy, name, n);
        let d = depth(policy, name);
        assert(innermost(policy, inner, (d - 1) as nat) is Some);
        depth_exists(policy, inner, (d - 1) as nat);
        let e = depth(policy, inner);
        if e >= d {
            enough_is_enough(policy, inner, (d - 1) as nat, (e - 1) as nat);
        }
    }
}

proof fn enough_is_enough(policy: Policy, name: Seq<char>, a: nat, b: nat)
    requires
        innermost(policy, name, a) is Some,
        a <= b,
    ensures
        innermost(policy, name, b) is Some,
    decreases a,
{
    if let Some(inner) = opens_with(policy, name) {
        enough_is_enough(policy, inner, (a - 1) as nat, (b - 1) as nat);
    }
}

// ---------------------------------------------------------------------------
// What a task does next
// ---------------------------------------------------------------------------

/// The round a task has in a pipeline. It carries across steps of the same pipeline
/// and starts again in a new one.
pub open spec fn carried(t: TaskModel, pipeline: Seq<char>) -> i64 {
    if t.pipeline == Some(pipeline) {
        t.round
    } else {
        0
    }
}

/// What running a step that is no pipeline comes to.
pub open spec fn runs(
    policy: Policy,
    pipeline: Seq<char>,
    step: Seq<char>,
    round: i64,
) -> PlanModel {
    if policy.script(step) is Some {
        PlanModel::Run { pipeline, step, round }
    } else {
        parks(
            "step "@ + quoted(step) + " of pipeline "@ + quoted(pipeline)
                + " resolves to nothing runnable"@,
        )
    }
}

/// Begin a pipeline at its first step, going down where that step is itself a
/// pipeline.
pub open spec fn enters(policy: Policy, t: TaskModel, pipeline: Seq<char>) -> PlanModel {
    if policy.pipeline_called(pipeline) is None {
        parks("no pipeline "@ + quoted(pipeline) + " in config"@)
    } else {
        let at = entered(policy, pipeline);
        let steps = policy.pipeline_called(at)->0.steps@;
        if steps.len() == 0 {
            parks("pipeline "@ + quoted(at) + " has no steps"@)
        } else {
            runs(policy, at, steps[0].label(), carried(t, at))
        }
    }
}

/// A step at a round: a script to run there, or a pipeline to go down into.
pub open spec fn goes_to(
    policy: Policy,
    t: TaskModel,
    pipeline: Seq<char>,
    step: Seq<char>,
    round: i64,
) -> PlanModel {
    if policy.nests(step) {
        enters(policy, t, step)
    } else {
        runs(policy, pipeline, step, round)
    }
}

/// Does a pipeline have a step of this name in its sequence?
pub open spec fn composes(policy: Policy, nested: Seq<char>) -> spec_fn(Seq<char>) -> bool {
    |outer: Seq<char>|
        policy.pipeline_called(outer) is Some && policy.pipeline_called(outer)->0.place(
            nested,
        ) is Some
}

/// Which pipeline of a plan composes another as a step: the first that does.
pub open spec fn parent(policy: Policy, plan: Seq<Seq<char>>, nested: Seq<char>) -> Option<
    Seq<char>,
> {
    match first_index(plan, composes(policy, nested)) {
        Some(i) => Some(plan[i]),
        None => None,
    }
}

/// Where a task goes when a pipeline of its plan passes: to the next, or to rest.
pub open spec fn after_top(policy: Policy, t: TaskModel, index: int) -> PlanModel {
    if index + 1 < t.plan.len() {
        enters(policy, t, t.plan[index + 1])
    } else {
        PlanModel::Rest
    }
}

/// Where a task goes when a pipeline passes: on in the plan, or on in the pipeline
/// that composes it.
pub open spec fn leaves(policy: Policy, t: TaskModel, finished: Seq<char>) -> PlanModel {
    match first_index(t.plan, is_name(finished)) {
        Some(index) => after_top(policy, t, index),
        None => match parent(policy, t.plan, finished) {
            None => parks(
                "pipeline "@ + quoted(finished)
                    + " is not part of this plan and nothing composes it"@,
            ),
            Some(outer) => {
                let p = policy.pipeline_called(outer)->0;
                let index = p.place(finished)->0;
                if index + 1 < p.steps@.len() {
                    goes_to(policy, t, outer, p.steps@[index + 1].label(), carried(t, outer))
                } else {
                    after_top(policy, t, first_index(t.plan, is_name(outer))->0)
                }
            },
        },
    }
}

/// The first thing to do with a task.
pub open spec fn starts(policy: Policy, t: TaskModel) -> PlanModel {
    if t.plan.len() > 0 {
        enters(policy, t, t.plan[0])
    } else {
        PlanModel::Rest
    }
}

/// Where a task goes when its current step passes.
pub open spec fn passes(policy: Policy, t: TaskModel) -> PlanModel {
    if t.pipeline is None || t.step is None {
        starts(policy, t)
    } else {
        let pipeline = t.pipeline->0;
        let step = t.step->0;
        match policy.pipeline_called(pipeline) {
            None => parks(
                "pipeline "@ + quoted(pipeline)
                    + " is not in config any more, so this "@ + UNIT@ + " is stranded"@,
            ),
            Some(p) => match p.place(step) {
                Some(index) => if index + 1 < p.steps@.len() {
                    goes_to(
                        policy,
                        t,
                        pipeline,
                        p.steps@[index + 1].label(),
                        carried(t, pipeline),
                    )
                } else {
                    leaves(policy, t, pipeline)
                },
                None => if p.on_fail.deep_view() == Some(step) {
                    // The repair step: back to the top, at the round the rejection
                    // set.
                    if p.steps@.len() > 0 {
                        goes_to(policy, t, pipeline, p.steps@[0].label(), t.round)
                    } else {
                        parks("pipeline "@ + quoted(pipeline) + " has no steps"@)
                    }
                } else {
                    parks(
                        "step "@ + quoted(step) + " is no longer a step of pipeline "@ + quoted(
                            pipeline,
                        ),
                    )
                },
            },
        }
    }
}

/// What is said of a pipeline that rejected.
pub open spec fn rejection(
    policy: Policy,
    t: TaskModel,
    pipeline: Seq<char>,
    why: Seq<char>,
) -> PlanModel {
    if t.plan.contains(pipeline) {
        parks(why + ", so "@ + quoted(pipeline) + " rejected this "@ + UNIT@)
    } else {
        match parent(policy, t.plan, pipeline) {
            Some(outer) => parks(
                why + ", so it rejected — and "@ + quoted(outer)
                    + " has nowhere to send a rejection"@,
            ),
            None => parks(why + ", and nothing composes "@ + quoted(pipeline)),
        }
    }
}

/// What a pipeline whose cap is spent comes to: its own outcome, handled as one of a
/// step would be. It is `reject` where the config says nothing: calling that a pass
/// would wave the very thing it was checking through.
pub open spec fn exhausts(
    policy: Policy,
    t: TaskModel,
    pipeline: Seq<char>,
    p: Pipeline,
    step: Seq<char>,
) -> PlanModel {
    let spent = "pipeline "@ + quoted(pipeline) + " rejected "@ + quoted(step) + " in all "@
        + nat_text(p.max_rounds->0 as nat) + " rounds"@;
    match p.on_exhausted {
        Some(Outcome::Pass) => leaves(policy, t, pipeline),
        Some(Outcome::Error) => parks(spent + ", and on_exhausted says error"@),
        Some(Outcome::Started) => parks(
            spent + ", and on_exhausted says started, which a pipeline cannot mean"@,
        ),
        _ => rejection(policy, t, pipeline, spent),
    }
}

/// Where a task goes when its current step rejects.
pub open spec fn fails(policy: Policy, t: TaskModel) -> PlanModel {
    if t.pipeline is None || t.step is None {
        parks("a rejection arrived for a task that is nowhere"@)
    } else {
        let pipeline = t.pipeline->0;
        let step = t.step->0;
        match policy.pipeline_called(pipeline) {
            None => parks(
                "pipeline "@ + quoted(pipeline)
                    + " is not in config any more, so this "@ + UNIT@ + " is stranded"@,
            ),
            Some(p) => if p.on_fail is None || p.max_rounds is None {
                parks(
                    "step "@ + quoted(step) + " rejected and pipeline "@ + quoted(pipeline)
                        + " has no on_fail"@,
                )
            } else if t.round + 1 >= p.max_rounds->0 {
                exhausts(policy, t, pipeline, p, step)
            } else {
                goes_to(policy, t, pipeline, p.on_fail->0@, (t.round + 1) as i64)
            },
        }
    }
}

// ---------------------------------------------------------------------------
// The planner
// ---------------------------------------------------------------------------

/// Everything the decision needs.
struct Planner<'a> {
    policy: &'a Policy,
    task: &'a Task,
}

impl<'a> Planner<'a> {
    /// The round a task has in a pipeline.
    fn round_in(&self, pipeline: &str) -> (r: i64)
        ensures
            r == carried(self.task@, pipeline@),
    {
        if is_text(&self.task.pipeline, pipeline) {
            self.task.round
        } else {
            0
        }
    }

    /// Begin a pipeline at its first step, descending if that step is itself a
    /// pipeline.
    fn enter(&self, pipeline: &str) -> (r: Plan)
        requires
            composition_ends(*self.policy),
        ensures
            r@ == enters(*self.policy, self.task@, pipeline@),
        decreases depth(*self.policy, pipeline@),
    {
        proof {
            assert(gets_somewhere(*self.policy, pipeline@));
            going_down(*self.policy, pipeline@);
        }
        match self.policy.config.pipeline.get(pipeline) {
            None => park(cat3("no pipeline ", &quote(pipeline), " in config")),
            Some(p) => if p.steps.len() == 0 {
                park(cat3("pipeline ", &quote(pipeline), " has no steps"))
            } else {
                let first: &str = p.steps[0].name();
                match self.policy.step_kind(first) {
                    Some(StepKind::Script(_)) => Plan::Run {
                        pipeline: copy(pipeline),
                        step: copy(first),
                        round: self.round_in(pipeline),
                    },
                    Some(StepKind::Pipeline(inner)) => self.enter(&inner),
                    None => self.nothing_runnable(pipeline, first),
                }
            },
        }
    }

    fn nothing_runnable(&self, pipeline: &str, step: &str) -> (r: Plan)
        ensures
            r@ == parks(
                "step "@ + quoted(step@) + " of pipeline "@ + quoted(pipeline@)
                    + " resolves to nothing runnable"@,
            ),
    {
        park(
            cat5(
                "step ",
                &quote(step),
                " of pipeline ",
                &quote(pipeline),
                " resolves to nothing runnable",
            ),
        )
    }

    /// A step, at a round this decision has chosen.
    fn step_at(&self, pipeline: &str, step: &str, round: i64) -> (r: Plan)
        requires
            composition_ends(*self.policy),
        ensures
            r@ == goes_to(*self.policy, self.task@, pipeline@, step@, round),
    {
        match self.policy.step_kind(step) {
            Some(StepKind::Script(_)) => Plan::Run {
                pipeline: copy(pipeline),
                step: copy(step),
                round,
            },
            Some(StepKind::Pipeline(inner)) => self.enter(&inner),
            None => self.nothing_runnable(pipeline, step),
        }
    }

    /// A step, at the round the task has in its pipeline.
    fn step_plan(&self, pipeline: &str, step: &str) -> (r: Plan)
        requires
            composition_ends(*self.policy),
        ensures
            r@ == goes_to(
                *self.policy,
                self.task@,
                pipeline@,
                step@,
                carried(self.task@, pipeline@),
            ),
    {
        self.step_at(pipeline, step, self.round_in(pipeline))
    }

    /// On in the plan after one of its pipelines.
    fn after_plan(&self, index: usize) -> (r: Plan)
        requires
            composition_ends(*self.policy),
            index < self.task.plan.len(),
        ensures
            r@ == after_top(*self.policy, self.task@, index as int),
    {
        if index + 1 < self.task.plan.len() {
            assert(self.task@.plan[index as int + 1] == self.task.plan@[index as int + 1]@);
            self.enter(&self.task.plan[index + 1])
        } else {
            Plan::Rest
        }
    }

    /// A pipeline finished with `pass`; continue after it.
    fn leave(&self, finished: &str) -> (r: Plan)
        requires
            composition_ends(*self.policy),
        ensures
            r@ == leaves(*self.policy, self.task@, finished@),
    {
        if let Some(index) = place_of(&self.task.plan, finished) {
            return self.after_plan(index);
        }
        // Not a top-level pipeline of the plan, so it was nested: continue in its
        // parent, after the step that named it.
        let ghost plan = self.task@.plan;
        match self.parent_of(finished) {
            None => park(
                cat3(
                    "pipeline ",
                    &quote(finished),
                    " is not part of this plan and nothing composes it",
                ),
            ),
            Some(at) => {
                let outer: &str = self.task.plan[at].as_str();
                assert(plan[at as int] == outer@);
                assert(is_first(plan, composes(*self.policy, finished@), at as int));
                match self.policy.config.pipeline.get(outer) {
                    Some(p) => match p.position(finished) {
                        Some(index) => if index + 1 < p.steps.len() {
                            self.step_plan(outer, p.steps[index + 1].name())
                        } else {
                            match place_of(&self.task.plan, outer) {
                                Some(top) => self.after_plan(top),
                                None => {
                                    proof {
                                        first_index_exists(plan, is_name(outer@), at as int);
                                    }
                                    Plan::Rest
                                },
                            }
                        },
                        None => park(
                            cat4(
                                "pipeline ",
                                &quote(finished),
                                " is no longer a step of ",
                                &quote(outer),
                            ),
                        ),
                    },
                    None => park(
                        cat3("pipeline ", &quote(outer), " is not in config any more"),
                    ),
                }
            },
        }
    }

    /// Which pipeline of the plan composes `nested` as a step.
    fn parent_of(&self, nested: &str) -> (r: Option<usize>)
        ensures
            match r {
                Some(i) => i < self.task.plan.len() && first_index(
                    self.task@.plan,
                    composes(*self.policy, nested@),
                ) == Some(i as int) && is_first(
                    self.task@.plan,
                    composes(*self.policy, nested@),
                    i as int,
                ),
                None => first_index(self.task@.plan, composes(*self.policy, nested@)) is None,
            },
    {
        let ghost plan = self.task@.plan;
        let ghost p = composes(*self.policy, nested@);
        for i in 0..self.task.plan.len()
            invariant
                plan == self.task@.plan,
                p == composes(*self.policy, nested@),
                forall|j: int| 0 <= j < i ==> !p(#[trigger] plan[j]),
        {
            assert(plan[i as int] == self.task.plan@[i as int]@);
            let here: bool = match self.policy.config.pipeline.get(&self.task.plan[i]) {
                Some(outer) => outer.position(nested).is_some(),
                None => false,
            };
            if here {
                proof {
                    first_index_found(plan, p, i as int);
                }
                return Some(i);
            }
        }
        proof {
            first_index_absent(plan, p);
        }
        None
    }

    /// Round again: the first step of this pipeline, at the round the rejection
    /// moved it to.
    fn restart(&self, pipeline: &str, p: &Pipeline) -> (r: Plan)
        requires
            composition_ends(*self.policy),
        ensures
            r@ == (if p.steps@.len() > 0 {
                goes_to(
                    *self.policy,
                    self.task@,
                    pipeline@,
                    p.steps@[0].label(),
                    self.task.round,
                )
            } else {
                parks("pipeline "@ + quoted(pipeline@) + " has no steps"@)
            }),
    {
        if p.steps.len() > 0 {
            self.step_at(pipeline, p.steps[0].name(), self.task.round)
        } else {
            park(cat3("pipeline ", &quote(pipeline), " has no steps"))
        }
    }

    /// The cap is spent. `on_exhausted` is this pipeline's own outcome, so it is
    /// handled exactly as an outcome from a step would be, which is what makes a
    /// pipeline usable as a step.
    fn exhausted(&self, pipeline: &str, p: &Pipeline, cap: u32, step: &str) -> (r: Plan)
        requires
            composition_ends(*self.policy),
            p.max_rounds == Some(cap),
        ensures
            r@ == exhausts(*self.policy, self.task@, pipeline@, *p, step@),
    {
        let spent: String = cat6(
            "pipeline ",
            &quote(pipeline),
            " rejected ",
            &quote(step),
            " in all ",
            &natural(cap as u64),
        ).concat(" rounds");
        match p.on_exhausted {
            Some(Outcome::Pass) => self.leave(pipeline),
            Some(Outcome::Error) => park(cat2(&spent, ", and on_exhausted says error")),
            Some(Outcome::Started) => park(
                cat2(&spent, ", and on_exhausted says started, which a pipeline cannot mean"),
            ),
            _ => self.rejected(pipeline, &spent),
        }
    }

    /// A pipeline whose own outcome is `reject`.
    ///
    /// At the top of a plan that is the end of the road: there is nothing to send it
    /// back to and the task parks with what it was. Nested, the rejection would be
    /// its parent step's, but validation forbids nesting inside a looping pipeline,
    /// so the parent has no on_fail either, and parking is the honest answer there
    /// too.
    fn rejected(&self, pipeline: &str, why: &str) -> (r: Plan)
        ensures
            r@ == rejection(*self.policy, self.task@, pipeline@, why@),
    {
        if crate::text::holds(&self.task.plan, pipeline) {
            return park(cat5(why, ", so ", &quote(pipeline), " rejected this ", UNIT));
        }
        match self.parent_of(pipeline) {
            Some(at) => {
                assert(self.task@.plan[at as int] == self.task.plan@[at as int]@);
                park(
                    cat4(
                        why,
                        ", so it rejected — and ",
                        &quote(&self.task.plan[at]),
                        " has nowhere to send a rejection",
                    ),
                )
            },
            None => park(cat3(why, ", and nothing composes ", &quote(pipeline))),
        }
    }
}

/// The first thing to do with a freshly created task.
pub fn start(policy: &Policy, task: &Task) -> (r: Plan)
    requires
        composition_ends(*policy),
    ensures
        r@ == starts(*policy, task@),
        is_valid(*policy) && plan_is_known(*policy, task@.plan) && task.plan.len() > 0 ==> runs_at(
            r@,
            itinerary(*policy, task@.plan)[0],
        ),
{
    proof {
        if is_valid(*policy) && plan_is_known(*policy, task@.plan) && task.plan.len() > 0 {
            a_task_starts_at_the_first_place(*policy, task@);
        }
    }
    let planner = Planner { policy, task };
    if task.plan.len() > 0 {
        assert(task@.plan[0] == task.plan@[0]@);
        planner.enter(&task.plan[0])
    } else {
        Plan::Rest
    }
}

fn stranded(pipeline: &str) -> (r: Plan)
    ensures
        r@ == parks(
            "pipeline "@ + quoted(pipeline@)
                + " is not in config any more, so this "@ + UNIT@ + " is stranded"@,
        ),
{
    park(
        cat5(
            "pipeline ",
            &quote(pipeline),
            " is not in config any more, so this ",
            UNIT,
            " is stranded",
        ),
    )
}

/// Where a task goes when its current step passes.
///
/// Walking off the end of a pipeline is that pipeline passing, which is why a
/// pipeline can be used as a step: it returns an outcome like any other.
pub fn after_pass(policy: &Policy, task: &Task) -> (r: Plan)
    requires
        composition_ends(*policy),
    ensures
        r@ == passes(*policy, task@),
        forall|i: int| #[trigger]
            on_its_way(*policy, task@, i) ==> follows(*policy, task@.plan, i, r@),
{
    proof {
        assert forall|i: int| #[trigger] on_its_way(*policy, task@, i) implies follows(
            *policy,
            task@.plan,
            i,
            passes(*policy, task@),
        ) by {
            a_pass_goes_to_the_next_place(*policy, task@, i);
        }
    }
    let (pipeline, step) = match (&task.pipeline, &task.step) {
        (Some(pipeline), Some(step)) => (pipeline, step),
        // Nothing to advance from: treat it as a start rather than inventing a
        // position.
        _ => {
            return start(policy, task);
        },
    };
    let planner = Planner { policy, task };
    match policy.config.pipeline.get(pipeline) {
        None => stranded(pipeline),
        Some(p) => match p.position(step) {
            Some(index) => if index + 1 < p.steps.len() {
                planner.step_plan(pipeline, p.steps[index + 1].name())
            } else {
                // The pipeline is out of steps, so it passed.
                planner.leave(pipeline)
            },
            // The repair step is a step of this pipeline without being in its
            // sequence, so passing it means the round it was reached in can now be
            // tried properly. Otherwise config was edited under a running task: say
            // so, rather than silently restarting the pipeline from the top.
            None => if is_text(&p.on_fail, step) {
                planner.restart(pipeline, p)
            } else {
                park(
                    cat4(
                        "step ",
                        &quote(step),
                        " is no longer a step of pipeline ",
                        &quote(pipeline),
                    ),
                )
            },
        },
    }
}

/// Where a task goes when its current step rejects.
///
/// The pipeline owns its loop and its cap, so this is entirely a question about the
/// pipeline the task is in: it has somewhere for a rejection to go, or it does not,
/// and it has rounds left, or it is spent.
pub fn after_fail(policy: &Policy, task: &Task) -> (r: Plan)
    requires
        composition_ends(*policy),
        task.round < i64::MAX,
    ensures
        r@ == fails(*policy, task@),
{
    let (pipeline, step) = match (&task.pipeline, &task.step) {
        (Some(pipeline), Some(step)) => (pipeline, step),
        _ => {
            return park(copy("a rejection arrived for a task that is nowhere"));
        },
    };
    let planner = Planner { policy, task };
    match policy.config.pipeline.get(pipeline) {
        None => stranded(pipeline),
        Some(p) => match (&p.on_fail, p.max_rounds) {
            (Some(target), Some(cap)) => {
                let next: i64 = task.round + 1;
                if next >= cap as i64 {
                    planner.exhausted(pipeline, p, cap, step)
                } else {
                    // A rejection of the repair step itself goes back to the repair
                    // step: on_fail is where *any* rejection in this pipeline goes,
                    // and the cap is what makes that terminate.
                    planner.step_at(pipeline, target, next)
                }
            },
            _ => park(
                cat5(
                    "step ",
                    &quote(step),
                    " rejected and pipeline ",
                    &quote(pipeline),
                    " has no on_fail",
                ),
            ),
        },
    }
}

// ---------------------------------------------------------------------------
// What holds of a valid config
// ---------------------------------------------------------------------------

/// Each pipeline of a valid config is sound, and what it nests is flat.
pub proof fn valid_pipeline(policy: Policy, name: Seq<char>)
    requires
        is_valid(policy),
        policy.pipeline_called(name) is Some,
    ensures
        pipeline_is_sound(policy, name, policy.pipeline_called(name)->0),
        nesting_is_flat(policy, policy.pipeline_called(name)->0),
{
    reveal(is_valid);
    lookup_some(policy.pipelines(), name);
    let i = crate::table::key_index(policy.pipelines(), name)->0;
    assert(policy.pipelines()[i].0 == name);
}

/// A pipeline that a pipeline runs as a step opens with a script.
proof fn nested_opens_with_script(policy: Policy, outer: Seq<char>, inner: Seq<char>)
    requires
        is_valid(policy),
        policy.pipeline_called(outer) is Some,
        policy.pipeline_called(outer)->0.all_labels().contains(inner),
        policy.nests(inner),
    ensures
        opens_with(policy, inner) is None,
{
    valid_pipeline(policy, outer);
    let p = policy.pipeline_called(outer)->0;
    let i = p.all_labels().index_of(inner);
    let q = policy.pipeline_called(inner)->0;
    valid_pipeline(policy, inner);
    assert(p.all_labels()[i] == inner);
    assert(!policy.nests(policy.pipeline_called(p.all_labels()[i])->0.labels()[0]));
    assert(q.labels()[0] == q.steps@[0].label());
}

/// In a valid config, entering any pipeline gets somewhere.
pub proof fn valid_composition_ends(policy: Policy)
    requires
        is_valid(policy),
    ensures
        composition_ends(policy),
{
    assert forall|name: Seq<char>| #[trigger] gets_somewhere(policy, name) by {
        match opens_with(policy, name) {
            None => {
                assert(innermost(policy, name, 0) is Some);
            },
            Some(inner) => {
                let p = policy.pipeline_called(name)->0;
                assert(p.all_labels()[0] == p.steps@[0].label());
                assert(p.all_labels().contains(inner));
                nested_opens_with_script(policy, name, inner);
                assert(innermost(policy, inner, 0) is Some);
                assert(innermost(policy, name, 1) is Some);
            },
        }
    }
}

/// In a valid config, entering a pipeline goes down once, where it opens with a pipeline.
pub proof fn entering_goes_down_once(policy: Policy, name: Seq<char>)
    requires
        is_valid(policy),
    ensures
        match opens_with(policy, name) {
            None => entered(policy, name) == name,
            Some(inner) => entered(policy, name) == inner && opens_with(policy, inner) is None,
        },
{
    valid_composition_ends(policy);
    assert(gets_somewhere(policy, name));
    going_down(policy, name);
    if let Some(inner) = opens_with(policy, name) {
        let p = policy.pipeline_called(name)->0;
        assert(p.all_labels()[0] == inner);
        nested_opens_with_script(policy, name, inner);
        going_down(policy, inner);
    }
}

/// A task at a step of its plan: in a pipeline that the plan runs, or that one of
/// its pipelines runs as a step, at a round that pipeline allows.
pub open spec fn well_placed(policy: Policy, t: TaskModel) -> bool {
    &&& t.pipeline is Some && t.step is Some
    &&& plan_is_known(policy, t.plan)
    &&& policy.pipeline_called(t.pipeline->0) is Some
    &&& policy.pipeline_called(t.pipeline->0)->0.all_labels().contains(t.step->0)
    &&& t.plan.contains(t.pipeline->0) || parent(policy, t.plan, t.pipeline->0) is Some
    &&& 0 <= t.round
    &&& policy.pipeline_called(t.pipeline->0)->0.max_rounds is Some ==> t.round
        < policy.pipeline_called(t.pipeline->0)->0.max_rounds->0
}

/// Every pipeline of a plan is one of the config's.
pub open spec fn plan_is_known(policy: Policy, plan: Seq<Seq<char>>) -> bool {
    forall|i: int| 0 <= i < plan.len() ==> policy.pipeline_called(#[trigger] plan[i]) is Some
}

/// A task moved to where a plan says.
pub open spec fn moved(t: TaskModel, plan: PlanModel) -> TaskModel {
    match plan {
        PlanModel::Run { pipeline, step, round } => TaskModel {
            pipeline: Some(pipeline),
            step: Some(step),
            round,
            ..t
        },
        _ => t,
    }
}

/// A plan that runs a script at a place of the task's plan.
pub open spec fn proceeds(policy: Policy, t: TaskModel, plan: PlanModel) -> bool {
    match plan {
        PlanModel::Run { pipeline, step, round } => policy.script(step) is Some && well_placed(
            policy,
            moved(t, plan),
        ),
        _ => false,
    }
}

proof fn parent_found(policy: Policy, plan: Seq<Seq<char>>, k: int, nested: Seq<char>)
    requires
        0 <= k < plan.len(),
        policy.pipeline_called(plan[k]) is Some,
        policy.pipeline_called(plan[k])->0.labels().contains(nested),
    ensures
        parent(policy, plan, nested) is Some,
        plan.contains(parent(policy, plan, nested)->0),
        composes(policy, nested)(parent(policy, plan, nested)->0),
{
    let p = policy.pipeline_called(plan[k])->0;
    let j = p.labels().index_of(nested);
    assert(p.steps@[j].label() == nested);
    first_index_exists(p.steps@, crate::config::model::is_called(nested), j);
    first_index_exists(plan, composes(policy, nested), k);
}

/// Entering a pipeline of the plan, or one that the plan runs as a step, proceeds.
proof fn entering_proceeds(policy: Policy, t: TaskModel, name: Seq<char>, k: int)
    requires
        is_valid(policy),
        plan_is_known(policy, t.plan),
        0 <= k < t.plan.len(),
        name == t.plan[k] || (policy.nests(name) && policy.pipeline_called(
            t.plan[k],
        )->0.labels().contains(name)),
        0 <= t.round,
        t.pipeline is Some && policy.pipeline_called(t.pipeline->0) is Some
            && policy.pipeline_called(t.pipeline->0)->0.max_rounds is Some ==> t.round
            < policy.pipeline_called(t.pipeline->0)->0.max_rounds->0,
    ensures
        proceeds(policy, t, enters(policy, t, name)),
        enters(policy, t, name)->pipeline == t.pipeline->0 && t.pipeline is Some ==> enters(
            policy,
            t,
            name,
        )->round == t.round,
{
    valid_composition_ends(policy);
    assert(gets_somewhere(policy, name));
    going_down(policy, name);
    let outer = t.plan[k];
    assert(policy.pipeline_called(outer) is Some);
    let o = policy.pipeline_called(outer)->0;
    if name != outer {
        let j = o.labels().index_of(name);
        assert(o.all_labels()[j] == name);
        nested_opens_with_script(policy, outer, name);
        parent_found(policy, t.plan, k, name);
    }
    valid_pipeline(policy, name);
    let p = policy.pipeline_called(name)->0;
    let at = entered(policy, name);
    match opens_with(policy, name) {
        Some(inner) => {
            assert(p.labels()[0] == inner);
            assert(p.all_labels()[0] == inner);
            nested_opens_with_script(policy, name, inner);
            assert(gets_somewhere(policy, inner));
            going_down(policy, inner);
            assert(at == inner);
            parent_found(policy, t.plan, k, inner);
        },
        None => {},
    }
    valid_pipeline(policy, at);
    let q = policy.pipeline_called(at)->0;
    assert(opens_with(policy, at) is None);
    assert(crate::config::validate::step_is_sound(policy, at, q.steps@[0]));
    assert(q.all_labels()[0] == q.steps@[0].label());
}

/// A step in the sequence of a pipeline of the plan proceeds.
proof fn stepping_proceeds(
    policy: Policy,
    t: TaskModel,
    outer: Seq<char>,
    j: int,
    round: i64,
)
    requires
        is_valid(policy),
        plan_is_known(policy, t.plan),
        t.plan.contains(outer) || (parent(policy, t.plan, outer) is Some && t.pipeline == Some(
            outer,
        )),
        policy.pipeline_called(outer) is Some,
        0 <= j < policy.pipeline_called(outer)->0.steps@.len(),
        0 <= round,
        policy.pipeline_called(outer)->0.max_rounds is Some ==> round < policy.pipeline_called(
            outer,
        )->0.max_rounds->0,
        0 <= t.round,
        t.pipeline is Some && policy.pipeline_called(t.pipeline->0) is Some
            && policy.pipeline_called(t.pipeline->0)->0.max_rounds is Some ==> t.round
            < policy.pipeline_called(t.pipeline->0)->0.max_rounds->0,
    ensures
        proceeds(
            policy,
            t,
            goes_to(policy, t, outer, policy.pipeline_called(outer)->0.steps@[j].label(), round),
        ),
{
    valid_pipeline(policy, outer);
    let o = policy.pipeline_called(outer)->0;
    let step = o.steps@[j].label();
    assert(o.all_labels()[j] == step);
    assert(o.labels()[j] == step);
    assert(crate::config::validate::step_is_sound(policy, outer, o.steps@[j]));
    if policy.nests(step) {
        if t.plan.contains(outer) {
            let k = t.plan.index_of(outer);
            entering_proceeds(policy, t, step, k);
        } else {
            nested_steps_are_scripts(policy, t.plan, outer, j);
        }
    }
}

/// A pipeline that the plan runs as a step runs no pipeline itself.
pub proof fn nested_steps_are_scripts(policy: Policy, plan: Seq<Seq<char>>, name: Seq<char>, j: int)
    requires
        is_valid(policy),
        plan_is_known(policy, plan),
        policy.pipeline_called(name) is Some,
        !plan.contains(name),
        parent(policy, plan, name) is Some,
        0 <= j < policy.pipeline_called(name)->0.steps@.len(),
    ensures
        !policy.nests(policy.pipeline_called(name)->0.steps@[j].label()),
        policy.nests(name),
{
    let (k, i) = parent_place(policy, plan, name);
    let outer = plan[k];
    valid_pipeline(policy, outer);
    let o = policy.pipeline_called(outer)->0;
    assert(o.all_labels()[i] == name);
    assert(crate::config::validate::step_is_sound(policy, outer, o.steps@[i]));
    assert(name != outer) by {
        assert(plan.contains(outer));
    }
    let q = policy.pipeline_called(name)->0;
    assert(policy.nests(o.all_labels()[i]));
    assert(!policy.nests(policy.pipeline_called(o.all_labels()[i])->0.labels()[j]));
}

/// Where in a plan a nested pipeline is composed, and at which step.
pub proof fn parent_place(policy: Policy, plan: Seq<Seq<char>>, nested: Seq<char>) -> (r: (
    int,
    int,
))
    requires
        parent(policy, plan, nested) is Some,
    ensures
        0 <= r.0 < plan.len(),
        plan[r.0] == parent(policy, plan, nested)->0,
        first_index(plan, composes(policy, nested)) == Some(r.0),
        policy.pipeline_called(plan[r.0]) is Some,
        policy.pipeline_called(plan[r.0])->0.place(nested) == Some(r.1),
        0 <= r.1 < policy.pipeline_called(plan[r.0])->0.steps@.len(),
        policy.pipeline_called(plan[r.0])->0.steps@[r.1].label() == nested,
{
    first_index_is_first(plan, composes(policy, nested));
    let k = first_index(plan, composes(policy, nested))->0;
    let p = policy.pipeline_called(plan[k])->0;
    first_index_is_first(p.steps@, crate::config::model::is_called(nested));
    (k, p.place(nested)->0)
}

/// Going on in the plan proceeds, or the task comes to rest.
proof fn going_on_proceeds(policy: Policy, t: TaskModel, index: int)
    requires
        is_valid(policy),
        well_placed(policy, t),
        0 <= index < t.plan.len(),
    ensures
        after_top(policy, t, index) is Rest || proceeds(policy, t, after_top(policy, t, index)),
{
    if index + 1 < t.plan.len() {
        entering_proceeds(policy, t, t.plan[index + 1], index + 1);
    }
}

/// Leaving a pipeline proceeds, or the task comes to rest.
proof fn leaving_proceeds(policy: Policy, t: TaskModel)
    requires
        is_valid(policy),
        well_placed(policy, t),
    ensures
        leaves(policy, t, t.pipeline->0) is Rest || proceeds(
            policy,
            t,
            leaves(policy, t, t.pipeline->0),
        ),
{
    let name = t.pipeline->0;
    let here = is_name(name);
    if t.plan.contains(name) {
        let k = t.plan.index_of(name);
        first_index_exists(t.plan, here, k);
        going_on_proceeds(policy, t, first_index(t.plan, here)->0);
    } else {
        assert forall|j: int| 0 <= j < t.plan.len() implies !here(#[trigger] t.plan[j]) by {
            if t.plan[j] == name {
                assert(t.plan.contains(name));
            }
        }
        first_index_absent(t.plan, here);
        let (k, i) = parent_place(policy, t.plan, name);
        let outer = t.plan[k];
        let o = policy.pipeline_called(outer)->0;
        assert(t.plan.contains(outer));
        if i + 1 < o.steps@.len() {
            valid_pipeline(policy, outer);
            stepping_proceeds(policy, t, outer, i + 1, carried(t, outer));
        } else {
            first_index_exists(t.plan, is_name(outer), k);
            going_on_proceeds(policy, t, first_index(t.plan, is_name(outer))->0);
        }
    }
}

/// Under a valid config, a task whose plan is of its pipelines starts with a script
/// at a place of the plan, and an empty plan rests: it never parks.
pub proof fn starting_never_parks(policy: Policy, t: TaskModel)
    requires
        is_valid(policy),
        plan_is_known(policy, t.plan),
        t.pipeline is None,
        t.round == 0,
    ensures
        t.plan.len() == 0 ==> starts(policy, t) is Rest,
        t.plan.len() > 0 ==> proceeds(policy, t, starts(policy, t)),
{
    if t.plan.len() > 0 {
        entering_proceeds(policy, t, t.plan[0], 0);
    }
}

/// Under a valid config, a pass of a well placed task leads to a script at a place
/// of its plan, or to rest: it never parks.
pub proof fn passing_never_parks(policy: Policy, t: TaskModel)
    requires
        is_valid(policy),
        well_placed(policy, t),
    ensures
        passes(policy, t) is Rest || proceeds(policy, t, passes(policy, t)),
{
    let name = t.pipeline->0;
    let step = t.step->0;
    let p = policy.pipeline_called(name)->0;
    valid_pipeline(policy, name);
    match p.place(step) {
        Some(index) => {
            first_index_is_first(p.steps@, crate::config::model::is_called(step));
            if index + 1 < p.steps@.len() {
                stepping_proceeds(policy, t, name, index + 1, carried(t, name));
            } else {
                leaving_proceeds(policy, t);
            }
        },
        None => {
            crate::table::nowhere_first(p.steps@, crate::config::model::is_called(step));
            let all = p.all_labels();
            let i = all.index_of(step);
            if i < p.steps@.len() {
                assert(p.labels()[i] == step);
                assert(!crate::config::model::is_called(step)(p.steps@[i]));
            }
            assert(p.on_fail.deep_view() == Some(step));
            stepping_proceeds(policy, t, name, 0, t.round);
        },
    }
}

/// Under a valid config, a rejection of a well placed task parks where its pipeline
/// has nowhere to send it. Where it has, and the cap is not spent, the repair step
/// runs at the next round, which is below the cap. Where the cap is spent, the
/// pipeline's own outcome decides.
pub proof fn rejections_are_bounded(policy: Policy, t: TaskModel)
    requires
        is_valid(policy),
        well_placed(policy, t),
    ensures
        ({
            let name = t.pipeline->0;
            let p = policy.pipeline_called(name)->0;
            let next = fails(policy, t);
            match p.on_fail {
                None => next is Park,
                Some(repair) => if t.round + 1 < p.max_rounds->0 {
                    &&& next == (PlanModel::Run {
                        pipeline: name,
                        step: repair@,
                        round: (t.round + 1) as i64,
                    })
                    &&& proceeds(policy, t, next)
                } else {
                    next == exhausts(policy, t, name, p, t.step->0) && if p.on_exhausted == Some(
                        Outcome::Pass,
                    ) {
                        next is Rest || proceeds(policy, t, next)
                    } else {
                        next is Park
                    }
                },
            }
        }),
{
    let name = t.pipeline->0;
    let p = policy.pipeline_called(name)->0;
    valid_pipeline(policy, name);
    if p.on_fail is Some {
        let repair = p.on_fail->0@;
        let all = p.all_labels();
        assert(all[p.steps@.len() as int] == repair);
        assert(!policy.nests(repair));
        if p.on_exhausted == Some(Outcome::Pass) {
            leaving_proceeds(policy, t);
        }
    }
}

// ---------------------------------------------------------------------------
// What holds of any config
// ---------------------------------------------------------------------------

/// A round belongs to its pipeline: wherever starting a task or passing its step leads, the
/// round stays what it is in the pipeline that the task is in, and is none in any other.
pub proof fn a_round_belongs_to_its_pipeline(policy: Policy, t: TaskModel)
    ensures
        passes(policy, t) matches PlanModel::Run { pipeline, round, .. } ==> round == (
        if t.pipeline == Some(pipeline) {
            t.round
        } else {
            0
        }),
        starts(policy, t) matches PlanModel::Run { pipeline, round, .. } ==> round == (
        if t.pipeline == Some(pipeline) {
            t.round
        } else {
            0
        }),
{
}

/// A rejection that leads to a script either goes to the repair step of the same pipeline,
/// at the next round, while that is below the cap, or it spends the cap of a pipeline that
/// then passes, and goes on as a pass does: at the same round only in the same pipeline.
pub proof fn a_rejection_counts_a_round(policy: Policy, t: TaskModel)
    requires
        t.round < i64::MAX,
        fails(policy, t) is Run,
    ensures
        t.pipeline is Some && t.step is Some,
        policy.pipeline_called(t.pipeline->0) is Some,
        ({
            let p = policy.pipeline_called(t.pipeline->0)->0;
            let next = fails(policy, t);
            &&& p.on_fail is Some && p.max_rounds is Some
            &&& t.round + 1 < p.max_rounds->0 && policy.script(p.on_fail->0@) is Some ==> next == (
            PlanModel::Run {
                pipeline: t.pipeline->0,
                step: p.on_fail->0@,
                round: (t.round + 1) as i64,
            })
            &&& t.round + 1 >= p.max_rounds->0 ==> {
                &&& p.on_exhausted == Some(Outcome::Pass)
                &&& next->round == (if t.pipeline == Some(next->pipeline) {
                    t.round
                } else {
                    0
                })
            }
        }),
{
}

/// A rejection parks where there is no repair step, and where the cap is spent, unless the
/// pipeline then passes. While the cap is not spent and the repair step is a script, it runs.
pub proof fn a_rejection_parks_or_is_repaired(policy: Policy, t: TaskModel)
    requires
        t.round < i64::MAX,
        t.pipeline is Some && t.step is Some,
        policy.pipeline_called(t.pipeline->0) is Some,
    ensures
        ({
            let p = policy.pipeline_called(t.pipeline->0)->0;
            let next = fails(policy, t);
            &&& p.on_fail is None || p.max_rounds is None ==> next is Park
            &&& p.on_fail is Some && p.max_rounds is Some && t.round + 1 >= p.max_rounds->0
                && p.on_exhausted != Some(Outcome::Pass) ==> next is Park
            &&& p.on_fail is Some && p.max_rounds is Some && t.round + 1 < p.max_rounds->0
                && policy.script(p.on_fail->0@) is Some ==> next == (PlanModel::Run {
                pipeline: t.pipeline->0,
                step: p.on_fail->0@,
                round: (t.round + 1) as i64,
            })
        }),
{
}

/// A task that is nowhere starts when it passes, and is parked when it is rejected. One in a
/// pipeline that the config does not have is parked either way, and one at a step that its
/// pipeline does not have is parked when it passes: nothing is started over in silence.
pub proof fn a_lost_task_is_parked(policy: Policy, t: TaskModel)
    ensures
        t.pipeline is None || t.step is None ==> passes(policy, t) == starts(policy, t) && fails(
            policy,
            t,
        ) is Park,
        t.pipeline is Some && t.step is Some && policy.pipeline_called(t.pipeline->0) is None
            ==> passes(policy, t) is Park && fails(policy, t) is Park,
        t.pipeline is Some && t.step is Some && policy.pipeline_called(t.pipeline->0) is Some
            && !policy.pipeline_called(t.pipeline->0)->0.all_labels().contains(t.step->0)
            ==> passes(policy, t) is Park,
{
    if t.pipeline is Some && t.step is Some && policy.pipeline_called(t.pipeline->0) is Some {
        let p = policy.pipeline_called(t.pipeline->0)->0;
        p.steps_are_labelled(t.step->0);
    }
}

/// A pass goes on to the next step of the pipeline, at the same round, where that is a
/// script.
pub proof fn a_pass_goes_to_the_next_step(policy: Policy, t: TaskModel, j: int)
    requires
        t.pipeline is Some && t.step is Some,
        policy.pipeline_called(t.pipeline->0) is Some,
        0 <= j,
        j + 1 < policy.pipeline_called(t.pipeline->0)->0.steps@.len(),
        policy.pipeline_called(t.pipeline->0)->0.labels().no_duplicates(),
        policy.pipeline_called(t.pipeline->0)->0.labels()[j] == t.step->0,
        policy.script(policy.pipeline_called(t.pipeline->0)->0.labels()[j + 1]) is Some,
    ensures
        passes(policy, t) == (PlanModel::Run {
            pipeline: t.pipeline->0,
            step: policy.pipeline_called(t.pipeline->0)->0.labels()[j + 1],
            round: t.round,
        }),
{
    step_stands_at(policy.pipeline_called(t.pipeline->0)->0, j);
}

proof fn step_stands_at(p: Pipeline, j: int)
    requires
        p.labels().no_duplicates(),
        0 <= j < p.steps@.len(),
    ensures
        p.place(p.labels()[j]) == Some(j),
{
    let called = crate::config::model::is_called(p.labels()[j]);
    assert forall|i: int| 0 <= i < j implies !called(#[trigger] p.steps@[i]) by {
        assert(p.labels()[i] != p.labels()[j]);
    }
    first_index_found(p.steps@, called, j);
}

/// A pass of the last step of a pipeline goes to the first step of the next in the plan, in
/// its first round, where that is a script; and to rest where the plan has no more.
pub proof fn a_pass_goes_to_the_next_pipeline(policy: Policy, t: TaskModel, k: int)
    requires
        t.pipeline is Some && t.step is Some,
        policy.pipeline_called(t.pipeline->0) is Some,
        policy.pipeline_called(t.pipeline->0)->0.steps@.len() > 0,
        policy.pipeline_called(t.pipeline->0)->0.labels().no_duplicates(),
        policy.pipeline_called(t.pipeline->0)->0.labels().last() == t.step->0,
        t.plan.no_duplicates(),
        0 <= k < t.plan.len(),
        t.plan[k] == t.pipeline->0,
    ensures
        k + 1 == t.plan.len() ==> passes(policy, t) is Rest,
        k + 1 < t.plan.len() && policy.pipeline_called(t.plan[k + 1]) is None ==> passes(
            policy,
            t,
        ) is Park,
        ({
            let q = policy.pipeline_called(t.plan[k + 1]);
            k + 1 < t.plan.len() && q is Some && q->0.steps@.len() > 0 && policy.script(
                q->0.labels()[0],
            ) is Some ==> passes(policy, t) == (PlanModel::Run {
                pipeline: t.plan[k + 1],
                step: q->0.labels()[0],
                round: 0,
            })
        }),
{
    let p = policy.pipeline_called(t.pipeline->0)->0;
    step_stands_at(p, p.steps@.len() - 1);
    let here = is_name(t.pipeline->0);
    assert forall|i: int| 0 <= i < k implies !here(#[trigger] t.plan[i]) by {
        assert(t.plan[i] != t.plan[k]);
    }
    first_index_found(t.plan, here, k);
    if k + 1 < t.plan.len() {
        assert(t.plan[k + 1] != t.plan[k]);
        let next = t.plan[k + 1];
        let q = policy.pipeline_called(next);
        if q is Some && q->0.steps@.len() > 0 && policy.script(q->0.labels()[0]) is Some {
            assert(opens_with(policy, next) is None);
            assert(innermost(policy, next, 0) == Some(next));
        }
    }
}

/// A task starts at the first step of the first pipeline of its plan, where that is a
/// script, and rests where its plan is empty.
pub proof fn a_plan_is_begun_at_its_top(policy: Policy, t: TaskModel)
    requires
        t.pipeline is None,
    ensures
        t.plan.len() == 0 ==> starts(policy, t) is Rest,
        t.plan.len() > 0 && policy.pipeline_called(t.plan[0]) is None ==> starts(
            policy,
            t,
        ) is Park,
        ({
            let q = policy.pipeline_called(t.plan[0]);
            t.plan.len() > 0 && q is Some && q->0.steps@.len() > 0 && policy.script(
                q->0.labels()[0],
            ) is Some ==> starts(policy, t) == (PlanModel::Run {
                pipeline: t.plan[0],
                step: q->0.labels()[0],
                round: 0,
            })
        }),
{
    if t.plan.len() > 0 {
        let next = t.plan[0];
        let q = policy.pipeline_called(next);
        if q is Some && q->0.steps@.len() > 0 && policy.script(q->0.labels()[0]) is Some {
            assert(opens_with(policy, next) is None);
            assert(innermost(policy, next, 0) == Some(next));
        }
    }
}

/// A pass of the repair step goes back to the first step of its pipeline, at the round that
/// the rejection set, where that is a script.
pub proof fn a_repair_is_tried_from_the_top(policy: Policy, t: TaskModel)
    requires
        t.pipeline is Some && t.step is Some,
        policy.pipeline_called(t.pipeline->0) is Some,
        policy.pipeline_called(t.pipeline->0)->0.on_fail.deep_view() == t.step,
        !policy.pipeline_called(t.pipeline->0)->0.labels().contains(t.step->0),
        policy.pipeline_called(t.pipeline->0)->0.steps@.len() > 0,
        policy.script(policy.pipeline_called(t.pipeline->0)->0.labels()[0]) is Some,
    ensures
        passes(policy, t) == (PlanModel::Run {
            pipeline: t.pipeline->0,
            step: policy.pipeline_called(t.pipeline->0)->0.labels()[0],
            round: t.round,
        }),
{
    let p = policy.pipeline_called(t.pipeline->0)->0;
    let called = crate::config::model::is_called(t.step->0);
    assert forall|i: int| 0 <= i < p.steps@.len() implies !called(#[trigger] p.steps@[i]) by {
        assert(p.labels()[i] == p.steps@[i].label());
    }
    first_index_absent(p.steps@, called);
}

/// A pass that comes to a step that is a pipeline goes down to the first step of that, where
/// it is a script: in its first round, unless the task is in that pipeline already.
pub proof fn a_pass_goes_down_into_a_pipeline(policy: Policy, t: TaskModel, j: int)
    requires
        t.pipeline is Some && t.step is Some,
        policy.pipeline_called(t.pipeline->0) is Some,
        0 <= j,
        j + 1 < policy.pipeline_called(t.pipeline->0)->0.steps@.len(),
        policy.pipeline_called(t.pipeline->0)->0.labels().no_duplicates(),
        policy.pipeline_called(t.pipeline->0)->0.labels()[j] == t.step->0,
    ensures
        ({
            let name = policy.pipeline_called(t.pipeline->0)->0.labels()[j + 1];
            let inner = policy.pipeline_called(name);
            policy.script(name) is None && inner is Some && inner->0.steps@.len() > 0
                && policy.script(inner->0.labels()[0]) is Some ==> passes(policy, t) == (
            PlanModel::Run {
                pipeline: name,
                step: inner->0.labels()[0],
                round: if name == t.pipeline->0 {
                    t.round
                } else {
                    0
                },
            })
        }),
{
    let p = policy.pipeline_called(t.pipeline->0)->0;
    step_stands_at(p, j);
    let name = p.labels()[j + 1];
    let inner = policy.pipeline_called(name);
    if policy.script(name) is None && inner is Some && inner->0.steps@.len() > 0 && policy.script(
        inner->0.labels()[0],
    ) is Some {
        assert(opens_with(policy, name) is None);
        assert(innermost(policy, name, 0) == Some(name));
    }
}

/// A pass of the last step of a pipeline that the plan does not name goes on in the first
/// pipeline of the plan that runs it: to the step behind it there, at that pipeline's own
/// round, where that is a script; and on in the plan where there is no step behind it. One
/// that no pipeline of the plan runs leaves the task parked.
pub proof fn a_pass_comes_up_from_a_pipeline(policy: Policy, t: TaskModel, k: int, j: int)
    requires
        t.pipeline is Some && t.step is Some,
        policy.pipeline_called(t.pipeline->0) is Some,
        policy.pipeline_called(t.pipeline->0)->0.steps@.len() > 0,
        policy.pipeline_called(t.pipeline->0)->0.labels().no_duplicates(),
        policy.pipeline_called(t.pipeline->0)->0.labels().last() == t.step->0,
        !t.plan.contains(t.pipeline->0),
        t.plan.no_duplicates(),
    ensures
        (forall|l: int|
            0 <= l < t.plan.len() ==> policy.pipeline_called(#[trigger] t.plan[l]) is None
                || !policy.pipeline_called(t.plan[l])->0.labels().contains(t.pipeline->0))
            ==> passes(policy, t) is Park,
        ({
            let outer = policy.pipeline_called(t.plan[k]);
            0 <= k < t.plan.len() && outer is Some && 0 <= j < outer->0.steps@.len()
                && outer->0.labels().no_duplicates() && outer->0.labels()[j] == t.pipeline->0 && (
            forall|l: int|
                0 <= l < k ==> policy.pipeline_called(#[trigger] t.plan[l]) is None
                    || !policy.pipeline_called(t.plan[l])->0.labels().contains(t.pipeline->0)) ==> {
                &&& j + 1 < outer->0.steps@.len() && policy.script(outer->0.labels()[j + 1]) is Some
                    ==> passes(policy, t) == (PlanModel::Run {
                    pipeline: t.plan[k],
                    step: outer->0.labels()[j + 1],
                    round: 0,
                })
                &&& j + 1 == outer->0.steps@.len() && k + 1 == t.plan.len() ==> passes(
                    policy,
                    t,
                ) is Rest
            }
        }),
{
    let name = t.pipeline->0;
    let p = policy.pipeline_called(name)->0;
    step_stands_at(p, p.steps@.len() - 1);
    let here = is_name(name);
    assert forall|i: int| 0 <= i < t.plan.len() implies !here(#[trigger] t.plan[i]) by {
        assert(t.plan.contains(t.plan[i]));
    }
    first_index_absent(t.plan, here);
    let runs_it = composes(policy, name);
    assert forall|l: int| 0 <= l < t.plan.len() implies (#[trigger] runs_it(t.plan[l])
        <==> policy.pipeline_called(t.plan[l]) is Some && policy.pipeline_called(
        t.plan[l],
    )->0.labels().contains(name)) by {
        if policy.pipeline_called(t.plan[l]) is Some {
            labelled_is_placed(policy.pipeline_called(t.plan[l])->0, name);
        }
    }
    if forall|l: int|
        0 <= l < t.plan.len() ==> policy.pipeline_called(#[trigger] t.plan[l]) is None
            || !policy.pipeline_called(t.plan[l])->0.labels().contains(name) {
        assert forall|l: int| 0 <= l < t.plan.len() implies !runs_it(#[trigger] t.plan[l]) by {}
        first_index_absent(t.plan, runs_it);
    }
    let outer = policy.pipeline_called(t.plan[k]);
    if 0 <= k < t.plan.len() && outer is Some && 0 <= j < outer->0.steps@.len()
        && outer->0.labels().no_duplicates() && outer->0.labels()[j] == name && (forall|l: int|
        0 <= l < k ==> policy.pipeline_called(#[trigger] t.plan[l]) is None
            || !policy.pipeline_called(t.plan[l])->0.labels().contains(name)) {
        assert(runs_it(t.plan[k]));
        assert forall|l: int| 0 <= l < k implies !runs_it(#[trigger] t.plan[l]) by {}
        first_index_found(t.plan, runs_it, k);
        step_stands_at(outer->0, j);
        assert(t.plan.contains(t.plan[k]));
        let there = is_name(t.plan[k]);
        assert forall|i: int| 0 <= i < k implies !there(#[trigger] t.plan[i]) by {
            assert(t.plan[i] != t.plan[k]);
        }
        first_index_found(t.plan, there, k);
    }
}

proof fn labelled_is_placed(p: Pipeline, name: Seq<char>)
    ensures
        p.place(name) is Some <==> p.labels().contains(name),
{
    let called = crate::config::model::is_called(name);
    if p.labels().contains(name) {
        let i = p.labels().index_of(name);
        assert(called(p.steps@[i]));
        first_index_exists(p.steps@, called, i);
    }
    if p.place(name) is Some {
        first_index_is_first(p.steps@, called);
        assert(p.labels()[p.place(name)->0] == name);
    }
}

/// A pass that parks says which pipeline it came from, or cannot go on to. A rejection that
/// parks says which step was rejected, and in which pipeline; one that spent the cap says
/// how many rounds that was.
pub proof fn parking_says_where(policy: Policy, t: TaskModel)
    requires
        t.round < i64::MAX,
        t.pipeline is Some && t.step is Some,
    ensures
        ({
            let name = t.pipeline->0;
            let p = policy.pipeline_called(name);
            &&& p is None ==> mentions(passes(policy, t)->reason, quoted(name)) && mentions(
                fails(policy, t)->reason,
                quoted(name),
            )
            &&& p is Some && !p->0.all_labels().contains(t.step->0) ==> mentions(
                passes(policy, t)->reason,
                quoted(name),
            ) && mentions(passes(policy, t)->reason, quoted(t.step->0))
            &&& p is Some && fails(policy, t) is Park && (p->0.on_fail is None
                || p->0.max_rounds is None || t.round + 1 >= p->0.max_rounds->0)
                && p->0.on_exhausted != Some(Outcome::Pass) ==> mentions(
                fails(policy, t)->reason,
                quoted(name),
            ) && mentions(fails(policy, t)->reason, quoted(t.step->0))
            &&& p is Some && fails(policy, t) is Park && p->0.on_fail is Some
                && p->0.max_rounds is Some && t.round + 1 >= p->0.max_rounds->0
                && p->0.on_exhausted != Some(Outcome::Pass) ==> mentions(
                fails(policy, t)->reason,
                nat_text(p->0.max_rounds->0 as nat),
            )
        }),
{
    let name = t.pipeline->0;
    let step = t.step->0;
    match policy.pipeline_called(name) {
        None => {
            let rest = " is not in config any more, so this "@ + UNIT@ + " is stranded"@;
            parts_are_mentioned("pipeline "@, quoted(name), rest);
            assert("pipeline "@ + quoted(name) + rest =~= passes(policy, t)->reason);
        },
        Some(p) => {
            if !p.all_labels().contains(step) {
                p.steps_are_labelled(step);
                let reason = passes(policy, t)->reason;
                let middle = " is no longer a step of pipeline "@;
                parts_are_mentioned("step "@, quoted(step), middle + quoted(name));
                assert("step "@ + quoted(step) + (middle + quoted(name)) =~= reason);
                parts_are_mentioned("step "@ + quoted(step) + middle, quoted(name), Seq::empty());
            }
            if p.on_fail is None || p.max_rounds is None {
                let reason = fails(policy, t)->reason;
                let a = " rejected and pipeline "@;
                let b = " has no on_fail"@;
                parts_are_mentioned("step "@, quoted(step), a + quoted(name) + b);
                assert("step "@ + quoted(step) + (a + quoted(name) + b) =~= reason);
                parts_are_mentioned("step "@ + quoted(step) + a, quoted(name), b);
            } else if t.round + 1 >= p.max_rounds->0 && p.on_exhausted != Some(Outcome::Pass) {
                spent_is_told(policy, t, p);
            }
        },
    }
}

proof fn spent_is_told(policy: Policy, t: TaskModel, p: Pipeline)
    requires
        t.round < i64::MAX,
        t.pipeline is Some && t.step is Some,
        policy.pipeline_called(t.pipeline->0) == Some(p),
        p.on_fail is Some && p.max_rounds is Some,
        t.round + 1 >= p.max_rounds->0,
        p.on_exhausted != Some(Outcome::Pass),
    ensures
        fails(policy, t) is Park,
        mentions(fails(policy, t)->reason, quoted(t.pipeline->0)),
        mentions(fails(policy, t)->reason, quoted(t.step->0)),
        mentions(fails(policy, t)->reason, nat_text(p.max_rounds->0 as nat)),
{
    let name = t.pipeline->0;
    let step = t.step->0;
    let cap = nat_text(p.max_rounds->0 as nat);
    let none = Seq::<char>::empty();
    let a = "pipeline "@;
    let b = " rejected "@;
    let c = " in all "@;
    let d = " rounds"@;
    let spent = a + quoted(name) + b + quoted(step) + c + cap + d;
    parts_are_mentioned(a, quoted(name), b + quoted(step) + c + cap + d);
    assert(a + quoted(name) + (b + quoted(step) + c + cap + d) =~= spent);
    parts_are_mentioned(a + quoted(name) + b, quoted(step), c + cap + d);
    assert(a + quoted(name) + b + quoted(step) + (c + cap + d) =~= spent);
    parts_are_mentioned(a + quoted(name) + b + quoted(step) + c, cap, d);
    let reason = fails(policy, t)->reason;
    let rest = reason.skip(spent.len() as int);
    assert(reason =~= spent + rest);
    what_a_part_mentions(none, spent, rest, quoted(name));
    what_a_part_mentions(none, spent, rest, quoted(step));
    what_a_part_mentions(none, spent, rest, cap);
}

} // verus!
