//! What the engine asks of a policy.

use crate::config::{Policy, Step};
use crate::db::task::Task;
use crate::error::{Error, ErrorModel};
use crate::text::{cat4, same};
use vstd::prelude::*;

verus! {

/// Does a pipeline wait on a person: does a step of it await the signal `human`?
pub open spec fn waits_on_human(policy: Policy, pipeline: Seq<char>) -> bool {
    match policy.pipeline_called(pipeline) {
        Some(p) => exists|i: int|
            0 <= i < p.steps@.len() && (#[trigger] p.steps@[i]).awaited() == Some("human"@),
        None => false,
    }
}

/// Does this pipeline wait on a person?
pub fn awaits_human(policy: &Policy, pipeline: &str) -> (r: bool)
    ensures
        r == waits_on_human(*policy, pipeline@),
{
    match policy.config.pipeline.get(pipeline) {
        Some(p) => {
            for i in 0..p.steps.len()
                invariant
                    policy.pipeline_called(pipeline@) == Some(*p),
                    forall|j: int|
                        0 <= j < i ==> (#[trigger] p.steps@[j]).awaited() != Some("human"@),
            {
                if let Some(signal) = p.steps[i].await_on() {
                    if same(signal, "human") {
                        assert(p.steps@[i as int].awaited() == Some("human"@));
                        return true;
                    }
                }
            }
            false
        },
        None => false,
    }
}

/// What is said of a task whose policy will not load.
pub fn policy_failure(task_id: &str, why: &Error) -> (r: Error)
    ensures
        r@ == ErrorModel::Other("task "@ + task_id@ + " cannot run: "@ + why@.text()),
{
    Error::Other(cat4("task ", task_id, " cannot run: ", &why.message()))
}

/// The policy governing a task, by what loading it from the task's repo gave.
///
/// Loaded per task rather than once, because config is per repo root and two tasks in
/// flight may be governed by different files.
pub fn policy_for(task: &Task, loaded: Result<Policy, Error>) -> (r: Result<Policy, Error>)
    ensures
        match loaded {
            Ok(p) => r == Ok::<Policy, Error>(p),
            Err(e) => r matches Err(f) && f@ == ErrorModel::Other(
                "task "@ + task@.id + " cannot run: "@ + e@.text(),
            ),
        },
{
    match loaded {
        Ok(p) => Ok(p),
        Err(e) => Err(policy_failure(&task.id, &e)),
    }
}

/// A pipeline waits on a person exactly where one of its steps is written to await `human`.
pub proof fn a_person_is_awaited_by_name(policy: Policy, pipeline: Seq<char>)
    ensures
        policy.pipeline_called(pipeline) is None ==> !waits_on_human(policy, pipeline),
        policy.pipeline_called(pipeline) is Some ==> (waits_on_human(policy, pipeline)
            <==> exists|i: int|
            0 <= i < policy.pipeline_called(pipeline)->0.steps@.len() && (
            #[trigger] policy.pipeline_called(pipeline)->0.steps@[i] matches Step::Spec(def)
                && def.await_on is Some && def.await_on->0@ == "human"@)),
{
    if let Some(p) = policy.pipeline_called(pipeline) {
        if waits_on_human(policy, pipeline) {
            let i = choose|i: int|
                0 <= i < p.steps@.len() && (#[trigger] p.steps@[i]).awaited() == Some("human"@);
            assert(p.steps@[i] is Spec);
        }
        if exists|i: int|
            0 <= i < p.steps@.len() && (#[trigger] p.steps@[i] matches Step::Spec(def)
                && def.await_on is Some && def.await_on->0@ == "human"@) {
            let i = choose|i: int|
                0 <= i < p.steps@.len() && (#[trigger] p.steps@[i] matches Step::Spec(def)
                    && def.await_on is Some && def.await_on->0@ == "human"@);
            assert(p.steps@[i].awaited() == Some("human"@));
        }
    }
}

} // verus!
