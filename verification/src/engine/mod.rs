//! The state machine. Every change to a task is decided here, because the CLI and
//! the supervisor are both writers and consistency comes from shared code rather
//! than from a transport.
//!
//! - [`plan`]: where a task goes next.
//! - [`itinerary`]: the places a task goes through, in order.
//! - [`flow`]: the core: start a step, record its result, decide what follows.
//! - [`lifecycle`]: the CLI's verbs: create, park, retry, re-run, cancel.
//! - [`checks`]: verdicts about commits, from scripts, agents and people.
//! - [`binding`]: tying a Herdr pane (and worktree) to a task.
//! - [`recovery`]: re-queueing steps orphaned by a dead supervisor.
//! - [`resolve`]: redeeming deferred steps from Herdr's raw events.
//! - [`transition`]: what a decision does to a row.
//! - [`laws`]: what holds of all of them together.

pub mod binding;
pub mod checks;
pub mod flow;
pub mod itinerary;
pub mod laws;
pub mod lifecycle;
pub mod plan;
pub mod policy;
pub mod recovery;
pub mod resolve;
pub mod step;
pub mod transition;

pub use binding::{bind_pane, Binding};
pub use checks::{settle_by_signal, submit_check, Submission};
pub use flow::{begin_step, finish_step, Started};
pub use lifecycle::{cancel, create_task, park_task, retry, run_pipeline};
pub use plan::Plan;
pub use policy::{awaits_human, policy_for};
pub use recovery::recover_orphans;
pub use resolve::{drain, AgentStatus, Drained};
pub use step::{environment, StepAt, StepReport, StepSpec};
pub use transition::{transition, Applied, Decision, Outcome as TransitionOutcome};
