//! The config validation rules, plus three the data model forces.
//!
//! Every rule reports rather than returns, so one pass tells you everything
//! that is wrong with a config instead of the first thing.

use super::cycles::{
    all_cycle_shapes, all_walks_report_cycles, cycle_has_shape, cycle_of, find_cycles, found_from,
    is_cycle, is_walk,
};
use super::model::{duration, StepKindModel};
use super::{parse_duration, Pipeline, Policy, Step, StepKind, TaskType};
use crate::flat::{flat, flat_empty, flat_step};
use crate::order::{
    add_name, enumerates, in_order, list_order, list_order_is_order, listing, listing_exists,
    listing_is, name_order, name_order_is_order,
};
use crate::outcome::Outcome;
use crate::table::lookup_at;
use crate::text::{
    blank, cat2, cat3, cat4, cat5, copy, is_blank, join, joined, list, listed, natural, nat_text,
    push_deep, quote, quoted, same,
};
use vstd::prelude::*;
use vstd::string::*;

verus! {

/// One thing wrong, addressed to where it is wrong.
#[derive(Debug)]
pub struct Problem {
    /// `pipeline.review`, `type.feature`, or `config`.
    pub at: String,
    pub message: String,
    /// What to do about it, when that is not obvious from the message.
    pub hint: Option<String>,
}

#[verifier::ext_equal]
pub struct ProblemModel {
    pub at: Seq<char>,
    pub message: Seq<char>,
    pub hint: Option<Seq<char>>,
}

impl View for Problem {
    type V = ProblemModel;

    open spec fn view(&self) -> ProblemModel {
        ProblemModel { at: self.at@, message: self.message@, hint: self.hint.deep_view() }
    }
}

impl DeepView for Problem {
    type V = ProblemModel;

    open spec fn deep_view(&self) -> ProblemModel {
        self@
    }
}

/// A problem that speaks for itself.
pub open spec fn plain(at: Seq<char>, message: Seq<char>) -> ProblemModel {
    ProblemModel { at, message, hint: None }
}

/// A problem with what to do about it.
pub open spec fn hinted(at: Seq<char>, message: Seq<char>, hint: Seq<char>) -> ProblemModel {
    ProblemModel { at, message, hint: Some(hint) }
}

/// A problem, where a rule is broken.
pub open spec fn when(broken: bool, p: ProblemModel) -> Seq<ProblemModel> {
    if broken {
        seq![p]
    } else {
        Seq::empty()
    }
}

impl Problem {
    pub fn new(at: &str, message: String) -> (r: Problem)
        ensures
            r@ == plain(at@, message@),
    {
        Problem { at: copy(at), message, hint: None }
    }

    pub fn hint(self, hint: String) -> (r: Problem)
        ensures
            r@ == (ProblemModel { hint: Some(hint@), ..self@ }),
    {
        Problem { at: self.at, message: self.message, hint: Some(hint) }
    }
}

fn extend(problems: &mut Vec<Problem>, more: Vec<Problem>)
    ensures
        final(problems).deep_view() == old(problems).deep_view() + more.deep_view(),
{
    let ghost a = problems.deep_view();
    let ghost b = more.deep_view();
    let mut rest = more;
    problems.append(&mut rest);
    assert(problems.deep_view() =~= a + b);
}

fn note(problems: &mut Vec<Problem>, broken: bool, p: Problem)
    ensures
        final(problems).deep_view() == old(problems).deep_view() + when(broken, p@),
{
    broadcast use push_deep;

    let ghost a = *problems;
    if broken {
        problems.push(p);
        assert(a.deep_view().push(p@) =~= a.deep_view() + when(broken, p@));
    }
    assert(problems.deep_view() =~= a.deep_view() + when(broken, p@));
}

// ---------------------------------------------------------------------------
// Names that repeat
// ---------------------------------------------------------------------------

/// Does a name stand in two places?
pub open spec fn repeats(names: Seq<Seq<char>>, x: Seq<char>) -> bool {
    exists|i: int, j: int|
        #![trigger names[i], names[j]]
        0 <= i < j < names.len() && names[i] == x && names[j] == x
}

pub open spec fn repeated_in(names: Seq<Seq<char>>) -> spec_fn(Seq<char>) -> bool {
    |x: Seq<char>| repeats(names, x)
}

/// The names that stand in more than one place, in order.
pub open spec fn repeated(names: Seq<Seq<char>>) -> Seq<Seq<char>> {
    listing(name_order(), repeated_in(names))
}

pub fn duplicates(names: &Vec<String>) -> (r: Vec<String>)
    ensures
        r.deep_view() == repeated(names.deep_view()),
        enumerates(r.deep_view(), name_order(), repeated_in(names.deep_view())),
{
    let ghost all = names.deep_view();
    let mut out: Vec<String> = Vec::new();
    assert(out.deep_view() =~= Seq::empty());
    for j in 0..names.len()
        invariant
            all == names.deep_view(),
            in_order(out.deep_view(), name_order()),
            forall|x: Seq<char>|
                #[trigger] out.deep_view().contains(x) <==> repeats(all.take(j as int), x),
    {
        let ghost sofar = out.deep_view();
        let mut again: bool = false;
        for i in 0..j
            invariant
                j < names.len(),
                all == names.deep_view(),
                again == exists|k: int| 0 <= k < i && all[k] == all[j as int],
        {
            if same(&names[i], &names[j]) {
                assert(all[i as int] == all[j as int]);
                again = true;
            }
        }
        if again {
            add_name(&mut out, copy(&names[j]));
        }
        proof {
            let t = all.take(j as int);
            let u = all.take(j as int + 1);
            assert forall|x: Seq<char>| #[trigger]
                out.deep_view().contains(x) <==> repeats(u, x) by {
                assert(sofar.contains(x) <==> repeats(t, x));
                if repeats(t, x) {
                    let (a, b) = choose|a: int, b: int|
                        #![trigger t[a], t[b]]
                        0 <= a < b < t.len() && t[a] == x && t[b] == x;
                    assert(u[a] == x && u[b] == x);
                }
                if again && x == all[j as int] {
                    let k = choose|k: int| 0 <= k < j && all[k] == all[j as int];
                    assert(u[k] == x && u[j as int] == x);
                }
                if repeats(u, x) {
                    let (a, b) = choose|a: int, b: int|
                        #![trigger u[a], u[b]]
                        0 <= a < b < u.len() && u[a] == x && u[b] == x;
                    if b < j {
                        assert(t[a] == x && t[b] == x);
                    } else {
                        assert(all[a] == all[j as int]);
                    }
                }
            }
        }
    }
    proof {
        assert(all.take(names.len() as int) =~= all);
        name_order_is_order();
        listing_is(out.deep_view(), name_order(), repeated_in(all));
    }
    out
}

/// No name repeats exactly where the names are all different.
proof fn repeated_empty(names: Seq<Seq<char>>)
    ensures
        repeated(names).len() == 0 <==> names.no_duplicates(),
{
    let r = repeated(names);
    name_order_is_order();
    assert forall|x: Seq<char>| #[trigger] repeated_in(names)(x) implies names.contains(x) by {}
    listing_exists(names, name_order(), repeated_in(names));
    if r.len() == 0 {
        assert forall|i: int, j: int| 0 <= i < names.len() && 0 <= j < names.len() && i
            != j implies names[i] != names[j] by {
            if names[i] == names[j] {
                let x = names[i];
                if i < j {
                    assert(repeats(names, x));
                } else {
                    assert(names[j] == x && names[i] == x);
                    assert(repeats(names, x));
                }
                assert(r.contains(x) <==> repeated_in(names)(x));
            }
        }
    } else {
        let x = r[0];
        assert(r.contains(x) <==> repeated_in(names)(x));
        let (a, b) = choose|a: int, b: int|
            #![trigger names[a], names[b]]
            0 <= a < b < names.len() && names[a] == x && names[b] == x;
        assert(names[a] == names[b]);
    }
}

// ---------------------------------------------------------------------------
// One step
// ---------------------------------------------------------------------------

/// Where a script was looked for, as it is told.
pub open spec fn looked_for(policy: Policy, name: Seq<char>) -> Seq<Seq<char>> {
    let dirs = policy.script_dirs.deep_view();
    Seq::new(dirs.len(), |i: int| dirs[i] + "/"@ + name + ".sh"@)
}

/// The rule both `steps` and `on_fail` obey: the name must resolve to something
/// runnable.
pub open spec fn unresolved_problems(
    policy: Policy,
    at: Seq<char>,
    name: Seq<char>,
    role: Seq<char>,
) -> Seq<ProblemModel> {
    when(
        policy.meaning(name) is None,
        hinted(
            at,
            role + " "@ + quoted(name) + " is neither a pipeline nor a runnable script"@,
            "looked for "@ + joined(looked_for(policy, name), ", "@) + " — is it executable?"@,
        ),
    )
}

fn unresolved(policy: &Policy, at: &str, name: &str, role: &str) -> (r: Vec<Problem>)
    ensures
        r.deep_view() == unresolved_problems(*policy, at@, name@, role@),
{
    broadcast use push_deep;

    let mut problems: Vec<Problem> = Vec::new();
    if policy.step_kind(name).is_some() {
        assert(problems.deep_view() =~= Seq::empty());
        return problems;
    }
    let ghost dirs = policy.script_dirs.deep_view();
    let ghost places = looked_for(*policy, name@);
    let mut searched: Vec<String> = Vec::new();
    for i in 0..policy.script_dirs.len()
        invariant
            dirs == policy.script_dirs.deep_view(),
            places == looked_for(*policy, name@),
            searched.deep_view() == places.take(i as int),
    {
        let ghost prev = searched;
        searched.push(cat4(&policy.script_dirs[i], "/", name, ".sh"));
        assert(dirs[i as int] == policy.script_dirs@[i as int]@);
        assert(prev.deep_view().push(places[i as int]) =~= places.take(i as int + 1));
    }
    assert(places.take(places.len() as int) =~= places);
    let p: Problem = Problem::new(
        at,
        cat4(role, " ", &quote(name), " is neither a pipeline nor a runnable script"),
    ).hint(cat3("looked for ", &join(&searched, ", "), " — is it executable?"));
    problems.push(p);
    assert(problems.deep_view() =~= seq![p@]);
    problems
}

/// What is wrong with the signal a step waits for.
pub open spec fn signal_rules(policy: Policy, at: Seq<char>, step: Step) -> Seq<ProblemModel> {
    let name = quoted(step.label());
    // A typo here is a step that waits forever.
    when(
        step.awaited() is Some && !policy.knows_signal(step.awaited()->0),
        hinted(
            at,
            "step "@ + name + " awaits unknown signal "@ + quoted(step.awaited()->0),
            "known signals: "@ + listed(policy.signal_names())
                + ". Declare a custom one with [signal."@ + step.awaited()->0 + "]"@,
        ),
    )
}

/// What is wrong with what a step says of a missing check.
pub open spec fn missing_rules(at: Seq<char>, step: Step) -> Seq<ProblemModel> {
    let name = quoted(step.label());
    // What resolving without a check means needs something to resolve.
    when(
        step.missing() is Some && step.awaited() is None,
        hinted(
            at,
            "step "@ + name + " sets on_missing but not await"@,
            "on_missing is what a resolution with no check means; give the step an await"@,
        ),
    )
    // A custom signal supplies its own verdict.
    + when(
        step.missing() is Some && step.awaited() is Some && step.awaited()->0
            != "agent_stopped"@,
        hinted(
            at,
            "step "@ + name + " sets on_missing but does not await \"agent_stopped\""@,
            "on_missing only applies to an agent stopping without a check"@,
        ),
    ) + when(
        step.missing() == Some(Outcome::Started),
        hinted(
            at,
            "step "@ + name + " on_missing = \"started\" is not a settled outcome"@,
            "use pass, reject or error"@,
        ),
    )
}

/// What is wrong with how long a step waits.
pub open spec fn timeout_rules(at: Seq<char>, step: Step) -> Seq<ProblemModel> {
    let name = quoted(step.label());
    // A timeout only means something for a step that waits, and must be readable.
    when(
        step.wait() is Some && step.awaited() is None,
        hinted(
            at,
            "step "@ + name + " sets timeout but not await"@,
            "a timeout bounds a wait; give the step an await, or drop the timeout"@,
        ),
    ) + when(
        step.wait() is Some && duration(step.wait()->0) is None,
        hinted(
            at,
            "step "@ + name + " has an unreadable timeout "@ + quoted(step.wait()->0),
            "use a number of seconds, or a unit: 90s, 30m, 2h, 1d"@,
        ),
    ) + when(
        step.late() is Some && step.wait() is None,
        hinted(
            at,
            "step "@ + name + " sets on_timeout but not timeout"@,
            "on_timeout is the verdict a timeout fires; give the step a timeout"@,
        ),
    ) + when(
        step.late() == Some(Outcome::Started),
        hinted(
            at,
            "step "@ + name + " on_timeout = \"started\" is not a settled outcome"@,
            "use pass, reject or error"@,
        ),
    )
}

/// Everything wrong with how one step waits.
pub open spec fn await_rules(policy: Policy, at: Seq<char>, step: Step) -> Seq<ProblemModel> {
    signal_rules(policy, at, step) + missing_rules(at, step) + timeout_rules(at, step)
}

/// Everything wrong with one step's `await`, `on_missing` and timeout.
fn await_problems(policy: &Policy, at: &str, step: &Step) -> (r: Vec<Problem>)
    ensures
        r.deep_view() == await_rules(*policy, at@, *step),
{
    let mut problems: Vec<Problem> = Vec::new();
    assert(problems.deep_view() =~= Seq::empty());
    let name: String = quote(step.name());
    match step.await_on() {
        Some(signal) => {
            note(
                &mut problems,
                !policy.signal_known(signal),
                Problem::new(
                    at,
                    cat4("step ", &name, " awaits unknown signal ", &quote(signal)),
                ).hint(
                    cat5(
                        "known signals: ",
                        &list(&policy.known_signals()),
                        ". Declare a custom one with [signal.",
                        signal,
                        "]",
                    ),
                ),
            );
        },
        None => {},
    }
    let waits: bool = step.await_on().is_some();
    note(
        &mut problems,
        step.on_missing().is_some() && !waits,
        Problem::new(at, cat3("step ", &name, " sets on_missing but not await")).hint(
            copy("on_missing is what a resolution with no check means; give the step an await"),
        ),
    );
    let for_agent: bool = match step.await_on() {
        Some(signal) => same(signal, "agent_stopped"),
        None => false,
    };
    note(
        &mut problems,
        step.on_missing().is_some() && waits && !for_agent,
        Problem::new(
            at,
            cat3("step ", &name, " sets on_missing but does not await \"agent_stopped\""),
        ).hint(copy("on_missing only applies to an agent stopping without a check")),
    );
    let missing_started: bool = match step.on_missing() {
        Some(Outcome::Started) => true,
        _ => false,
    };
    note(
        &mut problems,
        missing_started,
        Problem::new(
            at,
            cat3("step ", &name, " on_missing = \"started\" is not a settled outcome"),
        ).hint(copy("use pass, reject or error")),
    );
    match step.timeout() {
        Some(raw) => {
            note(
                &mut problems,
                !waits,
                Problem::new(at, cat3("step ", &name, " sets timeout but not await")).hint(
                    copy("a timeout bounds a wait; give the step an await, or drop the timeout"),
                ),
            );
            note(
                &mut problems,
                parse_duration(raw).is_none(),
                Problem::new(
                    at,
                    cat4("step ", &name, " has an unreadable timeout ", &quote(raw)),
                ).hint(copy("use a number of seconds, or a unit: 90s, 30m, 2h, 1d")),
            );
        },
        None => {},
    }
    note(
        &mut problems,
        step.on_timeout().is_some() && step.timeout().is_none(),
        Problem::new(at, cat3("step ", &name, " sets on_timeout but not timeout")).hint(
            copy("on_timeout is the verdict a timeout fires; give the step a timeout"),
        ),
    );
    let late_started: bool = match step.on_timeout() {
        Some(Outcome::Started) => true,
        _ => false,
    };
    note(
        &mut problems,
        late_started,
        Problem::new(
            at,
            cat3("step ", &name, " on_timeout = \"started\" is not a settled outcome"),
        ).hint(copy("use pass, reject or error")),
    );
    assert(problems.deep_view() =~= await_rules(*policy, at@, *step));
    problems
}

/// A script wins over a same-named pipeline, so a step naming another pipeline
/// that a script also shadows would run something other than what it reads as.
/// Naming the *enclosing* pipeline is exempt: that can only ever have meant the
/// script.
pub open spec fn shadowed(policy: Policy, pipeline: Seq<char>, step: Seq<char>) -> bool {
    step != pipeline && policy.pipeline_called(step) is Some && policy.script(step) is Some
}

/// Everything wrong with one step of a pipeline.
pub open spec fn step_rules(policy: Policy, pipeline: Seq<char>) -> spec_fn(Step) -> Seq<
    ProblemModel,
> {
    let at = "pipeline."@ + pipeline;
    |step: Step|
        unresolved_problems(policy, at, step.label(), "step"@) + await_rules(policy, at, step)
            + when(
            shadowed(policy, pipeline, step.label()),
            hinted(
                at,
                "step "@ + quoted(step.label()) + " names a pipeline, but the script "@
                    + policy.script(step.label())->0 + " shadows it"@,
                "rename one of them: a script of the same name always wins"@,
            ),
        )
}

fn step_problems(policy: &Policy, pipeline: &str, at: &str, step: &Step) -> (r: Vec<Problem>)
    requires
        at@ == "pipeline."@ + pipeline@,
    ensures
        r.deep_view() == step_rules(*policy, pipeline@)(*step),
{
    let mut problems: Vec<Problem> = unresolved(policy, at, step.name(), "step");
    extend(&mut problems, await_problems(policy, at, step));
    if !same(step.name(), pipeline) && policy.config.pipeline.contains_key(step.name()) {
        if let Some(path) = policy.script_path(step.name()) {
            note(
                &mut problems,
                true,
                Problem::new(
                    at,
                    cat5(
                        "step ",
                        &quote(step.name()),
                        " names a pipeline, but the script ",
                        &path,
                        " shadows it",
                    ),
                ).hint(copy("rename one of them: a script of the same name always wins")),
            );
        }
    }
    assert(problems.deep_view() =~= step_rules(*policy, pipeline@)(*step));
    problems
}

// ---------------------------------------------------------------------------
// One pipeline
// ---------------------------------------------------------------------------

pub open spec fn repeated_step(at: Seq<char>) -> spec_fn(Seq<char>) -> Seq<ProblemModel> {
    |name: Seq<char>|
        seq![
            hinted(
                at,
                "step "@ + quoted(name) + " appears more than once"@,
                "a task records its position by step name, so names must be unique here"@,
            ),
        ]
}

/// What a rejection does: somewhere to go and a cap, or neither.
pub open spec fn loop_rules(policy: Policy, at: Seq<char>, p: Pipeline) -> Seq<ProblemModel> {
    match p.on_fail {
        Some(on_fail) => unresolved_problems(policy, at, on_fail@, "on_fail"@) + when(
            p.max_rounds is None,
            hinted(
                at,
                "on_fail is set but max_rounds is not: an unbounded loop"@,
                "give it a cap, e.g. max_rounds = 3"@,
            ),
        ),
        // A cap or an exhaustion outcome with nothing to loop is dead config,
        // and dead config is how you end up believing something is enforced.
        None => when(
            p.max_rounds is Some,
            hinted(
                at,
                "max_rounds is set but on_fail is not, so nothing loops"@,
                "drop max_rounds, or say what a rejection should go back to"@,
            ),
        ) + when(
            p.on_exhausted is Some,
            plain(at, "on_exhausted is set but on_fail is not, so the cap can never be spent"@),
        ),
    }
}

/// A task records one round, scoped to the innermost pipeline. Descending into a
/// nested pipeline from a looping one would overwrite the round the loop is
/// counting.
pub open spec fn nested_in_loop(policy: Policy, at: Seq<char>) -> spec_fn(Seq<char>) -> Seq<
    ProblemModel,
> {
    |step: Seq<char>|
        when(
            policy.nests(step),
            hinted(
                at,
                "this pipeline loops and step "@ + quoted(step)
                    + " is a pipeline: entering "@ + quoted(step)
                    + " would reset the round the loop is counting"@,
                "flatten the nested steps into this pipeline, or drop the loop"@,
            ),
        )
}

/// Everything wrong with one pipeline by itself.
pub open spec fn pipeline_rules(policy: Policy) -> spec_fn((Seq<char>, Pipeline)) -> Seq<
    ProblemModel,
> {
    |e: (Seq<char>, Pipeline)| pipeline_problems_of(policy, e.0, e.1)
}

/// Everything wrong with the sequence of a pipeline.
pub open spec fn sequence_rules(policy: Policy, name: Seq<char>, p: Pipeline) -> Seq<ProblemModel> {
    let at = "pipeline."@ + name;
    when(p.steps@.len() == 0, plain(at, "no steps, so this pipeline does nothing"@)) + flat(
        repeated(p.labels()),
        repeated_step(at),
    ) + flat(p.steps@, step_rules(policy, name))
}

/// Everything wrong with how a pipeline goes round.
pub open spec fn round_rules(policy: Policy, at: Seq<char>, p: Pipeline) -> Seq<ProblemModel> {
    loop_rules(policy, at, p) + when(
        p.max_rounds == Some(0u32),
        plain(at, "max_rounds = 0 would run the pipeline no times at all"@),
    )
    // `started` is a promise a step makes, and a pipeline that is finished
    // cannot be making promises.
    + when(
        p.on_exhausted == Some(Outcome::Started),
        hinted(
            at,
            "on_exhausted = \"started\" is not an outcome a pipeline can have"@,
            "use pass, reject or error"@,
        ),
    ) + (if p.on_fail is Some {
        flat(p.all_labels(), nested_in_loop(policy, at))
    } else {
        Seq::empty()
    })
}

pub open spec fn pipeline_problems_of(policy: Policy, name: Seq<char>, p: Pipeline) -> Seq<
    ProblemModel,
> {
    sequence_rules(policy, name, p) + round_rules(policy, "pipeline."@ + name, p)
}

fn repeated_steps(at: &str, p: &Pipeline) -> (r: Vec<Problem>)
    ensures
        r.deep_view() == flat(repeated(p.labels()), repeated_step(at@)),
{
    let mut problems: Vec<Problem> = Vec::new();
    let names: Vec<String> = duplicates(&p.forward_names());
    let ghost all = names.deep_view();
    let ghost f = repeated_step(at@);
    assert(problems.deep_view() =~= flat(all.take(0), f));
    for i in 0..names.len()
        invariant
            all == names.deep_view(),
            f == repeated_step(at@),
            problems.deep_view() == flat(all.take(i as int), f),
    {
        proof {
            flat_step(all, f, i as int);
        }
        note(
            &mut problems,
            true,
            Problem::new(at, cat3("step ", &quote(&names[i]), " appears more than once")).hint(
                copy("a task records its position by step name, so names must be unique here"),
            ),
        );
        assert(all[i as int] == names@[i as int]@);
    }
    assert(all.take(all.len() as int) =~= all);
    problems
}

fn all_step_problems(policy: &Policy, name: &str, at: &str, p: &Pipeline) -> (r: Vec<Problem>)
    requires
        at@ == "pipeline."@ + name@,
    ensures
        r.deep_view() == flat(p.steps@, step_rules(*policy, name@)),
{
    let mut problems: Vec<Problem> = Vec::new();
    let ghost f = step_rules(*policy, name@);
    assert(problems.deep_view() =~= flat(p.steps@.take(0), f));
    for i in 0..p.steps.len()
        invariant
            at@ == "pipeline."@ + name@,
            f == step_rules(*policy, name@),
            problems.deep_view() == flat(p.steps@.take(i as int), f),
    {
        proof {
            flat_step(p.steps@, f, i as int);
        }
        extend(&mut problems, step_problems(policy, name, at, &p.steps[i]));
    }
    assert(p.steps@.take(p.steps@.len() as int) =~= p.steps@);
    problems
}

fn loop_problems(policy: &Policy, at: &str, p: &Pipeline) -> (r: Vec<Problem>)
    ensures
        r.deep_view() == loop_rules(*policy, at@, *p),
{
    match &p.on_fail {
        Some(on_fail) => {
            let mut problems: Vec<Problem> = unresolved(policy, at, on_fail, "on_fail");
            note(
                &mut problems,
                p.max_rounds.is_none(),
                Problem::new(
                    at,
                    copy("on_fail is set but max_rounds is not: an unbounded loop"),
                ).hint(copy("give it a cap, e.g. max_rounds = 3")),
            );
            problems
        },
        None => {
            let mut problems: Vec<Problem> = Vec::new();
            assert(problems.deep_view() =~= Seq::empty());
            note(
                &mut problems,
                p.max_rounds.is_some(),
                Problem::new(
                    at,
                    copy("max_rounds is set but on_fail is not, so nothing loops"),
                ).hint(copy("drop max_rounds, or say what a rejection should go back to")),
            );
            note(
                &mut problems,
                p.on_exhausted.is_some(),
                Problem::new(
                    at,
                    copy("on_exhausted is set but on_fail is not, so the cap can never be spent"),
                ),
            );
            assert(problems.deep_view() =~= loop_rules(*policy, at@, *p));
            problems
        },
    }
}

fn nested_problems(policy: &Policy, at: &str, p: &Pipeline) -> (r: Vec<Problem>)
    ensures
        r.deep_view() == flat(p.all_labels(), nested_in_loop(*policy, at@)),
{
    let mut problems: Vec<Problem> = Vec::new();
    let names: Vec<String> = p.step_names();
    let ghost all = names.deep_view();
    let ghost f = nested_in_loop(*policy, at@);
    assert(problems.deep_view() =~= flat(all.take(0), f));
    for i in 0..names.len()
        invariant
            all == names.deep_view(),
            f == nested_in_loop(*policy, at@),
            problems.deep_view() == flat(all.take(i as int), f),
    {
        proof {
            flat_step(all, f, i as int);
            assert(all[i as int] == names@[i as int]@);
        }
        let ghost sofar = problems.deep_view();
        match policy.nested_pipeline(&names[i]) {
            Some(inner) => {
                note(
                    &mut problems,
                    true,
                    Problem::new(
                        at,
                        cat5(
                            "this pipeline loops and step ",
                            &quote(&names[i]),
                            " is a pipeline: entering ",
                            &quote(inner),
                            " would reset the round the loop is counting",
                        ),
                    ).hint(copy("flatten the nested steps into this pipeline, or drop the loop")),
                );
            },
            None => {
                assert(problems.deep_view() =~= sofar + f(all[i as int]));
            },
        }
    }
    assert(all.take(all.len() as int) =~= all);
    problems
}

fn pipeline_problems(policy: &Policy, name: &str, p: &Pipeline) -> (r: Vec<Problem>)
    ensures
        r.deep_view() == pipeline_problems_of(*policy, name@, *p),
{
    let at: String = cat2("pipeline.", name);
    let mut problems: Vec<Problem> = Vec::new();
    assert(problems.deep_view() =~= Seq::empty());
    note(
        &mut problems,
        p.steps.len() == 0,
        Problem::new(&at, copy("no steps, so this pipeline does nothing")),
    );
    extend(&mut problems, repeated_steps(&at, p));
    extend(&mut problems, all_step_problems(policy, name, &at, p));
    extend(&mut problems, loop_problems(policy, &at, p));
    let zero: bool = match p.max_rounds {
        Some(n) => n == 0,
        None => false,
    };
    note(
        &mut problems,
        zero,
        Problem::new(&at, copy("max_rounds = 0 would run the pipeline no times at all")),
    );
    let promises: bool = match p.on_exhausted {
        Some(Outcome::Started) => true,
        _ => false,
    };
    note(
        &mut problems,
        promises,
        Problem::new(
            &at,
            copy("on_exhausted = \"started\" is not an outcome a pipeline can have"),
        ).hint(copy("use pass, reject or error")),
    );
    if p.loops() {
        extend(&mut problems, nested_problems(policy, &at, p));
    }
    assert(problems.deep_view() =~= pipeline_problems_of(*policy, name@, *p));
    problems
}

// ---------------------------------------------------------------------------
// Composition
// ---------------------------------------------------------------------------

/// The cycles in how pipelines are composed, in order.
pub open spec fn cycles(policy: Policy) -> Seq<Seq<Seq<char>>> {
    listing(list_order(), cycle_of(policy))
}

pub open spec fn cycle_problem() -> spec_fn(Seq<Seq<char>>) -> Seq<ProblemModel> {
    |c: Seq<Seq<char>>|
        seq![
            hinted(
                "pipeline."@ + c[0],
                "pipeline composition is a cycle: "@ + joined(c, " -> "@),
                "a type is the only place a sequence may be composed, and it may not loop"@,
            ),
        ]
}

pub open spec fn nesting(policy: Policy) -> spec_fn(Seq<char>) -> bool {
    |s: Seq<char>| policy.nests(s)
}

/// The steps of a nested pipeline that are pipelines themselves.
pub open spec fn deeper(policy: Policy, step: Seq<char>) -> Seq<Seq<char>> {
    policy.pipeline_called(step)->0.labels().filter(nesting(policy))
}

/// A pipeline used as a step may contain only scripts.
pub open spec fn depth_of_step(policy: Policy, at: Seq<char>) -> spec_fn(Seq<char>) -> Seq<
    ProblemModel,
> {
    |step: Seq<char>|
        when(
            policy.nests(step) && deeper(policy, step).len() > 0,
            hinted(
                at,
                "step "@ + quoted(step) + " is a pipeline that itself composes "@ + listed(
                    deeper(policy, step),
                ) + " — nesting is capped at 2"@,
                "flatten one of the levels"@,
            ),
        )
}

pub open spec fn depth_of(policy: Policy) -> spec_fn((Seq<char>, Pipeline)) -> Seq<ProblemModel> {
    |e: (Seq<char>, Pipeline)| flat(e.1.all_labels(), depth_of_step(policy, "pipeline."@ + e.0))
}

/// No cycles in pipeline composition, and nesting depth capped at 2. Cycles come
/// first, so a cycle is reported as one rather than as depth.
pub open spec fn composition_rules(policy: Policy) -> Seq<ProblemModel> {
    if cycles(policy).len() > 0 {
        flat(cycles(policy), cycle_problem())
    } else {
        flat(policy.pipelines(), depth_of(policy))
    }
}

/// Every cycle, each once, in order.
fn all_cycles(policy: &Policy) -> (r: Vec<Vec<String>>)
    ensures
        r.deep_view() == cycles(*policy),
        enumerates(r.deep_view(), list_order(), cycle_of(*policy)),
{
    let ghost e = policy.pipelines();
    let n: usize = policy.config.pipeline.len();
    let mut found: Vec<Vec<String>> = Vec::new();
    assert(found.deep_view() =~= Seq::empty());
    for i in 0..n
        invariant
            e == policy.pipelines(),
            n == e.len(),
            crate::table::ascending(e),
            in_order(found.deep_view(), list_order()),
            forall|c: Seq<Seq<char>>| #[trigger]
                found.deep_view().contains(c) <==> exists|k: int|
                    0 <= k < i && found_from(*policy, seq![(#[trigger] e[k]).0], c),
    {
        let ghost sofar = found.deep_view();
        let mut path: Vec<String> = Vec::new();
        let start: String = copy(policy.config.pipeline.key(i));
        proof {
            lookup_at(e, i as int);
            assert(path.deep_view() =~= Seq::empty());
            assert(path.deep_view().push(start@) =~= seq![e[i as int].0]);
            assert(is_walk(*policy, seq![e[i as int].0]));
        }
        find_cycles(policy, &start, &mut path, &mut found);
        proof {
            assert forall|c: Seq<Seq<char>>| #[trigger]
                found.deep_view().contains(c) <==> exists|k: int|
                    0 <= k < i + 1 && found_from(*policy, seq![(#[trigger] e[k]).0], c) by {
                assert(sofar.contains(c) <==> exists|k: int|
                    0 <= k < i && found_from(*policy, seq![(#[trigger] e[k]).0], c));
                if found_from(*policy, seq![e[i as int].0], c) {
                    assert(found.deep_view().contains(c));
                }
            }
        }
    }
    proof {
        assert forall|c: Seq<Seq<char>>| #[trigger]
            found.deep_view().contains(c) <==> cycle_of(*policy)(c) by {
            all_walks_report_cycles(*policy, c);
        }
        list_order_is_order();
        listing_is(found.deep_view(), list_order(), cycle_of(*policy));
    }
    found
}

fn deeper_steps(policy: &Policy, inner: &Pipeline) -> (r: Vec<String>)
    ensures
        r.deep_view() == inner.labels().filter(nesting(*policy)),
{
    broadcast use push_deep;

    let names: Vec<String> = inner.forward_names();
    let ghost all = names.deep_view();
    let ghost p = nesting(*policy);
    let mut out: Vec<String> = Vec::new();
    proof {
        reveal(Seq::filter);
        assert(out.deep_view() =~= all.take(0).filter(p));
    }
    for i in 0..names.len()
        invariant
            all == names.deep_view(),
            p == nesting(*policy),
            out.deep_view() == all.take(i as int).filter(p),
    {
        proof {
            reveal(Seq::filter);
            assert(all.take(i as int + 1).drop_last() =~= all.take(i as int));
            assert(all.take(i as int + 1).last() == all[i as int]);
            assert(all[i as int] == names@[i as int]@);
        }
        if policy.nested_pipeline(&names[i]).is_some() {
            let ghost prev = out;
            out.push(copy(&names[i]));
            assert(out.deep_view() == prev.deep_view().push(all[i as int]));
        }
    }
    assert(all.take(all.len() as int) =~= all);
    out
}

fn depth_problems(policy: &Policy, name: &str, p: &Pipeline) -> (r: Vec<Problem>)
    ensures
        r.deep_view() == depth_of(*policy)((name@, *p)),
{
    let at: String = cat2("pipeline.", name);
    let mut problems: Vec<Problem> = Vec::new();
    let names: Vec<String> = p.step_names();
    let ghost all = names.deep_view();
    let ghost f = depth_of_step(*policy, at@);
    assert(problems.deep_view() =~= flat(all.take(0), f));
    for i in 0..names.len()
        invariant
            all == names.deep_view(),
            f == depth_of_step(*policy, at@),
            problems.deep_view() == flat(all.take(i as int), f),
    {
        proof {
            flat_step(all, f, i as int);
            assert(all[i as int] == names@[i as int]@);
        }
        let ghost sofar = problems.deep_view();
        if policy.nested_pipeline(&names[i]).is_some() {
            if let Some(inner) = policy.config.pipeline.get(&names[i]) {
                let below: Vec<String> = deeper_steps(policy, inner);
                note(
                    &mut problems,
                    below.len() > 0,
                    Problem::new(
                        &at,
                        cat5(
                            "step ",
                            &quote(&names[i]),
                            " is a pipeline that itself composes ",
                            &list(&below),
                            " — nesting is capped at 2",
                        ),
                    ).hint(copy("flatten one of the levels")),
                );
            }
        }
        assert(problems.deep_view() =~= sofar + f(all[i as int]));
    }
    assert(all.take(all.len() as int) =~= all);
    problems
}

/// No cycles in pipeline composition, and nesting depth capped at 2.
fn composition_problems(policy: &Policy) -> (r: Vec<Problem>)
    ensures
        r.deep_view() == composition_rules(*policy),
{
    let mut problems: Vec<Problem> = Vec::new();
    let found: Vec<Vec<String>> = all_cycles(policy);
    if found.len() > 0 {
        let ghost all = found.deep_view();
        let ghost f = cycle_problem();
        assert(problems.deep_view() =~= flat(all.take(0), f));
        for i in 0..found.len()
            invariant
                all == found.deep_view(),
                enumerates(all, list_order(), cycle_of(*policy)),
                f == cycle_problem(),
                problems.deep_view() == flat(all.take(i as int), f),
        {
            proof {
                flat_step(all, f, i as int);
                assert(all.contains(all[i as int]));
                assert(cycle_of(*policy)(all[i as int]));
                assert(all[i as int] == found@[i as int].deep_view());
            }
            let cycle: &Vec<String> = &found[i];
            let at: String = cat2("pipeline.", &cycle[0]);
            note(
                &mut problems,
                true,
                Problem::new(
                    &at,
                    cat2("pipeline composition is a cycle: ", &join(cycle, " -> ")),
                ).hint(
                    copy(
                        "a type is the only place a sequence may be composed, and it may not loop",
                    ),
                ),
            );
            assert(cycle@[0]@ == all[i as int][0]);
        }
        assert(all.take(all.len() as int) =~= all);
        return problems;
    }
    let ghost e = policy.pipelines();
    let ghost f = depth_of(*policy);
    let n: usize = policy.config.pipeline.len();
    assert(problems.deep_view() =~= flat(e.take(0), f));
    for i in 0..n
        invariant
            e == policy.pipelines(),
            n == e.len(),
            f == depth_of(*policy),
            problems.deep_view() == flat(e.take(i as int), f),
    {
        proof {
            flat_step(e, f, i as int);
        }
        extend(
            &mut problems,
            depth_problems(policy, policy.config.pipeline.key(i), policy.config.pipeline.value(i)),
        );
    }
    assert(e.take(n as int) =~= e);
    problems
}

// ---------------------------------------------------------------------------
// One type
// ---------------------------------------------------------------------------

pub open spec fn repeated_pipeline(at: Seq<char>) -> spec_fn(Seq<char>) -> Seq<ProblemModel> {
    |name: Seq<char>|
        seq![
            hinted(
                at,
                "pipeline "@ + quoted(name) + " appears more than once"@,
                "a task records its position by pipeline name, so names must be unique"@,
            ),
        ]
}

/// The names of the pipelines.
pub open spec fn pipeline_names(policy: Policy) -> Seq<Seq<char>> {
    let e = policy.pipelines();
    Seq::new(e.len(), |i: int| e[i].0)
}

/// Every pipeline named by a type exists.
pub open spec fn unknown_pipeline(policy: Policy, at: Seq<char>) -> spec_fn(Seq<char>) -> Seq<
    ProblemModel,
> {
    |name: Seq<char>|
        when(
            policy.pipeline_called(name) is None,
            hinted(
                at,
                "no such pipeline "@ + quoted(name),
                "defined pipelines: "@ + listed(pipeline_names(policy)),
            ),
        )
}

/// Does a step name run a pipeline that itself runs none? One that does is a problem of
/// its own, so it is not followed here.
pub open spec fn nests_scripts(policy: Policy) -> spec_fn(Seq<char>) -> bool {
    |name: Seq<char>|
        policy.nests(name) && policy.pipeline_called(name)->0.labels().filter(
            nesting(policy),
        ).len() == 0
}

/// A pipeline, then those that it runs as steps.
pub open spec fn with_nested(policy: Policy) -> spec_fn(Seq<char>) -> Seq<Seq<char>> {
    |name: Seq<char>|
        match policy.pipeline_called(name) {
            Some(p) => seq![name] + p.labels().filter(nests_scripts(policy)),
            None => seq![name],
        }
}

/// The pipelines that a list of them runs: each, and those it runs as steps.
pub open spec fn composed(policy: Policy, names: Seq<Seq<char>>) -> Seq<Seq<char>> {
    flat(names, with_nested(policy))
}

/// The pipelines that would run more than once, in order: those that are named twice, or,
/// where none is, those that come to be run twice.
pub open spec fn run_twice(policy: Policy, names: Seq<Seq<char>>) -> Seq<Seq<char>> {
    if names.no_duplicates() {
        repeated(composed(policy, names))
    } else {
        repeated(names)
    }
}

/// Everything wrong with one type.
pub open spec fn type_rules(policy: Policy) -> spec_fn((Seq<char>, TaskType)) -> Seq<
    ProblemModel,
> {
    |e: (Seq<char>, TaskType)| type_problems_of(policy, e.0, e.1)
}

pub open spec fn type_problems_of(policy: Policy, name: Seq<char>, t: TaskType) -> Seq<
    ProblemModel,
> {
    let at = "type."@ + name;
    let names = t.pipelines.deep_view();
    when(
        is_blank(t.description@),
        hinted(
            at,
            "description is empty"@,
            "it is the only thing an agent has to choose by"@,
        ),
    ) + when(names.len() == 0, plain(at, "no pipelines, so this type does nothing"@)) + flat(
        run_twice(policy, names),
        repeated_pipeline(at),
    ) + flat(names, unknown_pipeline(policy, at))
}

fn known_pipelines(policy: &Policy) -> (r: Vec<String>)
    ensures
        r.deep_view() == pipeline_names(*policy),
{
    broadcast use push_deep;

    let ghost all = pipeline_names(*policy);
    let n: usize = policy.config.pipeline.len();
    let mut out: Vec<String> = Vec::new();
    assert(out.deep_view() =~= all.take(0));
    for i in 0..n
        invariant
            all == pipeline_names(*policy),
            n == all.len(),
            out.deep_view() == all.take(i as int),
    {
        let ghost prev = out;
        out.push(copy(policy.config.pipeline.key(i)));
        assert(prev.deep_view().push(all[i as int]) =~= all.take(i as int + 1));
    }
    assert(all.take(n as int) =~= all);
    out
}

/// The pipelines that a pipeline runs as steps.
fn nested_names(policy: &Policy, outer: &Pipeline) -> (r: Vec<String>)
    ensures
        r.deep_view() == outer.labels().filter(nests_scripts(*policy)),
{
    broadcast use push_deep;

    let names: Vec<String> = outer.forward_names();
    let ghost all = names.deep_view();
    let ghost p = nests_scripts(*policy);
    let mut out: Vec<String> = Vec::new();
    proof {
        reveal(Seq::filter);
        assert(out.deep_view() =~= all.take(0).filter(p));
    }
    for i in 0..names.len()
        invariant
            all == names.deep_view(),
            p == nests_scripts(*policy),
            out.deep_view() == all.take(i as int).filter(p),
    {
        proof {
            reveal(Seq::filter);
            assert(all.take(i as int + 1).drop_last() =~= all.take(i as int));
            assert(all.take(i as int + 1).last() == all[i as int]);
            assert(all[i as int] == names@[i as int]@);
        }
        let within: bool = match policy.config.pipeline.get(&names[i]) {
            Some(inner) => policy.nested_pipeline(&names[i]).is_some() && deeper_steps(
                policy,
                inner,
            ).len() == 0,
            None => false,
        };
        if within {
            let ghost prev = out;
            out.push(copy(&names[i]));
            assert(out.deep_view() == prev.deep_view().push(all[i as int]));
        }
    }
    assert(all.take(all.len() as int) =~= all);
    out
}

fn composed_names(policy: &Policy, names: &Vec<String>) -> (r: Vec<String>)
    ensures
        r.deep_view() == composed(*policy, names.deep_view()),
{
    broadcast use push_deep;

    let ghost all = names.deep_view();
    let ghost f = with_nested(*policy);
    let mut out: Vec<String> = Vec::new();
    assert(out.deep_view() =~= flat(all.take(0), f));
    for i in 0..names.len()
        invariant
            all == names.deep_view(),
            f == with_nested(*policy),
            out.deep_view() == flat(all.take(i as int), f),
    {
        proof {
            flat_step(all, f, i as int);
            assert(all[i as int] == names@[i as int]@);
        }
        let ghost prev = out.deep_view();
        out.push(copy(&names[i]));
        assert(out.deep_view() =~= prev + seq![all[i as int]]);
        if let Some(p) = policy.config.pipeline.get(&names[i]) {
            let ghost here = out.deep_view();
            let mut inner: Vec<String> = nested_names(policy, p);
            let ghost nested = inner.deep_view();
            out.append(&mut inner);
            assert(out.deep_view() =~= here + nested);
            assert(out.deep_view() =~= prev + f(all[i as int]));
        }
    }
    assert(all.take(all.len() as int) =~= all);
    out
}

/// The pipelines that would run more than once.
fn running_twice(policy: &Policy, names: &Vec<String>) -> (r: Vec<String>)
    ensures
        r.deep_view() == run_twice(*policy, names.deep_view()),
{
    let again: Vec<String> = duplicates(names);
    proof {
        repeated_empty(names.deep_view());
    }
    if again.len() > 0 {
        again
    } else {
        duplicates(&composed_names(policy, names))
    }
}

fn repeated_pipelines(policy: &Policy, at: &str, names: &Vec<String>) -> (r: Vec<Problem>)
    ensures
        r.deep_view() == flat(run_twice(*policy, names.deep_view()), repeated_pipeline(at@)),
{
    let mut problems: Vec<Problem> = Vec::new();
    let again: Vec<String> = running_twice(policy, names);
    let ghost all = again.deep_view();
    let ghost f = repeated_pipeline(at@);
    assert(problems.deep_view() =~= flat(all.take(0), f));
    for i in 0..again.len()
        invariant
            all == again.deep_view(),
            f == repeated_pipeline(at@),
            problems.deep_view() == flat(all.take(i as int), f),
    {
        proof {
            flat_step(all, f, i as int);
        }
        note(
            &mut problems,
            true,
            Problem::new(at, cat3("pipeline ", &quote(&again[i]), " appears more than once")).hint(
                copy("a task records its position by pipeline name, so names must be unique"),
            ),
        );
        assert(all[i as int] == again@[i as int]@);
    }
    assert(all.take(all.len() as int) =~= all);
    problems
}

fn unknown_pipelines(policy: &Policy, at: &str, names: &Vec<String>) -> (r: Vec<Problem>)
    ensures
        r.deep_view() == flat(names.deep_view(), unknown_pipeline(*policy, at@)),
{
    let mut problems: Vec<Problem> = Vec::new();
    let ghost all = names.deep_view();
    let ghost f = unknown_pipeline(*policy, at@);
    assert(problems.deep_view() =~= flat(all.take(0), f));
    for i in 0..names.len()
        invariant
            all == names.deep_view(),
            f == unknown_pipeline(*policy, at@),
            problems.deep_view() == flat(all.take(i as int), f),
    {
        proof {
            flat_step(all, f, i as int);
            assert(all[i as int] == names@[i as int]@);
        }
        note(
            &mut problems,
            !policy.config.pipeline.contains_key(&names[i]),
            Problem::new(at, cat2("no such pipeline ", &quote(&names[i]))).hint(
                cat2("defined pipelines: ", &list(&known_pipelines(policy))),
            ),
        );
    }
    assert(all.take(all.len() as int) =~= all);
    problems
}

fn type_problems(policy: &Policy, name: &str, t: &TaskType) -> (r: Vec<Problem>)
    ensures
        r.deep_view() == type_problems_of(*policy, name@, *t),
{
    let at: String = cat2("type.", name);
    let mut problems: Vec<Problem> = Vec::new();
    assert(problems.deep_view() =~= Seq::empty());
    note(
        &mut problems,
        blank(&t.description),
        Problem::new(&at, copy("description is empty")).hint(
            copy("it is the only thing an agent has to choose by"),
        ),
    );
    note(
        &mut problems,
        t.pipelines.len() == 0,
        Problem::new(&at, copy("no pipelines, so this type does nothing")),
    );
    extend(&mut problems, repeated_pipelines(policy, &at, &t.pipelines));
    extend(&mut problems, unknown_pipelines(policy, &at, &t.pipelines));
    assert(problems.deep_view() =~= type_problems_of(*policy, name@, *t));
    problems
}

// ---------------------------------------------------------------------------
// The whole config
// ---------------------------------------------------------------------------

/// Every problem with a config, in a stable order.
pub open spec fn problems_of(policy: Policy) -> Seq<ProblemModel> {
    when(
        policy.config.types.entries().len() == 0,
        hinted(
            "config"@,
            "no types defined, so nothing can be created"@,
            "a type is what an agent picks: [type.feature] with a description and pipelines"@,
        ),
    ) + flat(policy.pipelines(), pipeline_rules(policy)) + composition_rules(policy) + flat(
        policy.config.types.entries(),
        type_rules(policy),
    )
}

/// Every problem with this config, in a stable order.
pub fn validate(policy: &Policy) -> (r: Vec<Problem>)
    ensures
        r.deep_view() == problems_of(*policy),
{
    let mut problems: Vec<Problem> = Vec::new();
    assert(problems.deep_view() =~= Seq::empty());
    note(
        &mut problems,
        policy.config.types.len() == 0,
        Problem::new("config", copy("no types defined, so nothing can be created")).hint(
            copy("a type is what an agent picks: [type.feature] with a description and pipelines"),
        ),
    );
    let ghost first = problems.deep_view();
    let ghost e = policy.pipelines();
    let ghost f = pipeline_rules(*policy);
    let n: usize = policy.config.pipeline.len();
    assert(problems.deep_view() =~= first + flat(e.take(0), f));
    for i in 0..n
        invariant
            e == policy.pipelines(),
            n == e.len(),
            f == pipeline_rules(*policy),
            problems.deep_view() == first + flat(e.take(i as int), f),
    {
        proof {
            flat_step(e, f, i as int);
        }
        let ghost sofar = problems.deep_view();
        extend(
            &mut problems,
            pipeline_problems(
                policy,
                policy.config.pipeline.key(i),
                policy.config.pipeline.value(i),
            ),
        );
        assert(problems.deep_view() =~= first + flat(e.take(i as int + 1), f));
    }
    assert(e.take(n as int) =~= e);
    extend(&mut problems, composition_problems(policy));
    let ghost second = problems.deep_view();
    let ghost t = policy.config.types.entries();
    let ghost g = type_rules(*policy);
    let m: usize = policy.config.types.len();
    assert(problems.deep_view() =~= second + flat(t.take(0), g));
    for i in 0..m
        invariant
            t == policy.config.types.entries(),
            m == t.len(),
            g == type_rules(*policy),
            problems.deep_view() == second + flat(t.take(i as int), g),
    {
        proof {
            flat_step(t, g, i as int);
        }
        extend(
            &mut problems,
            type_problems(policy, policy.config.types.key(i), policy.config.types.value(i)),
        );
        assert(problems.deep_view() =~= second + flat(t.take(i as int + 1), g));
    }
    assert(t.take(m as int) =~= t);
    assert(problems.deep_view() =~= problems_of(*policy));
    problems
}

// ---------------------------------------------------------------------------
// What a valid config is
// ---------------------------------------------------------------------------

/// A step that waits, if it does, for a signal there is, and says nothing that its wait
/// could not use.
pub open spec fn wait_is_sound(policy: Policy, step: Step) -> bool {
    &&& step.awaited() is Some ==> policy.knows_signal(step.awaited()->0)
    &&& step.missing() is Some ==> step.awaited() == Some("agent_stopped"@)
    &&& step.missing() != Some(Outcome::Started)
    &&& step.wait() is Some ==> step.awaited() is Some && duration(step.wait()->0) is Some
    &&& step.late() is Some ==> step.wait() is Some
    &&& step.late() != Some(Outcome::Started)
}

/// A step that means one thing, and waits for something if at all.
pub open spec fn step_is_sound(policy: Policy, pipeline: Seq<char>, step: Step) -> bool {
    &&& policy.meaning(step.label()) is Some
    &&& !shadowed(policy, pipeline, step.label())
    &&& wait_is_sound(policy, step)
}

/// A pipeline that loops within a cap or not at all.
pub open spec fn loop_is_sound(policy: Policy, p: Pipeline) -> bool {
    match p.on_fail {
        Some(f) => {
            &&& policy.meaning(f@) is Some
            &&& p.max_rounds is Some && p.max_rounds->0 > 0
            &&& p.on_exhausted != Some(Outcome::Started)
        },
        None => p.max_rounds is None && p.on_exhausted is None,
    }
}

/// A pipeline none of whose steps is a pipeline.
pub open spec fn runs_scripts_only(policy: Policy, p: Pipeline) -> bool {
    forall|i: int| 0 <= i < p.all_labels().len() ==> !policy.nests(#[trigger] p.all_labels()[i])
}

/// A pipeline that has steps, each once, and that loops within a cap or not at all. One
/// that loops nests nothing.
pub open spec fn pipeline_is_sound(policy: Policy, name: Seq<char>, p: Pipeline) -> bool {
    &&& p.steps@.len() > 0
    &&& p.labels().no_duplicates()
    &&& forall|i: int|
        0 <= i < p.steps@.len() ==> step_is_sound(policy, name, #[trigger] p.steps@[i])
    &&& loop_is_sound(policy, p)
    &&& p.on_fail is Some ==> runs_scripts_only(policy, p)
}

/// A pipeline that runs as a step runs only scripts in sequence.
pub open spec fn nesting_is_flat(policy: Policy, p: Pipeline) -> bool {
    forall|i: int, j: int|
        #![trigger p.all_labels()[i], policy.pipeline_called(p.all_labels()[i])->0.labels()[j]]
        0 <= i < p.all_labels().len() && policy.nests(p.all_labels()[i]) && 0 <= j
            < policy.pipeline_called(p.all_labels()[i])->0.labels().len()
            ==> !policy.nests(policy.pipeline_called(p.all_labels()[i])->0.labels()[j])
}

/// A type that says what it is for and runs pipelines there are, each once, whether as one
/// of its own or as a step of another.
pub open spec fn type_is_sound(policy: Policy, t: TaskType) -> bool {
    let names = t.pipelines.deep_view();
    &&& !is_blank(t.description@)
    &&& names.len() > 0
    &&& names.no_duplicates()
    &&& composed(policy, names).no_duplicates()
    &&& forall|i: int| 0 <= i < names.len() ==> policy.pipeline_called(#[trigger] names[i]) is Some
}

/// What a config has to be for tasks to run by it.
#[verifier::opaque]
pub open spec fn is_valid(policy: Policy) -> bool {
    &&& policy.config.types.entries().len() > 0
    &&& forall|i: int|
        0 <= i < policy.pipelines().len() ==> pipeline_is_sound(
            policy,
            (#[trigger] policy.pipelines()[i]).0,
            policy.pipelines()[i].1,
        )
    &&& forall|c: Seq<Seq<char>>| !#[trigger] is_cycle(policy, c)
    &&& forall|i: int|
        0 <= i < policy.pipelines().len() ==> nesting_is_flat(
            policy,
            (#[trigger] policy.pipelines()[i]).1,
        )
    &&& forall|i: int|
        0 <= i < policy.config.types.entries().len() ==> type_is_sound(
            policy,
            (#[trigger] policy.config.types.entries()[i]).1,
        )
}

proof fn signal_rules_are_sound(policy: Policy, at: Seq<char>, step: Step)
    ensures
        signal_rules(policy, at, step).len() == 0 <==> (step.awaited() is Some
            ==> policy.knows_signal(step.awaited()->0)),
{
}

proof fn missing_rules_are_sound(at: Seq<char>, step: Step)
    ensures
        missing_rules(at, step).len() == 0 <==> (step.missing() is Some ==> step.awaited() == Some(
            "agent_stopped"@,
        )) && step.missing() != Some(Outcome::Started),
{
}

proof fn timeout_rules_are_sound(at: Seq<char>, step: Step)
    ensures
        timeout_rules(at, step).len() == 0 <==> (step.wait() is Some ==> step.awaited() is Some
            && duration(step.wait()->0) is Some) && (step.late() is Some ==> step.wait() is Some)
            && step.late() != Some(Outcome::Started),
{
}

proof fn wait_rules_are_sound(policy: Policy, at: Seq<char>, step: Step)
    ensures
        await_rules(policy, at, step).len() == 0 <==> wait_is_sound(policy, step),
{
    signal_rules_are_sound(policy, at, step);
    missing_rules_are_sound(at, step);
    timeout_rules_are_sound(at, step);
}

proof fn step_rules_are_sound(policy: Policy, pipeline: Seq<char>, step: Step)
    ensures
        step_rules(policy, pipeline)(step).len() == 0 <==> step_is_sound(policy, pipeline, step),
{
    wait_rules_are_sound(policy, "pipeline."@ + pipeline, step);
}

proof fn all_step_rules_are_sound(policy: Policy, name: Seq<char>, p: Pipeline)
    ensures
        flat(p.steps@, step_rules(policy, name)).len() == 0 <==> forall|i: int|
            0 <= i < p.steps@.len() ==> step_is_sound(policy, name, #[trigger] p.steps@[i]),
{
    flat_empty(p.steps@, step_rules(policy, name));
    assert forall|i: int| 0 <= i < p.steps@.len() implies (step_rules(policy, name)(
        #[trigger] p.steps@[i],
    ).len() == 0 <==> step_is_sound(policy, name, p.steps@[i])) by {
        step_rules_are_sound(policy, name, p.steps@[i]);
    }
}

proof fn repeated_step_rules_are_sound(at: Seq<char>, p: Pipeline)
    ensures
        flat(repeated(p.labels()), repeated_step(at)).len() == 0 <==> p.labels().no_duplicates(),
{
    let again = repeated(p.labels());
    repeated_empty(p.labels());
    flat_empty(again, repeated_step(at));
    if again.len() > 0 {
        assert(repeated_step(at)(again[0]).len() == 1);
    }
}

/// The rules on a loop, with those on its cap and its outcome, report nothing exactly where
/// the loop is sound.
proof fn loop_rules_are_sound(policy: Policy, at: Seq<char>, p: Pipeline)
    ensures
        loop_rules(policy, at, p).len() == 0 && p.max_rounds != Some(0u32) && p.on_exhausted
            != Some(Outcome::Started) <==> loop_is_sound(policy, p),
{
}

proof fn nested_rules_are_sound(policy: Policy, at: Seq<char>, p: Pipeline)
    ensures
        flat(p.all_labels(), nested_in_loop(policy, at)).len() == 0 <==> runs_scripts_only(
            policy,
            p,
        ),
{
    flat_empty(p.all_labels(), nested_in_loop(policy, at));
    assert forall|i: int| 0 <= i < p.all_labels().len() implies (nested_in_loop(policy, at)(
        #[trigger] p.all_labels()[i],
    ).len() == 0 <==> !policy.nests(p.all_labels()[i])) by {}
}

proof fn sequence_rules_are_sound(policy: Policy, name: Seq<char>, p: Pipeline)
    ensures
        sequence_rules(policy, name, p).len() == 0 <==> p.steps@.len() > 0
            && p.labels().no_duplicates() && (forall|i: int|
            0 <= i < p.steps@.len() ==> step_is_sound(policy, name, #[trigger] p.steps@[i])),
{
    repeated_step_rules_are_sound("pipeline."@ + name, p);
    all_step_rules_are_sound(policy, name, p);
}

proof fn round_rules_are_sound(policy: Policy, at: Seq<char>, p: Pipeline)
    ensures
        round_rules(policy, at, p).len() == 0 <==> loop_is_sound(policy, p) && (p.on_fail is Some
            ==> runs_scripts_only(policy, p)),
{
    loop_rules_are_sound(policy, at, p);
    nested_rules_are_sound(policy, at, p);
}

proof fn pipeline_rules_are_sound(policy: Policy, name: Seq<char>, p: Pipeline)
    ensures
        pipeline_problems_of(policy, name, p).len() == 0 <==> pipeline_is_sound(policy, name, p),
{
    sequence_rules_are_sound(policy, name, p);
    round_rules_are_sound(policy, "pipeline."@ + name, p);
}

proof fn depth_rules_are_flat(policy: Policy, name: Seq<char>, p: Pipeline)
    ensures
        depth_of(policy)((name, p)).len() == 0 <==> nesting_is_flat(policy, p),
{
    let at = "pipeline."@ + name;
    let all = p.all_labels();
    flat_empty(all, depth_of_step(policy, at));
    assert forall|i: int| 0 <= i < all.len() implies (depth_of_step(policy, at)(
        #[trigger] all[i],
    ).len() == 0 <==> (policy.nests(all[i]) ==> forall|j: int|
        0 <= j < policy.pipeline_called(all[i])->0.labels().len() ==> !policy.nests(
            #[trigger] policy.pipeline_called(all[i])->0.labels()[j],
        ))) by {
        filter_empty(policy.pipeline_called(all[i])->0.labels(), nesting(policy));
    }
    if nesting_is_flat(policy, p) {
        assert forall|i: int| 0 <= i < all.len() implies depth_of_step(policy, at)(
            #[trigger] all[i],
        ).len() == 0 by {}
    }
}

proof fn filter_empty<A>(s: Seq<A>, p: spec_fn(A) -> bool)
    ensures
        s.filter(p).len() == 0 <==> forall|i: int| 0 <= i < s.len() ==> !p(#[trigger] s[i]),
    decreases s.len(),
{
    reveal(Seq::filter);
    if s.len() > 0 {
        let t = s.drop_last();
        filter_empty(t, p);
        assert(forall|i: int| 0 <= i < t.len() ==> t[i] == #[trigger] s[i]);
        if forall|i: int| 0 <= i < s.len() ==> !p(#[trigger] s[i]) {
            assert forall|i: int| 0 <= i < t.len() implies !p(#[trigger] t[i]) by {
                assert(!p(s[i]));
            }
            assert(!p(s[s.len() - 1]));
        }
        if s.filter(p).len() == 0 {
            assert forall|i: int| 0 <= i < s.len() implies !p(#[trigger] s[i]) by {
                if i < t.len() {
                    assert(!p(t[i]));
                }
            }
        }
    }
}

proof fn type_rules_are_sound(policy: Policy, name: Seq<char>, t: TaskType)
    ensures
        type_problems_of(policy, name, t).len() == 0 <==> type_is_sound(policy, t),
{
    let at = "type."@ + name;
    let names = t.pipelines.deep_view();
    let again = run_twice(policy, names);
    repeated_empty(names);
    repeated_empty(composed(policy, names));
    flat_empty(again, repeated_pipeline(at));
    if again.len() > 0 {
        assert(repeated_pipeline(at)(again[0]).len() == 1);
    }
    flat_empty(names, unknown_pipeline(policy, at));
    assert(flat(names, unknown_pipeline(policy, at)).len() == 0 <==> forall|i: int|
        0 <= i < names.len() ==> policy.pipeline_called(#[trigger] names[i]) is Some) by {
        assert forall|i: int| 0 <= i < names.len() implies (unknown_pipeline(policy, at)(
            #[trigger] names[i],
        ).len() == 0 <==> policy.pipeline_called(names[i]) is Some) by {}
    }
}

/// There are cycles to report exactly where there is a cycle.
proof fn cycles_are_reported(policy: Policy)
    ensures
        cycles(policy).len() == 0 <==> forall|c: Seq<Seq<char>>| !#[trigger] is_cycle(policy, c),
{
    list_order_is_order();
    let pool = all_cycle_shapes(policy);
    assert forall|c: Seq<Seq<char>>| #[trigger] cycle_of(policy)(c) implies pool.contains(c) by {
        cycle_has_shape(policy, c);
    }
    listing_exists(pool, list_order(), cycle_of(policy));
    let found = cycles(policy);
    if found.len() > 0 {
        assert(found.contains(found[0]));
        assert(cycle_of(policy)(found[0]));
        assert(is_cycle(policy, found[0]));
    } else {
        assert forall|c: Seq<Seq<char>>| !#[trigger] is_cycle(policy, c) by {
            assert(found.contains(c) <==> cycle_of(policy)(c));
        }
    }
}

/// The rules on pipelines report nothing exactly where each pipeline is sound.
proof fn pipelines_are_sound(policy: Policy)
    ensures
        flat(policy.pipelines(), pipeline_rules(policy)).len() == 0 <==> forall|i: int|
            0 <= i < policy.pipelines().len() ==> pipeline_is_sound(
                policy,
                (#[trigger] policy.pipelines()[i]).0,
                policy.pipelines()[i].1,
            ),
{
    let e = policy.pipelines();
    flat_empty(e, pipeline_rules(policy));
    assert forall|i: int| 0 <= i < e.len() implies (pipeline_rules(policy)(#[trigger] e[i]).len()
        == 0 <==> pipeline_is_sound(policy, e[i].0, e[i].1)) by {
        pipeline_rules_are_sound(policy, e[i].0, e[i].1);
    }
}

/// The rules on composition report nothing exactly where there is no cycle and nesting is
/// flat.
proof fn composition_is_sound(policy: Policy)
    ensures
        composition_rules(policy).len() == 0 <==> (forall|c: Seq<Seq<char>>|
            !#[trigger] is_cycle(policy, c)) && (forall|i: int|
            0 <= i < policy.pipelines().len() ==> nesting_is_flat(
                policy,
                (#[trigger] policy.pipelines()[i]).1,
            )),
{
    let e = policy.pipelines();
    cycles_are_reported(policy);
    flat_empty(cycles(policy), cycle_problem());
    if cycles(policy).len() > 0 {
        assert(cycle_problem()(cycles(policy)[0]).len() == 1);
    }
    flat_empty(e, depth_of(policy));
    assert forall|i: int| 0 <= i < e.len() implies (depth_of(policy)(#[trigger] e[i]).len() == 0
        <==> nesting_is_flat(policy, e[i].1)) by {
        depth_rules_are_flat(policy, e[i].0, e[i].1);
    }
}

/// The rules on types report nothing exactly where each type is sound.
proof fn types_are_sound(policy: Policy)
    ensures
        flat(policy.config.types.entries(), type_rules(policy)).len() == 0 <==> forall|i: int|
            0 <= i < policy.config.types.entries().len() ==> type_is_sound(
                policy,
                (#[trigger] policy.config.types.entries()[i]).1,
            ),
{
    let t = policy.config.types.entries();
    flat_empty(t, type_rules(policy));
    assert forall|i: int| 0 <= i < t.len() implies (type_rules(policy)(#[trigger] t[i]).len() == 0
        <==> type_is_sound(policy, t[i].1)) by {
        type_rules_are_sound(policy, t[i].0, t[i].1);
    }
}

/// A config is valid exactly where no rule reports a problem.
pub proof fn valid_means_no_problems(policy: Policy)
    ensures
        problems_of(policy).len() == 0 <==> is_valid(policy),
{
    assert(problems_of(policy).len() == 0 <==> policy.config.types.entries().len() > 0 && flat(
        policy.pipelines(),
        pipeline_rules(policy),
    ).len() == 0 && composition_rules(policy).len() == 0 && flat(
        policy.config.types.entries(),
        type_rules(policy),
    ).len() == 0);
    assert(is_valid(policy) <==> problems_of(policy).len() == 0) by {
        reveal(is_valid);
        pipelines_are_sound(policy);
        composition_is_sound(policy);
        types_are_sound(policy);
    }
}

// ---------------------------------------------------------------------------
// What is printed
// ---------------------------------------------------------------------------

/// The lines about one problem.
pub open spec fn problem_lines() -> spec_fn(ProblemModel) -> Seq<char> {
    |p: ProblemModel|
        "\n  "@ + p.at + ": "@ + p.message + match p.hint {
            Some(hint) => "\n    "@ + hint,
            None => Seq::empty(),
        }
}

/// The message a person reads when their config is wrong.
pub open spec fn report_text(path: Seq<char>, problems: Seq<ProblemModel>) -> Seq<char> {
    path + " has "@ + nat_text(problems.len()) + " problem"@ + (if problems.len() == 1 {
        ""@
    } else {
        "s"@
    }) + ":"@ + flat(problems, problem_lines())
}

/// The message a person reads when their config is wrong.
pub fn report(policy: &Policy, problems: &Vec<Problem>) -> (r: String)
    ensures
        r@ == report_text(policy.path@, problems.deep_view()),
{
    let plural: &str = if problems.len() == 1 {
        ""
    } else {
        "s"
    };
    let mut out: String = cat5(
        &policy.path,
        " has ",
        &natural(problems.len() as u64),
        " problem",
        plural,
    );
    out.append(":");
    let ghost head = out@;
    let ghost all = problems.deep_view();
    let ghost f = problem_lines();
    assert(out@ =~= head + flat(all.take(0), f));
    for i in 0..problems.len()
        invariant
            all == problems.deep_view(),
            f == problem_lines(),
            out@ == head + flat(all.take(i as int), f),
    {
        let ghost sofar = out@;
        let p: &Problem = &problems[i];
        out.append("\n  ");
        out.append(&p.at);
        out.append(": ");
        out.append(&p.message);
        if let Some(hint) = &p.hint {
            out.append("\n    ");
            out.append(hint);
        }
        proof {
            flat_step(all, f, i as int);
            assert(all[i as int] == problems@[i as int]@);
            assert(out@ =~= sofar + f(all[i as int]));
            assert(out@ =~= head + flat(all.take(i as int + 1), f));
        }
    }
    assert(all.take(all.len() as int) =~= all);
    out
}

/// The steps of a pipeline with what each turned out to mean.
pub open spec fn meanings(policy: Policy, pipeline: Seq<char>) -> Seq<
    (Seq<char>, Option<StepKindModel>),
> {
    match policy.pipeline_called(pipeline) {
        Some(p) => Seq::new(
            p.steps@.len(),
            |i: int| (p.steps@[i].label(), policy.meaning(p.steps@[i].label())),
        ),
        None => Seq::empty(),
    }
}

/// Steps grouped by what they turned out to mean. For `shep validate` output.
pub fn resolved_steps(policy: &Policy, pipeline: &str) -> (r: Vec<(String, Option<StepKind>)>)
    ensures
        r.deep_view() == meanings(*policy, pipeline@),
{
    broadcast use push_deep;

    let mut out: Vec<(String, Option<StepKind>)> = Vec::new();
    let ghost all = meanings(*policy, pipeline@);
    if let Some(p) = policy.config.pipeline.get(pipeline) {
        assert(out.deep_view() =~= all.take(0));
        for i in 0..p.steps.len()
            invariant
                all == meanings(*policy, pipeline@),
                policy.pipeline_called(pipeline@) == Some(*p),
                out.deep_view() == all.take(i as int),
        {
            let ghost prev = out;
            let name: &str = p.steps[i].name();
            out.push((copy(name), policy.step_kind(name)));
            assert(prev.deep_view().push(all[i as int]) =~= all.take(i as int + 1));
        }
        assert(all.take(all.len() as int) =~= all);
    }
    assert(out.deep_view() =~= all);
    out
}

} // verus!
