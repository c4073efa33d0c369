//! The step script contract.
//!
//! In: environment. Out: the last line of stdout is one JSON object. Everything
//! above it is logs, so a script is free to shell out to `pytest` or to an agent
//! and let it print.
//!
//! Nothing here can fail: a broken script, a missing script, a crash and a lie all
//! come back as `error`, because parking a task is the engine's answer to all of
//! them.

use crate::config::{script_search_path, search_path, Policy};
use crate::db::task::{Task, TaskModel};
use crate::error::{Error, ErrorModel};
use crate::outcome::Outcome;
use crate::table::{
    first_index, first_index_absent, first_index_exists, first_index_found, first_index_is_first,
};
use crate::text::{
    blank, cat2, cat4, cat5, chars_of, copy, copy_opt, gaps_before_go, ink_is_not_blank, int_text,
    integer, is_blank, is_gaps, is_ink, join, joined, mentions, nat_text, natural,
    parts_are_mentioned, push_deep, quote, quoted, same, trim_start, trimmed_start,
    trimming_takes_the_gaps, what_a_part_mentions,
};
use vstd::prelude::*;
use vstd::string::*;

verus! {

/// How much of a script's output to keep for the log. A `pytest` run can be
/// enormous and the verdict is what matters; the tail is what says why.
pub const LOG_TAIL: usize = 4000;

// ---------------------------------------------------------------------------
// Where a task is
// ---------------------------------------------------------------------------

/// A step of a pipeline at a round.
#[derive(Debug)]
pub struct StepAt {
    pub pipeline: String,
    pub step: String,
    pub round: i64,
}

#[verifier::ext_equal]
pub struct StepAtModel {
    pub pipeline: Seq<char>,
    pub step: Seq<char>,
    pub round: i64,
}

impl View for StepAt {
    type V = StepAtModel;

    open spec fn view(&self) -> StepAtModel {
        StepAtModel { pipeline: self.pipeline@, step: self.step@, round: self.round }
    }
}

impl DeepView for StepAt {
    type V = StepAtModel;

    open spec fn deep_view(&self) -> StepAtModel {
        self@
    }
}

impl StepAtModel {
    /// As it is told.
    pub open spec fn text(self) -> Seq<char> {
        self.pipeline + "/"@ + self.step + " round "@ + int_text(self.round as int)
    }
}

/// The step a task is at, where it is at one.
pub open spec fn position(t: TaskModel) -> Option<StepAtModel> {
    match (t.pipeline, t.step) {
        (Some(pipeline), Some(step)) => Some(StepAtModel { pipeline, step, round: t.round }),
        _ => None,
    }
}

impl StepAt {
    pub fn new(pipeline: String, step: String, round: i64) -> (r: StepAt)
        ensures
            r@ == (StepAtModel { pipeline: pipeline@, step: step@, round }),
    {
        StepAt { pipeline, step, round }
    }

    /// The step a task is at.
    pub fn of(task: &Task) -> (r: Option<StepAt>)
        ensures
            r.deep_view() == position(task@),
    {
        match (&task.pipeline, &task.step) {
            (Some(pipeline), Some(step)) => Some(
                StepAt { pipeline: copy(pipeline), step: copy(step), round: task.round },
            ),
            _ => None,
        }
    }

    /// As it is told.
    pub fn text(&self) -> (r: String)
        ensures
            r@ == self@.text(),
    {
        cat5(&self.pipeline, "/", &self.step, " round ", &integer(self.round))
    }

    pub fn same_as(&self, other: &StepAt) -> (r: bool)
        ensures
            r == (self@ == other@),
    {
        same(&self.pipeline, &other.pipeline) && same(&self.step, &other.step) && self.round
            == other.round
    }
}

impl Clone for StepAt {
    fn clone(&self) -> (r: StepAt)
        ensures
            r@ == self@,
    {
        StepAt { pipeline: copy(&self.pipeline), step: copy(&self.step), round: self.round }
    }
}

// ---------------------------------------------------------------------------
// What to run
// ---------------------------------------------------------------------------

/// One step invocation, resolved.
#[derive(Debug)]
pub struct StepSpec {
    pub task_id: String,
    pub kind: String,
    pub pipeline: String,
    pub step: String,
    pub round: i64,
    pub script: String,
    /// cwd for the script: the worktree once there is one, else the repo.
    pub cwd: String,
    pub repo: String,
    pub worktree: Option<String>,
    pub branch: Option<String>,
    pub base: Option<String>,
    /// Present only if the task already has a bound pane.
    pub pane: Option<String>,
    /// So `shep` subcommands the script invokes find the right store.
    pub db: String,
}

#[verifier::ext_equal]
pub struct SpecModel {
    pub task_id: Seq<char>,
    pub kind: Seq<char>,
    pub pipeline: Seq<char>,
    pub step: Seq<char>,
    pub round: i64,
    pub script: Seq<char>,
    pub cwd: Seq<char>,
    pub repo: Seq<char>,
    pub worktree: Option<Seq<char>>,
    pub branch: Option<Seq<char>>,
    pub base: Option<Seq<char>>,
    pub pane: Option<Seq<char>>,
    pub db: Seq<char>,
}

impl View for StepSpec {
    type V = SpecModel;

    open spec fn view(&self) -> SpecModel {
        SpecModel {
            task_id: self.task_id@,
            kind: self.kind@,
            pipeline: self.pipeline@,
            step: self.step@,
            round: self.round,
            script: self.script@,
            cwd: self.cwd@,
            repo: self.repo@,
            worktree: self.worktree.deep_view(),
            branch: self.branch.deep_view(),
            base: self.base.deep_view(),
            pane: self.pane.deep_view(),
            db: self.db@,
        }
    }
}

/// Where a task's work happens: its worktree once it has one, else the repo.
pub open spec fn work_dir(t: TaskModel) -> Seq<char> {
    match t.worktree {
        Some(dir) => dir,
        None => t.repo,
    }
}

pub fn work_dir_of(task: &Task) -> (r: String)
    ensures
        r@ == work_dir(task@),
{
    match &task.worktree {
        Some(dir) => copy(dir),
        None => copy(&task.repo),
    }
}

/// What a step of a task runs, given its script.
pub open spec fn invocation(
    t: TaskModel,
    at: StepAtModel,
    script: Seq<char>,
    db: Seq<char>,
    pane: Option<Seq<char>>,
) -> SpecModel {
    SpecModel {
        task_id: t.id,
        kind: t.kind,
        pipeline: at.pipeline,
        step: at.step,
        round: at.round,
        script,
        cwd: work_dir(t),
        repo: t.repo,
        worktree: t.worktree,
        branch: t.branch,
        base: t.base,
        pane,
        db,
    }
}

/// What resolving a step of a task gives: what to run, or where its script was
/// looked for.
pub open spec fn resolution(
    policy: Policy,
    t: TaskModel,
    at: StepAtModel,
    db: Seq<char>,
    pane: Option<Seq<char>>,
    home: Option<Seq<char>>,
) -> Result<SpecModel, ErrorModel> {
    match policy.script(at.step) {
        Some(script) => Ok(invocation(t, at, script, db, pane)),
        None => Err(
            ErrorModel::Other(
                "step "@ + quoted(at.step) + " has no script — looked in "@ + joined(
                    search_path(policy.repo@, home),
                    ", "@,
                ),
            ),
        ),
    }
}

impl StepSpec {
    /// Resolve what to run for a task sitting at a step.
    pub fn resolve(
        policy: &Policy,
        task: &Task,
        pipeline: &str,
        step: &str,
        round: i64,
        db: &str,
        pane: Option<String>,
        home: &Option<String>,
    ) -> (r: Result<StepSpec, Error>)
        ensures
            match resolution(
                *policy,
                task@,
                (StepAtModel { pipeline: pipeline@, step: step@, round }),
                db@,
                pane.deep_view(),
                home.deep_view(),
            ) {
                Ok(m) => r matches Ok(spec) && spec@ == m,
                Err(m) => r matches Err(e) && e@ == m,
            },
    {
        match policy.script_path(step) {
            Some(script) => Ok(
                StepSpec {
                    task_id: copy(&task.id),
                    kind: copy(&task.kind),
                    pipeline: copy(pipeline),
                    step: copy(step),
                    round,
                    script,
                    cwd: work_dir_of(task),
                    repo: copy(&task.repo),
                    worktree: copy_opt(&task.worktree),
                    branch: copy_opt(&task.branch),
                    base: copy_opt(&task.base),
                    pane,
                    db: copy(db),
                },
            ),
            None => Err(
                Error::Other(
                    cat4(
                        "step ",
                        &quote(step),
                        " has no script — looked in ",
                        &join(&script_search_path(&policy.repo, home), ", "),
                    ),
                ),
            ),
        }
    }
}

/// A variable of the environment, where there is a value: absent rather than empty,
/// so that a script testing for it gets the truth.
pub open spec fn variable(key: Seq<char>, value: Option<Seq<char>>) -> Seq<(Seq<char>, Seq<char>)> {
    match value {
        Some(v) => seq![(key, v)],
        None => Seq::empty(),
    }
}

/// The environment a step script gets.
pub open spec fn environment_of(spec: SpecModel) -> Seq<(Seq<char>, Seq<char>)> {
    seq![
        ("SHEP_TASK_ID"@, spec.task_id),
        ("SHEP_TYPE"@, spec.kind),
        ("SHEP_PIPELINE"@, spec.pipeline),
        ("SHEP_STEP"@, spec.step),
        ("SHEP_ROUND"@, int_text(spec.round as int)),
        ("SHEP_REPO"@, spec.repo),
        ("SHEP_DB"@, spec.db),
    ] + variable("SHEP_WORKTREE"@, spec.worktree) + variable("SHEP_BRANCH"@, spec.branch)
        + variable("SHEP_BASE"@, spec.base) + variable("SHEP_PANE"@, spec.pane)
}

fn set_variable(env: &mut Vec<(String, String)>, key: &str, value: &Option<String>)
    ensures
        final(env).deep_view() == old(env).deep_view() + variable(key@, value.deep_view()),
{
    broadcast use push_deep;

    let ghost before = *env;
    if let Some(v) = value {
        env.push((copy(key), copy(v)));
        assert(env.deep_view() =~= before.deep_view().push((key@, v@)));
    }
    assert(env.deep_view() =~= before.deep_view() + variable(key@, value.deep_view()));
}

/// The environment of a step script, plus whatever Herdr injected into the
/// supervisor.
pub fn environment(spec: &StepSpec) -> (r: Vec<(String, String)>)
    ensures
        r.deep_view() == environment_of(spec@),
{
    let mut env: Vec<(String, String)> = Vec::new();
    assert(env.deep_view() =~= Seq::empty());
    set_variable(&mut env, "SHEP_TASK_ID", &Some(copy(&spec.task_id)));
    set_variable(&mut env, "SHEP_TYPE", &Some(copy(&spec.kind)));
    set_variable(&mut env, "SHEP_PIPELINE", &Some(copy(&spec.pipeline)));
    set_variable(&mut env, "SHEP_STEP", &Some(copy(&spec.step)));
    set_variable(&mut env, "SHEP_ROUND", &Some(integer(spec.round)));
    set_variable(&mut env, "SHEP_REPO", &Some(copy(&spec.repo)));
    set_variable(&mut env, "SHEP_DB", &Some(copy(&spec.db)));
    set_variable(&mut env, "SHEP_WORKTREE", &spec.worktree);
    set_variable(&mut env, "SHEP_BRANCH", &spec.branch);
    set_variable(&mut env, "SHEP_BASE", &spec.base);
    set_variable(&mut env, "SHEP_PANE", &spec.pane);
    assert(env.deep_view() =~= environment_of(spec@));
    env
}

// ---------------------------------------------------------------------------
// What came of it
// ---------------------------------------------------------------------------

/// What a step said.
#[derive(Debug)]
pub struct StepReport {
    pub outcome: Outcome,
    pub note: Option<String>,
    /// Only meaningful with `started`: the pane the work is happening in.
    pub pane: Option<String>,
    pub exit_code: Option<i32>,
    /// The tail of what the script printed, for the log.
    pub logs: String,
}

#[verifier::ext_equal]
pub struct ReportModel {
    pub outcome: Outcome,
    pub note: Option<Seq<char>>,
    pub pane: Option<Seq<char>>,
    pub exit_code: Option<i32>,
    pub logs: Seq<char>,
}

impl View for StepReport {
    type V = ReportModel;

    open spec fn view(&self) -> ReportModel {
        ReportModel {
            outcome: self.outcome,
            note: self.note.deep_view(),
            pane: self.pane.deep_view(),
            exit_code: self.exit_code,
            logs: self.logs@,
        }
    }
}

impl DeepView for StepReport {
    type V = ReportModel;

    open spec fn deep_view(&self) -> ReportModel {
        self@
    }
}

impl ReportModel {
    /// A step that broke.
    pub open spec fn broke(note: Seq<char>, exit_code: Option<i32>, logs: Seq<char>) -> ReportModel {
        ReportModel { outcome: Outcome::Error, note: Some(note), pane: None, exit_code, logs }
    }

    /// A verdict that no script printed.
    pub open spec fn said(outcome: Outcome, note: Seq<char>) -> ReportModel {
        ReportModel { outcome, note: Some(note), pane: None, exit_code: None, logs: Seq::empty() }
    }
}

impl StepReport {
    fn error(note: String, exit_code: Option<i32>, logs: String) -> (r: StepReport)
        ensures
            r@ == ReportModel::broke(note@, exit_code, logs@),
    {
        StepReport { outcome: Outcome::Error, note: Some(note), pane: None, exit_code, logs }
    }

    /// A verdict from somewhere other than a script's output.
    pub fn verdict(outcome: Outcome, note: String) -> (r: StepReport)
        ensures
            r@ == ReportModel::said(outcome, note@),
    {
        let logs: String = String::new();
        assert(logs@ =~= Seq::empty());
        StepReport { outcome, note: Some(note), pane: None, exit_code: None, logs }
    }
}

/// The JSON a step is allowed to end with.
#[derive(Debug)]
pub struct Verdict {
    pub outcome: Outcome,
    pub note: Option<String>,
    pub pane: Option<String>,
}

/// What a script that ran left behind.
#[derive(Debug)]
pub struct Output {
    pub stdout: String,
    pub stderr: String,
    /// The exit status, where it exited.
    pub code: Option<i32>,
    /// The signal that ended it, where one did.
    pub signal: Option<i32>,
}

pub open spec fn newlines() -> spec_fn(char) -> bool {
    |c: char| c == '\n'
}

/// A line without the carriage return before its end.
pub open spec fn without_return(line: Seq<char>) -> Seq<char> {
    if line.len() > 0 && line.last() == '\r' {
        line.drop_last()
    } else {
        line
    }
}

/// The lines of a text. What ends a line is no part of it, and the last need not be
/// ended.
pub open spec fn lines_of(s: Seq<char>) -> Seq<Seq<char>>
    decreases s.len(),
    when lines_shrink(s)
{
    if s.len() == 0 {
        Seq::empty()
    } else {
        match first_index(s, newlines()) {
            Some(i) => seq![without_return(s.take(i))] + lines_of(s.skip(i + 1)),
            None => seq![s],
        }
    }
}

/// A line end that is found is one of the text's characters.
pub open spec fn lines_shrink(s: Seq<char>) -> bool {
    match first_index(s, newlines()) {
        Some(i) => 0 <= i < s.len(),
        None => true,
    }
}

proof fn lines_always_shrink(s: Seq<char>)
    ensures
        lines_shrink(s),
{
    if first_index(s, newlines()) is Some {
        first_index_is_first(s, newlines());
    }
}

/// The last line that is not blank.
pub open spec fn last_full(lines: Seq<Seq<char>>) -> Option<Seq<char>>
    decreases lines.len(),
{
    if lines.len() == 0 {
        None
    } else if is_blank(lines.last()) {
        last_full(lines.drop_last())
    } else {
        Some(lines.last())
    }
}

proof fn last_full_front(a: Seq<char>, rest: Seq<Seq<char>>)
    ensures
        last_full(seq![a] + rest) == (match last_full(rest) {
            Some(l) => Some(l),
            None => if is_blank(a) {
                None
            } else {
                Some(a)
            },
        }),
    decreases rest.len(),
{
    let all = seq![a] + rest;
    if rest.len() == 0 {
        assert(all =~= seq![a]);
        assert(all.drop_last() =~= Seq::empty());
        reveal_with_fuel(last_full, 2);
    } else {
        assert(all.last() == rest.last());
        assert(all.drop_last() =~= seq![a] + rest.drop_last());
        last_full_front(a, rest.drop_last());
    }
}

/// The line a script's verdict is on: the last of its output that is not blank.
pub fn verdict_line(stdout: &str) -> (r: Option<String>)
    ensures
        r.deep_view() == last_full(lines_of(stdout@)),
{
    let cs: Vec<char> = chars_of(stdout);
    let ghost s = stdout@;
    let n: usize = cs.len();
    let mut found: Option<String> = None;
    let mut from: usize = 0;
    assert(s.skip(0) =~= s);
    proof {
        lines_always_shrink(s);
    }
    while from < n
        invariant
            from <= n,
            n == cs.len(),
            cs@ == s,
            s == stdout@,
            last_full(lines_of(s)) == (match last_full(lines_of(s.skip(from as int))) {
                Some(l) => Some(l),
                None => found.deep_view(),
            }),
        decreases n - from,
    {
        let ghost rest = s.skip(from as int);
        let mut to: usize = from;
        while to < n && cs[to] != '\n'
            invariant
                from <= to <= n,
                n == cs.len(),
                cs@ == s,
                rest == s.skip(from as int),
                forall|j: int| 0 <= j < to - from ==> !newlines()(#[trigger] rest[j]),
            decreases n - to,
        {
            assert(rest[to - from] == s[to as int]);
            to = to + 1;
        }
        let ended: bool = to < n;
        let end: usize = if ended && to > from && cs[to - 1] == '\r' {
            to - 1
        } else {
            to
        };
        let line: String = stdout.substring_char(from, end).to_owned();
        proof {
            lines_always_shrink(rest);
            if ended {
                assert(rest[to - from] == '\n');
                first_index_found(rest, newlines(), to - from);
                assert(rest.skip(to - from + 1) =~= s.skip(to as int + 1));
                assert(line@ =~= without_return(rest.take(to - from)));
                lines_always_shrink(s.skip(to as int + 1));
                last_full_front(line@, lines_of(s.skip(to as int + 1)));
            } else {
                first_index_absent(rest, newlines());
                assert(line@ =~= rest);
                assert(s.skip(n as int) =~= Seq::empty());
                lines_always_shrink(s.skip(n as int));
                assert(seq![line@] + Seq::<Seq<char>>::empty() =~= seq![line@]);
                last_full_front(line@, Seq::empty());
            }
        }
        if !blank(&line) {
            found = Some(line);
        }
        from = if ended {
            to + 1
        } else {
            n
        };
    }
    proof {
        assert(s.skip(n as int) =~= Seq::empty());
        lines_always_shrink(s.skip(n as int));
    }
    found
}

/// The end of a text, which is where the reason usually is.
pub open spec fn tail_of(text: Seq<char>, keep: nat) -> Seq<char> {
    if text.len() <= keep {
        text
    } else {
        "… ["@ + nat_text((text.len() - keep) as nat) + " characters omitted] …"@ + text.skip(
            text.len() - keep,
        )
    }
}

pub fn tail(text: &str, keep: usize) -> (r: String)
    ensures
        r@ == tail_of(text@, keep as nat),
{
    let count: usize = text.unicode_len();
    if count <= keep {
        return copy(text);
    }
    let skipped: usize = count - keep;
    assert(text@.subrange(skipped as int, count as int) =~= text@.skip(skipped as int));
    cat4(
        "… [",
        &natural(skipped as u64),
        " characters omitted] …",
        text.substring_char(skipped, count),
    )
}

/// What is kept of a script's output.
pub open spec fn logs_of(stdout: Seq<char>, stderr: Seq<char>) -> Seq<char> {
    let out = if is_blank(stdout) {
        Seq::empty()
    } else {
        tail_of(stdout, LOG_TAIL as nat)
    };
    if is_blank(stderr) {
        out
    } else {
        out + (if out.len() > 0 {
            "\n"@
        } else {
            Seq::empty()
        }) + "stderr: "@ + tail_of(stderr, LOG_TAIL as nat)
    }
}

pub fn combine(stdout: &str, stderr: &str) -> (r: String)
    ensures
        r@ == logs_of(stdout@, stderr@),
{
    let mut logs: String = String::new();
    assert(logs@ =~= Seq::empty());
    if !blank(stdout) {
        logs = tail(stdout, LOG_TAIL);
    }
    let ghost out = logs@;
    if !blank(stderr) {
        if !logs.as_str().is_empty() {
            logs.append("\n");
        }
        logs.append("stderr: ");
        logs.append(&tail(stderr, LOG_TAIL));
    }
    assert(logs@ =~= logs_of(stdout@, stderr@));
    logs
}

/// How a script ended, as it is told.
pub open spec fn ending(code: Option<i32>, signal: Option<i32>) -> Seq<char> {
    match code {
        Some(n) => "with status "@ + int_text(n as int),
        None => match signal {
            Some(n) => "on signal "@ + int_text(n as int),
            None => "abnormally"@,
        },
    }
}

pub fn describe_status(code: Option<i32>, signal: Option<i32>) -> (r: String)
    ensures
        r@ == ending(code, signal),
{
    match code {
        Some(n) => cat2("with status ", &integer(n as i64)),
        None => match signal {
            Some(n) => cat2("on signal ", &integer(n as i64)),
            None => copy("abnormally"),
        },
    }
}

/// Why a line is no verdict, though it has the values of one.
pub const NO_OBJECT: &'static str = "not one JSON object";

/// Does a line of JSON hold an object? A list of the same values is no verdict.
pub open spec fn is_object(line: Seq<char>) -> bool {
    let text = trimmed_start(line);
    text.len() > 0 && text[0] == '{'
}

fn holds_object(line: &str) -> (r: bool)
    ensures
        r == is_object(line@),
{
    let text: String = trim_start(line);
    text.as_str().unicode_len() > 0 && text.as_str().get_char(0) == '{'
}

/// What a step said that ended with a line that is no verdict.
pub open spec fn no_verdict(
    why: Seq<char>,
    line: Seq<char>,
    code: Option<i32>,
    logs: Seq<char>,
) -> ReportModel {
    ReportModel::broke(
        "last line of stdout is not a verdict ("@ + why + "): "@ + tail_of(line, 200),
        code,
        logs,
    )
}

fn not_a_verdict(why: &str, line: &str, code: Option<i32>, logs: String) -> (r: StepReport)
    ensures
        r@ == no_verdict(why@, line@, code, logs@),
{
    StepReport::error(
        cat4("last line of stdout is not a verdict (", why, "): ", &tail(line, 200)),
        code,
        logs,
    )
}

/// What a step said, by how its script ended and what it printed. A non-zero exit
/// is an error regardless of what was printed: a script that failed and still
/// claimed to pass is exactly the case worth not believing.
pub open spec fn reported(
    script: Seq<char>,
    ran: Result<Output, String>,
    verdict: Result<Verdict, String>,
) -> ReportModel {
    match ran {
        Err(why) => ReportModel::broke(
            "could not run "@ + script + ": "@ + why@,
            None,
            Seq::empty(),
        ),
        Ok(o) => {
            let logs = logs_of(o.stdout@, o.stderr@);
            if o.code != Some(0i32) {
                ReportModel::broke("exited "@ + ending(o.code, o.signal), o.code, logs)
            } else {
                match last_full(lines_of(o.stdout@)) {
                    None => ReportModel::broke(
                        "printed nothing — the last line of stdout must be one JSON object"@,
                        o.code,
                        logs,
                    ),
                    Some(line) => match verdict {
                        Ok(v) => if is_object(line) {
                            ReportModel {
                                outcome: v.outcome,
                                note: v.note.deep_view(),
                                pane: v.pane.deep_view(),
                                exit_code: o.code,
                                logs,
                            }
                        } else {
                            no_verdict(NO_OBJECT@, line, o.code, logs)
                        },
                        Err(why) => no_verdict(why@, line, o.code, logs),
                    },
                }
            }
        },
    }
}

/// What a step said. `ran` is what running its script left behind, or why it could
/// not be run; `verdict` is what its verdict line was parsed to, where there is one.
pub fn report(
    script: &str,
    ran: &Result<Output, String>,
    verdict: &Result<Verdict, String>,
) -> (r: StepReport)
    ensures
        r@ == reported(script@, *ran, *verdict),
{
    match ran {
        Err(why) => {
            let logs: String = String::new();
            assert(logs@ =~= Seq::empty());
            StepReport::error(cat4("could not run ", script, ": ", why), None, logs)
        },
        Ok(o) => {
            let logs: String = combine(&o.stdout, &o.stderr);
            let success: bool = match o.code {
                Some(n) => n == 0,
                None => false,
            };
            if !success {
                return StepReport::error(
                    cat2("exited ", &describe_status(o.code, o.signal)),
                    o.code,
                    logs,
                );
            }
            match verdict_line(&o.stdout) {
                None => StepReport::error(
                    copy("printed nothing — the last line of stdout must be one JSON object"),
                    o.code,
                    logs,
                ),
                Some(line) => match verdict {
                    Ok(v) => if holds_object(&line) {
                        StepReport {
                            outcome: v.outcome,
                            note: copy_opt(&v.note),
                            pane: copy_opt(&v.pane),
                            exit_code: o.code,
                            logs,
                        }
                    } else {
                        not_a_verdict(NO_OBJECT, &line, o.code, logs)
                    },
                    Err(why) => not_a_verdict(why, &line, o.code, logs),
                },
            }
        },
    }
}

/// A step whose script did not exit with status zero errors, whatever it printed.
pub proof fn a_failed_script_errors(
    script: Seq<char>,
    ran: Result<Output, String>,
    verdict: Result<Verdict, String>,
)
    requires
        ran is Err || ran->Ok_0.code != Some(0i32),
    ensures
        reported(script, ran, verdict).outcome == Outcome::Error,
{
}

// ---------------------------------------------------------------------------
// What a script's output says
// ---------------------------------------------------------------------------

/// The lines of a text, and those of what comes behind its last line end.
proof fn lines_join(head: Seq<char>, s: Seq<char>)
    requires
        head.len() == 0 || head.last() == '\n',
    ensures
        lines_of(head + s) == lines_of(head) + lines_of(s),
    decreases head.len(),
{
    let all = head + s;
    lines_always_shrink(head);
    lines_always_shrink(s);
    lines_always_shrink(all);
    if head.len() == 0 {
        assert(all =~= s);
        assert(lines_of(head) + lines_of(s) =~= lines_of(s));
    } else {
        first_index_exists(head, newlines(), head.len() - 1);
        let i = first_index(head, newlines())->0;
        assert(all[i] == head[i]);
        assert forall|j: int| 0 <= j < i implies !newlines()(#[trigger] all[j]) by {
            assert(all[j] == head[j]);
            assert(!newlines()(head[j]));
        }
        first_index_found(all, newlines(), i);
        assert(all.take(i) =~= head.take(i));
        let rest = head.skip(i + 1);
        assert(all.skip(i + 1) =~= rest + s);
        lines_join(rest, s);
        let first = seq![without_return(head.take(i))];
        assert(first + (lines_of(rest) + lines_of(s)) =~= (first + lines_of(rest)) + lines_of(s));
    }
}

proof fn last_full_join(a: Seq<Seq<char>>, b: Seq<Seq<char>>)
    ensures
        last_full(a + b) == (match last_full(b) {
            Some(l) => Some(l),
            None => last_full(a),
        }),
    decreases b.len(),
{
    if b.len() == 0 {
        assert(a + b =~= a);
    } else {
        assert((a + b).last() == b.last());
        assert((a + b).drop_last() =~= a + b.drop_last());
        last_full_join(a, b.drop_last());
    }
}

/// Gaps are of no full line.
proof fn gaps_have_no_full_line(s: Seq<char>)
    requires
        is_gaps(s),
    ensures
        last_full(lines_of(s)) is None,
    decreases s.len(),
{
    lines_always_shrink(s);
    if s.len() > 0 {
        let none = Seq::<char>::empty();
        match first_index(s, newlines()) {
            Some(i) => {
                first_index_is_first(s, newlines());
                let line = without_return(s.take(i));
                let rest = s.skip(i + 1);
                assert(is_gaps(line));
                assert(is_gaps(rest));
                trimming_takes_the_gaps(line, none, none);
                assert(line + none + none =~= line);
                gaps_have_no_full_line(rest);
                last_full_front(line, lines_of(rest));
            },
            None => {
                trimming_takes_the_gaps(s, none, none);
                assert(s + none + none =~= s);
                assert(seq![s].drop_last() =~= Seq::empty());
                reveal_with_fuel(last_full, 2);
            },
        }
    }
}

/// Is this what may come behind the last line that says something: nothing, or the end of
/// the line and gaps?
pub open spec fn ends_a_line(rest: Seq<char>) -> bool {
    &&& is_gaps(rest)
    &&& rest.len() > 0 ==> rest[0] == '\n' || (rest.len() > 1 && rest[0] == '\r' && rest[1] == '\n')
}

/// The lines of a line and what ends it.
proof fn line_and_rest(line: Seq<char>, rest: Seq<char>)
    requires
        line.len() > 0,
        line.last() != '\r',
        !line.contains('\n'),
        ends_a_line(rest),
        !is_blank(line),
    ensures
        last_full(lines_of(line + rest)) == Some(line),
{
    let all = line + rest;
    lines_always_shrink(all);
    assert forall|j: int| 0 <= j < line.len() implies !newlines()(#[trigger] all[j]) by {
        assert(all[j] == line[j]);
        assert(line.contains(line[j]));
    }
    if rest.len() == 0 {
        assert(all =~= line);
        first_index_absent(all, newlines());
        reveal_with_fuel(last_full, 2);
    } else {
        let i = if rest[0] == '\n' {
            line.len() as int
        } else {
            line.len() as int + 1
        };
        assert(all[i] == '\n');
        if i > line.len() {
            assert(all[line.len() as int] == '\r');
        }
        first_index_found(all, newlines(), i);
        let behind = all.skip(i + 1);
        assert(behind =~= rest.skip(i + 1 - line.len()));
        assert(is_gaps(behind));
        if i == line.len() {
            assert(all.take(i) =~= line);
        } else {
            assert(all.take(i) =~= line.push('\r'));
            assert(line.push('\r').drop_last() =~= line);
        }
        gaps_have_no_full_line(behind);
        last_full_front(line, lines_of(behind));
    }
}

/// The verdict is on the last line of the output that says something, whatever lines come
/// before it and whatever gaps behind it.
pub proof fn the_verdict_is_on_the_last_line(
    head: Seq<char>,
    front: Seq<char>,
    said: Seq<char>,
    rest: Seq<char>,
)
    requires
        head.len() == 0 || head.last() == '\n',
        is_gaps(front),
        !front.contains('\n'),
        said.len() > 0 && is_ink(said[0]) && is_ink(said.last()),
        !said.contains('\n'),
        ends_a_line(rest),
    ensures
        last_full(lines_of(head + (front + said) + rest)) == Some(front + said),
{
    let line = front + said;
    assert(line.last() == said.last());
    assert(!line.contains('\n')) by {
        if line.contains('\n') {
            let i = line.index_of('\n');
            if i < front.len() {
                assert(front[i] == '\n');
            } else {
                assert(said[i - front.len()] == '\n');
            }
        }
    }
    ink_is_not_blank(front, said);
    line_and_rest(line, rest);
    assert(head + line + rest =~= head + (line + rest));
    lines_join(head, line + rest);
    last_full_join(lines_of(head), lines_of(line + rest));
}

/// A script that exits with status zero, and whose last line is an object that reads as a
/// verdict, says what the verdict says: its outcome, whichever of them it is, its note and
/// its pane. Whatever the script printed before makes no difference.
pub proof fn a_verdict_is_believed(
    script: Seq<char>,
    ran: Output,
    verdict: Verdict,
    head: Seq<char>,
    front: Seq<char>,
    said: Seq<char>,
    rest: Seq<char>,
)
    requires
        ran.code == Some(0i32),
        ran.stdout@ == head + (front + said) + rest,
        head.len() == 0 || head.last() == '\n',
        is_gaps(front),
        !front.contains('\n'),
        said.len() > 0 && said[0] == '{' && is_ink(said.last()),
        !said.contains('\n'),
        ends_a_line(rest),
    ensures
        ({
            let r = reported(script, Ok(ran), Ok(verdict));
            &&& r.outcome == verdict.outcome
            &&& r.note == verdict.note.deep_view()
            &&& r.pane == verdict.pane.deep_view()
            &&& r.exit_code == Some(0i32)
        }),
{
    the_verdict_is_on_the_last_line(head, front, said, rest);
    gaps_before_go(front, said);
}

/// A script that says nothing, or whose last line does not read as a verdict or is no
/// object, errors, though it exits with status zero. Nothing it printed is taken for a note
/// or a pane of its own.
pub proof fn what_is_no_verdict_is_an_error(
    script: Seq<char>,
    ran: Output,
    verdict: Result<Verdict, String>,
    head: Seq<char>,
    front: Seq<char>,
    said: Seq<char>,
    rest: Seq<char>,
)
    requires
        ran.stdout@ == head + (front + said) + rest,
        head.len() == 0 || head.last() == '\n',
        is_gaps(front),
        !front.contains('\n'),
        said.len() > 0 && is_ink(said[0]) && is_ink(said.last()),
        !said.contains('\n'),
        ends_a_line(rest),
        verdict is Err || said[0] != '{' || ran.code != Some(0i32),
    ensures
        ({
            let r = reported(script, Ok(ran), verdict);
            &&& r.outcome == Outcome::Error
            &&& r.note is Some
            &&& r.pane is None
            &&& r.exit_code == ran.code
        }),
{
    the_verdict_is_on_the_last_line(head, front, said, rest);
    gaps_before_go(front, said);
}

/// A script that printed nothing but gaps, or could not be run, errors.
pub proof fn saying_nothing_is_an_error(
    script: Seq<char>,
    ran: Result<Output, String>,
    verdict: Result<Verdict, String>,
)
    requires
        ran is Err || is_gaps(ran->Ok_0.stdout@),
    ensures
        ({
            let r = reported(script, ran, verdict);
            &&& r.outcome == Outcome::Error
            &&& r.note is Some
            &&& r.pane is None
        }),
{
    if let Ok(o) = ran {
        gaps_have_no_full_line(o.stdout@);
    }
}

/// What is kept of a text is all of it where it is short enough, and else its end.
pub proof fn the_end_is_kept(text: Seq<char>, keep: nat)
    ensures
        text.len() <= keep ==> tail_of(text, keep) == text,
        text.len() > keep ==> tail_of(text, keep).len() > keep && tail_of(text, keep).skip(
            tail_of(text, keep).len() - keep,
        ) == text.skip(text.len() - keep),
{
    if text.len() > keep {
        let end = text.skip(text.len() - keep);
        let t = tail_of(text, keep);
        reveal_strlit("… [");
        assert("… ["@.len() > 0);
        assert(t.skip(t.len() - keep) =~= end);
    }
}

/// A script is run for its task, at the place it stands at, in the worktree where there is
/// one and else in the repo, with what is known of the task's branch, base and pane.
pub proof fn a_script_is_run_for_its_task(
    policy: Policy,
    t: TaskModel,
    at: StepAtModel,
    db: Seq<char>,
    pane: Option<Seq<char>>,
    home: Option<Seq<char>>,
)
    ensures
        policy.script(at.step) is None ==> resolution(policy, t, at, db, pane, home) is Err,
        policy.script(at.step) is Some ==> {
            let r = resolution(policy, t, at, db, pane, home);
            &&& r is Ok
            &&& r->Ok_0.script == policy.script(at.step)->0
            &&& r->Ok_0.cwd == (if t.worktree is Some {
                t.worktree->0
            } else {
                t.repo
            })
            &&& r->Ok_0.task_id == t.id && r->Ok_0.kind == t.kind
            &&& r->Ok_0.pipeline == at.pipeline && r->Ok_0.step == at.step
            &&& r->Ok_0.round == at.round
            &&& r->Ok_0.repo == t.repo && r->Ok_0.worktree == t.worktree
            &&& r->Ok_0.branch == t.branch && r->Ok_0.base == t.base
            &&& r->Ok_0.pane == pane && r->Ok_0.db == db
        },
{
}

/// Is a variable set to what there is, and to nothing where there is nothing?
pub open spec fn is_set(
    env: Seq<(Seq<char>, Seq<char>)>,
    key: Seq<char>,
    value: Option<Seq<char>>,
) -> bool {
    &&& value is Some ==> env.contains((key, value->0))
    &&& value is None ==> forall|i: int| 0 <= i < env.len() ==> (#[trigger] env[i]).0 != key
}

/// A script finds in its environment which task it is run for and where: each variable has
/// its value, and those without one are absent.
pub proof fn a_script_is_told_where_it_is(spec: SpecModel)
    ensures
        ({
            let env = environment_of(spec);
            &&& is_set(env, "SHEP_TASK_ID"@, Some(spec.task_id))
            &&& is_set(env, "SHEP_TYPE"@, Some(spec.kind))
            &&& is_set(env, "SHEP_PIPELINE"@, Some(spec.pipeline))
            &&& is_set(env, "SHEP_STEP"@, Some(spec.step))
            &&& is_set(env, "SHEP_ROUND"@, Some(int_text(spec.round as int)))
            &&& is_set(env, "SHEP_REPO"@, Some(spec.repo))
            &&& is_set(env, "SHEP_DB"@, Some(spec.db))
            &&& is_set(env, "SHEP_WORKTREE"@, spec.worktree)
            &&& is_set(env, "SHEP_BRANCH"@, spec.branch)
            &&& is_set(env, "SHEP_BASE"@, spec.base)
            &&& is_set(env, "SHEP_PANE"@, spec.pane)
        }),
{
    reveal_strlit("SHEP_TASK_ID");
    reveal_strlit("SHEP_TYPE");
    reveal_strlit("SHEP_PIPELINE");
    reveal_strlit("SHEP_STEP");
    reveal_strlit("SHEP_ROUND");
    reveal_strlit("SHEP_REPO");
    reveal_strlit("SHEP_DB");
    reveal_strlit("SHEP_WORKTREE");
    reveal_strlit("SHEP_BRANCH");
    reveal_strlit("SHEP_BASE");
    reveal_strlit("SHEP_PANE");
    assert("SHEP_WORKTREE"@[5] == 'W' && "SHEP_WORKTREE"@.len() == 13);
    assert("SHEP_BRANCH"@[6] == 'R' && "SHEP_BRANCH"@[5] == 'B' && "SHEP_BRANCH"@.len() == 11);
    assert("SHEP_BASE"@[6] == 'A' && "SHEP_BASE"@[5] == 'B' && "SHEP_BASE"@.len() == 9);
    assert("SHEP_PANE"@[6] == 'A' && "SHEP_PANE"@[5] == 'P' && "SHEP_PANE"@.len() == 9);
    assert("SHEP_TASK_ID"@[5] == 'T' && "SHEP_TYPE"@[5] == 'T' && "SHEP_PIPELINE"@[6] == 'I');
    assert("SHEP_STEP"@[5] == 'S' && "SHEP_ROUND"@[5] == 'R' && "SHEP_REPO"@[5] == 'R');
    assert("SHEP_DB"@[5] == 'D');
    let env = environment_of(spec);
    let w = variable("SHEP_WORKTREE"@, spec.worktree);
    let b = variable("SHEP_BRANCH"@, spec.branch);
    let c = variable("SHEP_BASE"@, spec.base);
    let d = variable("SHEP_PANE"@, spec.pane);
    assert(env[0] == ("SHEP_TASK_ID"@, spec.task_id));
    assert(env[1] == ("SHEP_TYPE"@, spec.kind));
    assert(env[2] == ("SHEP_PIPELINE"@, spec.pipeline));
    assert(env[3] == ("SHEP_STEP"@, spec.step));
    assert(env[4] == ("SHEP_ROUND"@, int_text(spec.round as int)));
    assert(env[5] == ("SHEP_REPO"@, spec.repo));
    assert(env[6] == ("SHEP_DB"@, spec.db));
    if spec.worktree is Some {
        assert(env[7] == ("SHEP_WORKTREE"@, spec.worktree->0));
    }
    if spec.branch is Some {
        assert(env[7 + w.len() as int] == ("SHEP_BRANCH"@, spec.branch->0));
    }
    if spec.base is Some {
        assert(env[7 + w.len() as int + b.len()] == ("SHEP_BASE"@, spec.base->0));
    }
    if spec.pane is Some {
        assert(env[7 + w.len() as int + b.len() + c.len()] == ("SHEP_PANE"@, spec.pane->0));
    }
}

/// A verdict that no script printed says what it is given, and an error says why.
pub proof fn a_verdict_says_what_it_is_given(
    outcome: Outcome,
    note: Seq<char>,
    code: Option<i32>,
    logs: Seq<char>,
)
    ensures
        ReportModel::said(outcome, note).outcome == outcome,
        ReportModel::said(outcome, note).note == Some(note),
        ReportModel::said(outcome, note).pane is None,
        ReportModel::said(outcome, note).exit_code is None,
        ReportModel::broke(note, code, logs).outcome == Outcome::Error,
        ReportModel::broke(note, code, logs).note == Some(note),
        ReportModel::broke(note, code, logs).pane is None,
        ReportModel::broke(note, code, logs).exit_code == code,
{
}

/// A task stands at a step exactly where it has both a pipeline and a step, at its round.
pub proof fn a_task_stands_at_its_step(t: TaskModel)
    ensures
        position(t) is Some <==> t.pipeline is Some && t.step is Some,
        position(t) is Some ==> position(t)->0.pipeline == t.pipeline->0 && position(t)->0.step
            == t.step->0 && position(t)->0.round == t.round,
{
}

/// The log of a script begins with what is kept of its output, and ends with what is kept of
/// its errors; where it printed only gaps, there is nothing of that.
pub proof fn a_log_has_output_and_errors(
    out: Seq<char>,
    said: Seq<char>,
    err: Seq<char>,
    wrong: Seq<char>,
)
    requires
        is_gaps(out),
        is_gaps(err),
        said.len() > 0 ==> is_ink(said[0]),
        wrong.len() > 0 ==> is_ink(wrong[0]),
    ensures
        ({
            let logs = logs_of(out + said, err + wrong);
            let kept = tail_of(out + said, LOG_TAIL as nat);
            let told = tail_of(err + wrong, LOG_TAIL as nat);
            &&& said.len() == 0 && wrong.len() == 0 ==> logs.len() == 0
            &&& said.len() > 0 && wrong.len() == 0 ==> logs == kept
            &&& said.len() > 0 ==> logs.len() >= kept.len() && logs.take(kept.len() as int) == kept
            &&& wrong.len() > 0 ==> logs.len() >= told.len() && logs.skip(
                logs.len() - told.len(),
            ) == told
        }),
{
    let none = Seq::<char>::empty();
    let logs = logs_of(out + said, err + wrong);
    let kept = tail_of(out + said, LOG_TAIL as nat);
    let told = tail_of(err + wrong, LOG_TAIL as nat);
    if said.len() > 0 {
        ink_is_not_blank(out, said);
    } else {
        trimming_takes_the_gaps(out, none, none);
        assert(out + none + none =~= out + said);
    }
    if wrong.len() > 0 {
        ink_is_not_blank(err, wrong);
        assert(logs.skip(logs.len() - told.len()) =~= told);
    } else {
        trimming_takes_the_gaps(err, none, none);
        assert(err + none + none =~= err + wrong);
    }
    if said.len() > 0 {
        assert(logs.take(kept.len() as int) =~= kept);
    }
}

/// The note of a script that broke says how: with which status, on which signal, why it
/// could not be run, or why its last line is no verdict.
pub proof fn a_broken_script_says_how(
    script: Seq<char>,
    ran: Output,
    verdict: Result<Verdict, String>,
    why: String,
)
    ensures
        mentions(reported(script, Err(why), verdict).note->0, why@),
        mentions(reported(script, Err(why), verdict).note->0, script),
        ran.code is Some && ran.code != Some(0i32) ==> mentions(
            reported(script, Ok(ran), verdict).note->0,
            int_text(ran.code->0 as int),
        ),
        ran.code is None && ran.signal is Some ==> mentions(
            reported(script, Ok(ran), verdict).note->0,
            int_text(ran.signal->0 as int),
        ),
        ran.code == Some(0i32) && last_full(lines_of(ran.stdout@)) is Some ==> mentions(
            reported(script, Ok(ran), Err(why)).note->0,
            why@,
        ),
{
    let none = Seq::<char>::empty();
    parts_are_mentioned("could not run "@ + script + ": "@, why@, none);
    let a = "could not run "@;
    parts_are_mentioned(a, script, ": "@ + why@);
    assert(a + script + (": "@ + why@) =~= a + script + ": "@ + why@);
    if ran.code is Some {
        let n = int_text(ran.code->0 as int);
        parts_are_mentioned("with status "@, n, none);
        what_a_part_mentions("exited "@, "with status "@ + n, none, n);
    } else if ran.signal is Some {
        let n = int_text(ran.signal->0 as int);
        parts_are_mentioned("on signal "@, n, none);
        what_a_part_mentions("exited "@, "on signal "@ + n, none, n);
    }
    if ran.code == Some(0i32) {
        if let Some(line) = last_full(lines_of(ran.stdout@)) {
            let b = "last line of stdout is not a verdict ("@;
            let c = "): "@ + tail_of(line, 200);
            parts_are_mentioned(b, why@, c);
            assert(b + why@ + c =~= b + why@ + "): "@ + tail_of(line, 200));
        }
    }
}

} // verus!
