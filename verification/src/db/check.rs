//! The `check_run` table: a verdict plus evidence about a specific commit.
//!
//! Written by linters, test runs, reviewing agents and humans alike. `sha` is
//! load-bearing: a check is a verdict about a particular state of the code, so a
//! stale pass must not wave a bad merge through.

use crate::error::{Error, ErrorModel};
use crate::text::{
    cat2, copy, copy_opt, int_text, integer, integer_of, integer_reads_back, is_text,
    parse_integer, quote, quoted, same,
};
use vstd::prelude::*;
use vstd::string::*;

verus! {

#[derive(Debug, Clone, Copy, PartialEq, Eq, Structural)]
pub enum Conclusion {
    Pass,
    Fail,
}

impl Conclusion {
    /// The word in the column.
    pub open spec fn word(self) -> Seq<char> {
        match self {
            Conclusion::Pass => "pass"@,
            Conclusion::Fail => "fail"@,
        }
    }

    /// The conclusion a word says, if it says one.
    pub open spec fn of_word(s: Seq<char>) -> Option<Conclusion> {
        if s == "pass"@ {
            Some(Conclusion::Pass)
        } else if s == "fail"@ {
            Some(Conclusion::Fail)
        } else {
            None
        }
    }

    pub fn as_str(self) -> (r: &'static str)
        ensures
            r@ == self.word(),
    {
        match self {
            Conclusion::Pass => "pass",
            Conclusion::Fail => "fail",
        }
    }

    /// The conclusion a word says. Any other word is corruption.
    pub fn parse(s: &str) -> (r: Result<Conclusion, Error>)
        ensures
            match Conclusion::of_word(s@) {
                Some(c) => r == Ok::<Conclusion, Error>(c),
                None => r matches Err(e) && e@ == (ErrorModel::Corrupt {
                    what: "check_run.conclusion"@,
                    detail: "unknown conclusion "@ + quoted(s@),
                }),
            },
    {
        if same(s, "pass") {
            Ok(Conclusion::Pass)
        } else if same(s, "fail") {
            Ok(Conclusion::Fail)
        } else {
            Err(Error::corrupt("check_run.conclusion", cat2("unknown conclusion ", &quote(s))))
        }
    }
}

/// Every conclusion is read back from the word it is written as.
pub proof fn conclusion_words_read_back(c: Conclusion)
    ensures
        Conclusion::of_word(c.word()) == Some(c),
{
    reveal_strlit("pass");
    reveal_strlit("fail");
    assert("pass"@[0] == 'p' && "fail"@[0] == 'f');
}

#[derive(Debug)]
pub struct Check {
    pub id: String,
    pub task_id: String,
    pub pipeline: Option<String>,
    pub step: Option<String>,
    pub round: Option<i64>,
    pub author: String,
    pub sha: String,
    pub conclusion: Conclusion,
    pub body: Option<String>,
    pub created: i64,
}

/// A check over its texts.
#[verifier::ext_equal]
pub struct CheckModel {
    pub id: Seq<char>,
    pub task_id: Seq<char>,
    pub pipeline: Option<Seq<char>>,
    pub step: Option<Seq<char>>,
    pub round: Option<i64>,
    pub author: Seq<char>,
    pub sha: Seq<char>,
    pub conclusion: Conclusion,
    pub body: Option<Seq<char>>,
    pub created: i64,
}

impl View for Check {
    type V = CheckModel;

    open spec fn view(&self) -> CheckModel {
        CheckModel {
            id: self.id@,
            task_id: self.task_id@,
            pipeline: self.pipeline.deep_view(),
            step: self.step.deep_view(),
            round: self.round,
            author: self.author@,
            sha: self.sha@,
            conclusion: self.conclusion,
            body: self.body.deep_view(),
            created: self.created,
        }
    }
}

impl DeepView for Check {
    type V = CheckModel;

    open spec fn deep_view(&self) -> CheckModel {
        self@
    }
}

/// What a submitter supplies. Notably not the sha: `shep` stamps that itself, or a
/// stale check becomes an agent-behaviour bug instead of an impossible state.
#[derive(Debug)]
pub struct NewCheck {
    pub task_id: String,
    pub pipeline: Option<String>,
    pub step: Option<String>,
    pub round: Option<i64>,
    pub author: String,
    pub sha: String,
    pub conclusion: Conclusion,
    pub body: Option<String>,
}

/// The columns of a row as the store holds them: the conclusion is a word.
#[derive(Debug)]
pub struct CheckRow {
    pub id: String,
    pub task_id: String,
    pub pipeline: Option<String>,
    pub step: Option<String>,
    pub round: Option<i64>,
    pub author: String,
    pub sha: String,
    pub conclusion: String,
    pub body: Option<String>,
    pub created: i64,
}

impl CheckRow {
    /// The check that the columns hold, where the conclusion is one.
    pub open spec fn check(self) -> Option<CheckModel> {
        match Conclusion::of_word(self.conclusion@) {
            Some(conclusion) => Some(
                CheckModel {
                    id: self.id@,
                    task_id: self.task_id@,
                    pipeline: self.pipeline.deep_view(),
                    step: self.step.deep_view(),
                    round: self.round,
                    author: self.author@,
                    sha: self.sha@,
                    conclusion,
                    body: self.body.deep_view(),
                    created: self.created,
                },
            ),
            None => None,
        }
    }
}

/// The check that a row holds. A conclusion that is none is corruption.
pub fn from_row(row: CheckRow) -> (r: Result<Check, Error>)
    ensures
        match row.check() {
            Some(c) => r matches Ok(check) && check@ == c,
            None => r matches Err(e) && e@ == (ErrorModel::Corrupt {
                what: "check_run.conclusion"@,
                detail: "unknown conclusion "@ + quoted(row.conclusion@),
            }),
        },
{
    let conclusion: Conclusion = match Conclusion::parse(&row.conclusion) {
        Ok(c) => c,
        Err(e) => {
            return Err(e);
        },
    };
    Ok(
        Check {
            id: row.id,
            task_id: row.task_id,
            pipeline: row.pipeline,
            step: row.step,
            round: row.round,
            author: row.author,
            sha: row.sha,
            conclusion,
            body: row.body,
            created: row.created,
        },
    )
}

/// The columns to write for a check. Reading them gives the check back.
pub fn to_row(check: &Check) -> (r: CheckRow)
    ensures
        r.conclusion@ == check.conclusion.word(),
        r.check() == Some(check@),
{
    proof {
        conclusion_words_read_back(check.conclusion);
    }
    CheckRow {
        id: copy(&check.id),
        task_id: copy(&check.task_id),
        pipeline: copy_opt(&check.pipeline),
        step: copy_opt(&check.step),
        round: check.round,
        author: copy(&check.author),
        sha: copy(&check.sha),
        conclusion: copy(check.conclusion.as_str()),
        body: copy_opt(&check.body),
        created: check.created,
    }
}

/// The id after the greatest number that an id has, as the store reports it.
pub fn next_id(greatest: i64) -> (r: String)
    requires
        greatest < i64::MAX,
    ensures
        r@ == "c-"@ + int_text(greatest + 1),
{
    cat2("c-", &integer(greatest + 1))
}

/// The check to write, under an id of its own and at a time.
pub fn insert(new: &NewCheck, id: String, now: i64) -> (r: Check)
    ensures
        r@ == (CheckModel {
            id: id@,
            task_id: new.task_id@,
            pipeline: new.pipeline.deep_view(),
            step: new.step.deep_view(),
            round: new.round,
            author: new.author@,
            sha: new.sha@,
            conclusion: new.conclusion,
            body: new.body.deep_view(),
            created: now,
        }),
{
    Check {
        id,
        task_id: copy(&new.task_id),
        pipeline: copy_opt(&new.pipeline),
        step: copy_opt(&new.step),
        round: new.round,
        author: copy(&new.author),
        sha: copy(&new.sha),
        conclusion: new.conclusion,
        body: copy_opt(&new.body),
        created: now,
    }
}

/// The number in an id, as [`next_id`] counts them. A text that is no such id counts as
/// the zeroth.
pub open spec fn number_in(id: Seq<char>) -> int {
    match integer_of(id.skip(2)) {
        Some(n) => if id.len() >= 2 && i64::MIN <= n <= i64::MAX {
            n
        } else {
            0
        },
        None => 0,
    }
}

fn number_of(id: &str) -> (r: i64)
    ensures
        r == number_in(id@),
{
    let n: usize = id.unicode_len();
    if n < 2 {
        return 0;
    }
    assert(id@.subrange(2, n as int) =~= id@.skip(2));
    match parse_integer(id.substring_char(2, n)) {
        Some(k) => k,
        None => 0,
    }
}

impl CheckModel {
    /// Is this a verdict about a step at a round?
    pub open spec fn judges(self, pipeline: Seq<char>, step: Seq<char>, round: i64) -> bool {
        self.pipeline == Some(pipeline) && self.step == Some(step) && self.round == Some(round)
    }

    /// Was this written after another? Within one second the numbers of the ids decide.
    pub open spec fn later(self, other: CheckModel) -> bool {
        self.created > other.created || (self.created == other.created && number_in(self.id)
            > number_in(other.id))
    }
}

/// The latest verdict about a step at a round among a task's checks. Of two where neither
/// was written after the other, it is the one further on.
pub open spec fn latest(
    checks: Seq<CheckModel>,
    pipeline: Seq<char>,
    step: Seq<char>,
    round: i64,
) -> Option<CheckModel>
    decreases checks.len(),
{
    if checks.len() == 0 {
        None
    } else {
        let sofar = latest(checks.drop_last(), pipeline, step, round);
        let last = checks.last();
        if last.judges(pipeline, step, round) && (sofar is None || !sofar->0.later(last)) {
            Some(last)
        } else {
            sofar
        }
    }
}

/// The check that resolves a deferred step: the latest of the task's checks for
/// this pipeline, step and round.
pub fn latest_for_step<'a>(
    checks: &'a Vec<Check>,
    pipeline: &str,
    step: &str,
    round: i64,
) -> (r: Option<&'a Check>)
    ensures
        match r {
            Some(c) => latest(checks.deep_view(), pipeline@, step@, round) == Some(c@),
            None => latest(checks.deep_view(), pipeline@, step@, round) is None,
        },
{
    let ghost all = checks.deep_view();
    let mut found: Option<&'a Check> = None;
    for i in 0..checks.len()
        invariant
            all == checks.deep_view(),
            match found {
                Some(c) => latest(all.take(i as int), pipeline@, step@, round) == Some(c@),
                None => latest(all.take(i as int), pipeline@, step@, round) is None,
            },
    {
        proof {
            assert(all.take(i as int + 1).drop_last() =~= all.take(i as int));
            assert(all.take(i as int + 1).last() == checks@[i as int]@);
        }
        let c: &'a Check = &checks[i];
        let here: bool = match c.round {
            Some(n) => n == round,
            None => false,
        };
        if here && is_text(&c.pipeline, pipeline) && is_text(&c.step, step) {
            let newer: bool = match found {
                Some(f) => c.created > f.created || (c.created == f.created && number_of(&c.id)
                    >= number_of(&f.id)),
                None => true,
            };
            if newer {
                found = Some(c);
            }
        }
    }
    assert(all.take(all.len() as int) =~= all);
    found
}

/// There is a latest check exactly where there is one about the step, it is about
/// the step, and none about the step was written after it.
pub proof fn latest_is_latest(
    checks: Seq<CheckModel>,
    pipeline: Seq<char>,
    step: Seq<char>,
    round: i64,
)
    ensures
        match latest(checks, pipeline, step, round) {
            Some(c) => checks.contains(c) && c.judges(pipeline, step, round) && forall|i: int|
                0 <= i < checks.len() && (#[trigger] checks[i]).judges(pipeline, step, round)
                    ==> !checks[i].later(c),
            None => forall|i: int|
                0 <= i < checks.len() ==> !(#[trigger] checks[i]).judges(pipeline, step, round),
        },
    decreases checks.len(),
{
    if checks.len() > 0 {
        let front = checks.drop_last();
        let last = checks.last();
        latest_is_latest(front, pipeline, step, round);
        assert(forall|i: int| 0 <= i < front.len() ==> front[i] == #[trigger] checks[i]);
        assert(checks[checks.len() - 1] == last);
        match latest(checks, pipeline, step, round) {
            Some(c) => {
                if c != last {
                    assert(front.contains(c));
                    assert(checks[front.index_of(c)] == c);
                }
                assert forall|i: int|
                    0 <= i < checks.len() && (#[trigger] checks[i]).judges(
                        pipeline,
                        step,
                        round,
                    ) implies !checks[i].later(c) by {
                    if i < front.len() {
                        assert(front[i].judges(pipeline, step, round));
                        assert(latest(front, pipeline, step, round) is Some);
                        assert(!front[i].later(latest(front, pipeline, step, round)->0));
                    }
                }
            },
            None => {
                assert forall|i: int| 0 <= i < checks.len() implies !(
                #[trigger] checks[i]).judges(pipeline, step, round) by {
                    if i < front.len() {
                        assert(!front[i].judges(pipeline, step, round));
                    }
                }
            },
        }
    }
}

/// A check that is written with the next id is the latest about its step from there on,
/// also where others were written within the same second.
pub proof fn a_new_check_is_the_latest(checks: Seq<CheckModel>, new: CheckModel, greatest: i64)
    requires
        greatest < i64::MAX,
        new.id == "c-"@ + int_text(greatest + 1),
        new.pipeline is Some && new.step is Some && new.round is Some,
        forall|i: int|
            0 <= i < checks.len() ==> (#[trigger] checks[i]).created <= new.created && number_in(
                checks[i].id,
            ) <= greatest,
    ensures
        latest(checks.push(new), new.pipeline->0, new.step->0, new.round->0) == Some(new),
{
    let all = checks.push(new);
    assert(all.drop_last() =~= checks);
    latest_is_latest(checks, new.pipeline->0, new.step->0, new.round->0);
    if let Some(c) = latest(checks, new.pipeline->0, new.step->0, new.round->0) {
        let i = checks.index_of(c);
        assert(checks[i] == c);
        reveal_strlit("c-");
        integer_reads_back(greatest + 1);
        assert(new.id.skip(2) =~= int_text(greatest + 1));
        assert(i64::MIN <= greatest + 1 <= i64::MAX);
    }
}

/// A word is a conclusion exactly where it is one of the two.
pub proof fn two_words_are_conclusions(s: Seq<char>)
    ensures
        Conclusion::of_word(s) is Some <==> s == "pass"@ || s == "fail"@,
        Conclusion::of_word(s) is Some ==> Conclusion::of_word(s)->0.word() == s,
{
}

/// A check judges a step at a round exactly where it names that pipeline, that step and that
/// round; it was written later than another where its time is, or, within one second, where
/// the number of its id is greater.
pub proof fn a_check_judges_what_it_names(
    a: CheckModel,
    b: CheckModel,
    pipeline: Seq<char>,
    step: Seq<char>,
    round: i64,
    m: i64,
    n: i64,
)
    requires
        a.id == "c-"@ + int_text(m as int),
        b.id == "c-"@ + int_text(n as int),
    ensures
        a.judges(pipeline, step, round) <==> a.pipeline == Some(pipeline) && a.step == Some(step)
            && a.round == Some(round),
        a.created > b.created ==> a.later(b) && !b.later(a),
        a.created == b.created ==> (a.later(b) <==> m > n),
{
    reveal_strlit("c-");
    integer_reads_back(m as int);
    integer_reads_back(n as int);
    assert(a.id.skip(2) =~= int_text(m as int));
    assert(b.id.skip(2) =~= int_text(n as int));
}

/// Each column of a row holds what the check has there.
pub proof fn each_column_holds_its_own(row: CheckRow)
    ensures
        row.check() is Some <==> Conclusion::of_word(row.conclusion@) is Some,
        row.check() is Some ==> {
            let c = row.check()->0;
            &&& c.id == row.id@ && c.task_id == row.task_id@
            &&& c.pipeline == row.pipeline.deep_view() && c.step == row.step.deep_view()
            &&& c.round == row.round
            &&& c.author == row.author@ && c.sha == row.sha@
            &&& c.conclusion.word() == row.conclusion@
            &&& c.body == row.body.deep_view()
            &&& c.created == row.created
        },
{
}

} // verus!
