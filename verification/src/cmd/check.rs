//! `shep check submit` and `shep read`.

use super::{add_line, dash, or_dash};
use crate::db::check::{Check, CheckModel, Conclusion};
use crate::engine::step::{StepAt, StepAtModel};
use crate::text::{
    a_number_is_ink, blank, cat2, copy, ink_is_not_blank, int_text, integer, integer_of,
    integer_reads_back, is_blank, is_gaps, is_ink, parse_integer, trim, trimmed,
    trimming_takes_the_gaps,
};
use vstd::prelude::*;
use vstd::string::*;

verus! {

/// Which way a verdict goes, by the two flags: exactly one of them says.
pub open spec fn way(pass: bool, fail: bool) -> Option<Conclusion> {
    if pass && !fail {
        Some(Conclusion::Pass)
    } else if fail && !pass {
        Some(Conclusion::Fail)
    } else {
        None
    }
}

/// Which way a verdict goes, by the two flags, or what to say instead.
pub fn conclusion(pass: bool, fail: bool, usage: &str) -> (r: Result<Conclusion, String>)
    ensures
        match way(pass, fail) {
            Some(c) => r == Ok::<Conclusion, String>(c),
            None => r matches Err(e) && e@ == usage@,
        },
{
    if pass && !fail {
        Ok(Conclusion::Pass)
    } else if fail && !pass {
        Ok(Conclusion::Fail)
    } else {
        Err(copy(usage))
    }
}

/// A text from stdin: what is left of it without the white space around it, where
/// anything is.
pub open spec fn body_of(text: Seq<char>) -> Option<Seq<char>> {
    if is_blank(text) {
        None
    } else {
        Some(trimmed(text))
    }
}

pub fn body(text: &str) -> (r: Option<String>)
    ensures
        r.deep_view() == body_of(text@),
{
    let t: String = trim(text);
    if t.as_str().is_empty() {
        None
    } else {
        Some(t)
    }
}

/// A variable of the environment that says something.
pub open spec fn says(value: Option<Seq<char>>) -> Option<Seq<char>> {
    match value {
        Some(v) => if is_blank(v) {
            None
        } else {
            Some(v)
        },
        None => None,
    }
}

/// Where the caller says it is: all three have to say something, and the round has to be
/// a number.
pub open spec fn position_in(
    pipeline: Option<Seq<char>>,
    step: Option<Seq<char>>,
    round: Option<Seq<char>>,
) -> Option<StepAtModel> {
    match (says(pipeline), says(step), says(round)) {
        (Some(pipeline), Some(step), Some(round)) => match integer_of(round) {
            Some(n) => if i64::MIN <= n <= i64::MAX {
                Some(StepAtModel { pipeline, step, round: n as i64 })
            } else {
                None
            },
            None => None,
        },
        _ => None,
    }
}

fn saying(value: &Option<String>) -> (r: Option<String>)
    ensures
        r.deep_view() == says(value.deep_view()),
{
    match value {
        Some(v) => if blank(v) {
            None
        } else {
            Some(copy(v))
        },
        None => None,
    }
}

/// Where the caller says it is, by `$SHEP_PIPELINE`, `$SHEP_STEP` and `$SHEP_ROUND`. A
/// step script has all three; an agent's pane has none of them, and then the task's own
/// position is used, which is the position being awaited, and the only one that could be
/// right.
pub fn position_from_env(
    pipeline: &Option<String>,
    step: &Option<String>,
    round: &Option<String>,
) -> (r: Option<StepAt>)
    ensures
        r.deep_view() == position_in(
            pipeline.deep_view(),
            step.deep_view(),
            round.deep_view(),
        ),
{
    match (saying(pipeline), saying(step), saying(round)) {
        (Some(pipeline), Some(step), Some(round)) => match parse_integer(&round) {
            Some(n) => Some(StepAt::new(pipeline, step, n)),
            None => None,
        },
        _ => None,
    }
}

/// What `shep read` prints of a check.
pub open spec fn read_of(c: CheckModel) -> Seq<Seq<char>> {
    seq![
        c.id + " "@ + c.conclusion.word() + " by "@ + c.author + " on "@ + c.sha + " ("@ + or_dash(
            c.pipeline,
        ) + "/"@ + or_dash(c.step) + " round "@ + int_text(
            match c.round {
                Some(n) => n as int,
                None => 0,
            },
        ) + ")"@,
    ] + match c.body {
        Some(body) => seq!["\n"@ + body],
        None => Seq::empty(),
    }
}

pub fn lines(c: &Check) -> (r: Vec<String>)
    ensures
        r.deep_view() == read_of(c@),
{
    let round: i64 = match c.round {
        Some(n) => n,
        None => 0,
    };
    let mut line: String = copy(&c.id);
    line.append(" ");
    line.append(c.conclusion.as_str());
    line.append(" by ");
    line.append(&c.author);
    line.append(" on ");
    line.append(&c.sha);
    line.append(" (");
    line.append(&dash(&c.pipeline));
    line.append("/");
    line.append(&dash(&c.step));
    line.append(" round ");
    line.append(&integer(round));
    line.append(")");
    let mut out: Vec<String> = Vec::new();
    assert(out.deep_view() =~= Seq::empty());
    add_line(&mut out, line);
    if let Some(body) = &c.body {
        add_line(&mut out, cat2("\n", body));
    }
    assert(out.deep_view() =~= read_of(c@));
    out
}

/// A verdict goes the way of the one flag that is given. With both, or with neither, it goes
/// no way.
pub proof fn one_flag_says_the_way(pass: bool, fail: bool)
    ensures
        way(pass, fail) == Some(Conclusion::Pass) <==> pass && !fail,
        way(pass, fail) == Some(Conclusion::Fail) <==> fail && !pass,
        way(pass, fail) is None <==> pass == fail,
{
}

/// A text is taken without the gaps around it, and is none where there is nothing else.
pub proof fn a_body_has_no_gaps_around_it(front: Seq<char>, s: Seq<char>, behind: Seq<char>)
    requires
        is_gaps(front),
        is_gaps(behind),
        s.len() > 0 ==> is_ink(s[0]) && is_ink(s.last()),
    ensures
        s.len() > 0 ==> body_of(front + s + behind) == Some(s),
        s.len() == 0 ==> body_of(front + s + behind) is None,
{
    trimming_takes_the_gaps(front, s, behind);
}

/// A step's script is where its environment says: what it is told reads back as the place it
/// is run at. Where one of the three is not told, it is nowhere in particular.
pub proof fn a_place_in_the_environment_reads_back(
    at: StepAtModel,
    pipeline: Option<Seq<char>>,
    step: Option<Seq<char>>,
    round: Option<Seq<char>>,
)
    ensures
        at.pipeline.len() > 0 && is_ink(at.pipeline[0]) && at.step.len() > 0 && is_ink(at.step[0])
            ==> position_in(
            Some(at.pipeline),
            Some(at.step),
            Some(int_text(at.round as int)),
        ) == Some(at),
        pipeline is None || step is None || round is None ==> position_in(
            pipeline,
            step,
            round,
        ) is None,
        pipeline is Some && is_gaps(pipeline->0) ==> position_in(pipeline, step, round) is None,
        step is Some && is_gaps(step->0) ==> position_in(pipeline, step, round) is None,
        round is Some && is_gaps(round->0) ==> position_in(pipeline, step, round) is None,
{
    let none = Seq::<char>::empty();
    if at.pipeline.len() > 0 && is_ink(at.pipeline[0]) && at.step.len() > 0 && is_ink(at.step[0]) {
        ink_is_not_blank(none, at.pipeline);
        assert(none + at.pipeline =~= at.pipeline);
        ink_is_not_blank(none, at.step);
        assert(none + at.step =~= at.step);
        let n = int_text(at.round as int);
        integer_reads_back(at.round as int);
        a_number_is_ink(at.round as int);
        ink_is_not_blank(none, n);
        assert(none + n =~= n);
    }
    if pipeline is Some && is_gaps(pipeline->0) {
        trimming_takes_the_gaps(pipeline->0, none, none);
        assert(pipeline->0 + none + none =~= pipeline->0);
    }
    if step is Some && is_gaps(step->0) {
        trimming_takes_the_gaps(step->0, none, none);
        assert(step->0 + none + none =~= step->0);
    }
    if round is Some && is_gaps(round->0) {
        trimming_takes_the_gaps(round->0, none, none);
        assert(round->0 + none + none =~= round->0);
    }
}

} // verus!
