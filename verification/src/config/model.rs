//! The config schema.

use crate::outcome::Outcome;
use crate::table::{
    first_index, first_index_absent, first_index_found, first_index_is_first, nowhere_first, Table,
};
use crate::text::{
    copy, copy_opt, digit_of, digits_value, is_digit, is_gaps, is_ink, is_text, same, trim,
    trimmed, trimming_takes_the_gaps,
};
use vstd::prelude::*;
use vstd::string::*;

verus! {

/// The built-in signal an agent stopping in a task's pane emits.
pub const SIGNAL_AGENT_STOPPED: &'static str = "agent_stopped";

/// Signals shepherd provides without declaration, because it emits them itself. A
/// person is *not* one of them: humans are not in the state machine. A task rests
/// between pipelines and a person applies the next with `shep run`.
pub const BUILTIN_SIGNALS: [&'static str; 1] = [SIGNAL_AGENT_STOPPED];

/// `<repo>/.shep/config.toml`.
#[derive(Debug)]
pub struct Config {
    /// Pipelines by name. A pipeline is a state machine over steps; it owns its
    /// loop and its round cap, and it returns an outcome, which is why a
    /// pipeline can be used as a step.
    pub pipeline: Table<Pipeline>,
    /// Types by name. A type is a composition of pipelines with no loops of its own: it
    /// runs each pipeline once, in order, so a task of it comes to an end. This is what
    /// an agent picks.
    pub types: Table<TaskType>,
    /// Custom signals a step may `await`. The built-in signals need no
    /// declaration; anything else a step waits on must be declared here, so a
    /// typo in `await` is an error rather than a step that waits forever.
    pub signal: Table<Signal>,
}

/// A declared signal: a name an external emitter can resolve a deferred step
/// with.
#[derive(Debug)]
pub struct Signal {
    /// What this signal means and who emits it.
    pub description: String,
}

/// One step in a pipeline. Written either as a bare name (a synchronous script)
/// or as a table that also says how the step defers.
///
/// The name is the identity: a task records its position by step name, `on_fail`
/// targets a step by name, and the planner compares by name.
#[derive(Debug)]
pub enum Step {
    Name(String),
    Spec(StepDef),
}

/// The table form of a [`Step`].
#[derive(Debug)]
pub struct StepDef {
    /// The step's name: its identity.
    pub run: String,
    /// The signal that resolves this step when it returns `started`.
    pub await_on: Option<String>,
    /// What an agent stopping means when it left no check. Unset means `error`.
    /// A check, when there is one, always wins over this.
    pub on_missing: Option<Outcome>,
    /// How long the wait may last, e.g. `"30m"`. When it elapses, the step
    /// resolves with `on_timeout`.
    pub timeout: Option<String>,
    /// The verdict when `timeout` fires. Unset means `error`.
    pub on_timeout: Option<Outcome>,
}

/// A step over its texts.
#[verifier::ext_equal]
pub enum StepModel {
    Name(Seq<char>),
    Spec {
        run: Seq<char>,
        await_on: Option<Seq<char>>,
        on_missing: Option<Outcome>,
        timeout: Option<Seq<char>>,
        on_timeout: Option<Outcome>,
    },
}

impl View for Step {
    type V = StepModel;

    open spec fn view(&self) -> StepModel {
        match self {
            Step::Name(name) => StepModel::Name(name@),
            Step::Spec(def) => StepModel::Spec {
                run: def.run@,
                await_on: def.await_on.deep_view(),
                on_missing: def.on_missing,
                timeout: def.timeout.deep_view(),
                on_timeout: def.on_timeout,
            },
        }
    }
}

impl DeepView for Step {
    type V = StepModel;

    open spec fn deep_view(&self) -> StepModel {
        self@
    }
}

impl Step {
    pub open spec fn label(self) -> Seq<char> {
        match self {
            Step::Name(name) => name@,
            Step::Spec(def) => def.run@,
        }
    }

    pub open spec fn awaited(self) -> Option<Seq<char>> {
        match self {
            Step::Name(_) => None,
            Step::Spec(def) => def.await_on.deep_view(),
        }
    }

    pub open spec fn missing(self) -> Option<Outcome> {
        match self {
            Step::Name(_) => None,
            Step::Spec(def) => def.on_missing,
        }
    }

    pub open spec fn wait(self) -> Option<Seq<char>> {
        match self {
            Step::Name(_) => None,
            Step::Spec(def) => def.timeout.deep_view(),
        }
    }

    pub open spec fn late(self) -> Option<Outcome> {
        match self {
            Step::Name(_) => None,
            Step::Spec(def) => def.on_timeout,
        }
    }

    /// The longest wait in seconds, where a readable one is declared.
    pub open spec fn wait_seconds(self) -> Option<i64> {
        match self.wait() {
            Some(raw) => duration(raw),
            None => None,
        }
    }

    fn copied(&self) -> (r: Step)
        ensures
            r@ == self@,
    {
        match self {
            Step::Name(name) => Step::Name(copy(name)),
            Step::Spec(def) => Step::Spec(
                StepDef {
                    run: copy(&def.run),
                    await_on: copy_opt(&def.await_on),
                    on_missing: def.on_missing,
                    timeout: copy_opt(&def.timeout),
                    on_timeout: def.on_timeout,
                },
            ),
        }
    }

    /// The step's name, whichever form it was written in.
    pub fn name(&self) -> (r: &str)
        ensures
            r@ == self.label(),
    {
        match self {
            Step::Name(name) => name.as_str(),
            Step::Spec(def) => def.run.as_str(),
        }
    }

    /// The signal this step defers on, if it is a deferred step.
    pub fn await_on(&self) -> (r: Option<&str>)
        ensures
            r.deep_view() == self.awaited(),
    {
        match self {
            Step::Name(_) => None,
            Step::Spec(def) => match &def.await_on {
                Some(signal) => Some(signal.as_str()),
                None => None,
            },
        }
    }

    /// The step's `on_missing` fallback, if any.
    pub fn on_missing(&self) -> (r: Option<Outcome>)
        ensures
            r == self.missing(),
    {
        match self {
            Step::Name(_) => None,
            Step::Spec(def) => def.on_missing,
        }
    }

    /// The raw timeout text, if any.
    pub fn timeout(&self) -> (r: Option<&str>)
        ensures
            r.deep_view() == self.wait(),
    {
        match self {
            Step::Name(_) => None,
            Step::Spec(def) => match &def.timeout {
                Some(raw) => Some(raw.as_str()),
                None => None,
            },
        }
    }

    /// The timeout as seconds, if set and readable.
    pub fn timeout_secs(&self) -> (r: Option<i64>)
        ensures
            r == self.wait_seconds(),
    {
        match self.timeout() {
            Some(raw) => parse_duration(raw),
            None => None,
        }
    }

    /// The verdict a fired timeout produces.
    pub fn on_timeout(&self) -> (r: Option<Outcome>)
        ensures
            r == self.late(),
    {
        match self {
            Step::Name(_) => None,
            Step::Spec(def) => def.on_timeout,
        }
    }
}

// ---------------------------------------------------------------------------
// Durations
// ---------------------------------------------------------------------------

pub open spec fn digit_chars() -> spec_fn(char) -> bool {
    |c: char| is_digit(c)
}

pub open spec fn other_chars() -> spec_fn(char) -> bool {
    |c: char| !is_digit(c)
}

/// Seconds in a unit.
pub open spec fn unit_seconds(unit: Seq<char>) -> Option<int> {
    if unit == ""@ || unit == "s"@ {
        Some(1)
    } else if unit == "m"@ {
        Some(60)
    } else if unit == "h"@ {
        Some(3600)
    } else if unit == "d"@ {
        Some(86400)
    } else {
        None
    }
}

/// What a duration like `"30m"` says in seconds: its digits are the number, what
/// is left is the unit. No digits, an unknown unit, or more seconds than a clock
/// can hold says nothing.
#[verifier::opaque]
pub open spec fn duration(s: Seq<char>) -> Option<i64> {
    let text = trimmed(s);
    let digits = text.filter(digit_chars());
    let unit = trimmed(text.filter(other_chars()));
    if digits.len() == 0 {
        None
    } else {
        match unit_seconds(unit) {
            Some(seconds) => if digits_value(digits) * seconds <= i64::MAX {
                Some((digits_value(digits) * seconds) as i64)
            } else {
                None
            },
            None => None,
        }
    }
}

proof fn filter_step(s: Seq<char>, i: int, p: spec_fn(char) -> bool)
    requires
        0 <= i < s.len(),
    ensures
        p(s[i]) ==> s.take(i + 1).filter(p) == s.take(i).filter(p).push(s[i]),
        !p(s[i]) ==> s.take(i + 1).filter(p) == s.take(i).filter(p),
{
    reveal(Seq::filter);
    assert(s.take(i + 1).drop_last() =~= s.take(i));
    assert(s.take(i + 1).last() == s[i]);
}

/// Parse a duration like `"30m"`, `"2h"`, `"90s"`, `"1d"` into seconds. A bare
/// number is seconds. Returns `None` for anything it cannot read, which
/// validation reports as a problem.
pub fn parse_duration(s: &str) -> (r: Option<i64>)
    ensures
        r == duration(s@),
{
    reveal(duration);
    let text: String = trim(s);
    let cs: Vec<char> = crate::text::chars_of(&text);
    let ghost t = text@;
    let mut unit: String = String::new();
    let mut any: bool = false;
    let mut over: bool = false;
    let mut n: i64 = 0;
    proof {
        reveal(Seq::filter);
        assert(t.take(0).filter(digit_chars()) =~= Seq::empty());
        assert(t.take(0).filter(other_chars()) =~= Seq::empty());
    }
    for i in 0..cs.len()
        invariant
            t == text@,
            cs@ == t,
            0 <= n,
            unit@ == t.take(i as int).filter(other_chars()),
            any == (t.take(i as int).filter(digit_chars()).len() > 0),
            over ==> digits_value(t.take(i as int).filter(digit_chars())) > i64::MAX,
            !over ==> digits_value(t.take(i as int).filter(digit_chars())) == n,
    {
        let ghost digits = t.take(i as int).filter(digit_chars());
        proof {
            filter_step(t, i as int, digit_chars());
            filter_step(t, i as int, other_chars());
            assert(digit_chars()(t[i as int]) == is_digit(t[i as int]));
            assert(other_chars()(t[i as int]) == !is_digit(t[i as int]));
            assert(digits.push(t[i as int]).drop_last() =~= digits);
        }
        match digit_of(cs[i]) {
            Some(d) => {
                any = true;
                if !over {
                    if n > (i64::MAX - d) / 10 {
                        over = true;
                    } else {
                        n = n * 10 + d;
                    }
                }
            },
            None => {
                let piece: &str = text.as_str().substring_char(i, i + 1);
                unit.append(piece);
                assert(unit@ =~= t.take(i as int).filter(other_chars()).push(t[i as int]));
            },
        }
    }
    assert(t.take(cs.len() as int) =~= t);
    if !any {
        return None;
    }
    let u: String = trim(&unit);
    let seconds: i64 = if same(&u, "") || same(&u, "s") {
        1
    } else if same(&u, "m") {
        60
    } else if same(&u, "h") {
        3600
    } else if same(&u, "d") {
        86400
    } else {
        return None;
    };
    let ghost value = digits_value(t.filter(digit_chars()));
    if over {
        assert(value * seconds > i64::MAX) by (nonlinear_arith)
            requires
                value > i64::MAX,
                seconds >= 1,
        ;
        return None;
    }
    n.checked_mul(seconds)
}

// ---------------------------------------------------------------------------
// Pipelines and types
// ---------------------------------------------------------------------------

#[derive(Debug)]
pub struct Pipeline {
    /// Steps in order. Each names either `.shep/scripts/<step>.sh` or another
    /// pipeline, and may carry how it defers.
    pub steps: Vec<Step>,
    /// Where to go when a step rejects. A step inside *this* pipeline.
    pub on_fail: Option<String>,
    /// How many times round this pipeline's loop before giving up. Required
    /// wherever `on_fail` is set.
    pub max_rounds: Option<u32>,
    /// This pipeline's own outcome once `max_rounds` is spent.
    pub on_exhausted: Option<Outcome>,
}

/// The steps called by a name.
pub open spec fn is_called(name: Seq<char>) -> spec_fn(Step) -> bool {
    |s: Step| s.label() == name
}

impl Pipeline {
    /// The names of the steps in order.
    pub open spec fn labels(self) -> Seq<Seq<char>> {
        Seq::new(self.steps@.len(), |i: int| self.steps@[i].label())
    }

    /// The names of the steps, then the repair step's.
    pub open spec fn all_labels(self) -> Seq<Seq<char>> {
        match self.on_fail {
            Some(name) => self.labels().push(name@),
            None => self.labels(),
        }
    }

    /// The place of a step in the forward sequence.
    pub open spec fn place(self, name: Seq<char>) -> Option<int> {
        first_index(self.steps@, is_called(name))
    }

    /// The step of the forward sequence with a name.
    pub open spec fn forward(self, name: Seq<char>) -> Option<Step> {
        match self.place(name) {
            Some(i) => Some(self.steps@[i]),
            None => None,
        }
    }

    /// The step of this pipeline with a name: the one in the forward sequence, else the
    /// repair step, which is a bare name.
    pub open spec fn step_called(self, name: Seq<char>) -> Option<StepModel> {
        match self.forward(name) {
            Some(s) => Some(s@),
            None => if self.on_fail.deep_view() == Some(name) {
                Some(StepModel::Name(name))
            } else {
                None
            },
        }
    }

    /// A pipeline with `on_fail` can go round again, which is what makes some
    /// things unsafe to nest inside it.
    pub fn loops(&self) -> (r: bool)
        ensures
            r == (self.on_fail is Some),
    {
        self.on_fail.is_some()
    }

    /// Where in the forward sequence a step stands.
    pub fn position(&self, name: &str) -> (r: Option<usize>)
        ensures
            match r {
                Some(i) => i < self.steps.len() && self.place(name@) == Some(i as int),
                None => self.place(name@) is None,
            },
    {
        let ghost p = is_called(name@);
        for i in 0..self.steps.len()
            invariant
                p == is_called(name@),
                forall|j: int| 0 <= j < i ==> !p(#[trigger] self.steps@[j]),
        {
            if same(self.steps[i].name(), name) {
                proof {
                    first_index_found(self.steps@, p, i as int);
                }
                return Some(i);
            }
        }
        proof {
            first_index_absent(self.steps@, p);
        }
        None
    }

    /// The step of the forward sequence with the given name.
    pub fn forward_step(&self, name: &str) -> (r: Option<&Step>)
        ensures
            match r {
                Some(s) => self.forward(name@) == Some(*s),
                None => self.forward(name@) is None,
            },
    {
        match self.position(name) {
            Some(i) => Some(&self.steps[i]),
            None => None,
        }
    }

    /// The step of this pipeline with the given name, looking in the forward sequence
    /// and at the `on_fail` repair step. `None` for a name that is not a step here.
    pub fn step(&self, name: &str) -> (r: Option<Step>)
        ensures
            r.deep_view() == self.step_called(name@),
            r is Some <==> self.all_labels().contains(name@),
            r is Some ==> r->0.label() == name@,
    {
        proof {
            self.steps_are_labelled(name@);
        }
        match self.forward_step(name) {
            Some(s) => Some(s.copied()),
            None => if is_text(&self.on_fail, name) {
                Some(Step::Name(copy(name)))
            } else {
                None
            },
        }
    }

    /// A pipeline has a step of each of its labels, called by it, and no other.
    pub proof fn steps_are_labelled(self, name: Seq<char>)
        ensures
            self.step_called(name) is Some <==> self.all_labels().contains(name),
            self.forward(name) is Some ==> self.forward(name)->0.label() == name,
    {
        let p = is_called(name);
        let all = self.all_labels();
        match self.place(name) {
            Some(i) => {
                first_index_is_first(self.steps@, p);
                assert(all[i] == name);
            },
            None => {
                nowhere_first(self.steps@, p);
                if self.on_fail.deep_view() == Some(name) {
                    assert(all[self.steps@.len() as int] == name);
                }
                if all.contains(name) {
                    let i = all.index_of(name);
                    if i < self.steps@.len() {
                        assert(p(self.steps@[i]));
                    }
                }
            },
        }
    }

    /// Every step name in this pipeline, forward sequence then any `on_fail`
    /// repair step, in order.
    pub fn step_names(&self) -> (r: Vec<String>)
        ensures
            r.deep_view() == self.all_labels(),
    {
        broadcast use crate::text::push_deep;

        let mut names: Vec<String> = self.forward_names();
        match &self.on_fail {
            Some(name) => {
                names.push(copy(name));
            },
            None => {},
        }
        assert(names.deep_view() =~= self.all_labels());
        names
    }

    /// The names of the forward sequence.
    pub fn forward_names(&self) -> (r: Vec<String>)
        ensures
            r.deep_view() == self.labels(),
    {
        broadcast use crate::text::push_deep;

        let mut names: Vec<String> = Vec::new();
        for i in 0..self.steps.len()
            invariant
                names.deep_view() == self.labels().take(i as int),
        {
            let ghost prev = names;
            names.push(copy(self.steps[i].name()));
            assert(prev.deep_view().push(self.labels()[i as int]) =~= self.labels().take(
                i as int + 1,
            ));
        }
        assert(self.labels().take(self.steps.len() as int) =~= self.labels());
        names
    }
}

#[derive(Debug)]
pub struct TaskType {
    /// Why you would choose this type. It exists so an agent can choose.
    pub description: String,
    /// The pipelines to run, in order.
    pub pipelines: Vec<String>,
}

/// What a step name turned out to mean.
#[derive(Debug)]
pub enum StepKind {
    /// An executable script, by its path.
    Script(String),
    /// Another pipeline, used as a step for its outcome.
    Pipeline(String),
}

#[verifier::ext_equal]
pub enum StepKindModel {
    Script(Seq<char>),
    Pipeline(Seq<char>),
}

impl View for StepKind {
    type V = StepKindModel;

    open spec fn view(&self) -> StepKindModel {
        match self {
            StepKind::Script(path) => StepKindModel::Script(path@),
            StepKind::Pipeline(name) => StepKindModel::Pipeline(name@),
        }
    }
}

impl DeepView for StepKind {
    type V = StepKindModel;

    open spec fn deep_view(&self) -> StepKindModel {
        self@
    }
}

proof fn filter_all(s: Seq<char>, p: spec_fn(char) -> bool)
    requires
        forall|i: int| 0 <= i < s.len() ==> p(#[trigger] s[i]),
    ensures
        s.filter(p) == s,
    decreases s.len(),
{
    reveal(Seq::filter);
    if s.len() > 0 {
        let d = s.drop_last();
        assert forall|i: int| 0 <= i < d.len() implies p(#[trigger] d[i]) by {
            assert(d[i] == s[i]);
        }
        filter_all(d, p);
        assert(p(s[s.len() - 1]));
        assert(d.push(s.last()) =~= s);
    }
}

proof fn filter_none(s: Seq<char>, p: spec_fn(char) -> bool)
    requires
        forall|i: int| 0 <= i < s.len() ==> !p(#[trigger] s[i]),
    ensures
        s.filter(p) == Seq::<char>::empty(),
    decreases s.len(),
{
    reveal(Seq::filter);
    if s.len() > 0 {
        let d = s.drop_last();
        assert forall|i: int| 0 <= i < d.len() implies !p(#[trigger] d[i]) by {
            assert(d[i] == s[i]);
        }
        filter_none(d, p);
        assert(!p(s[s.len() - 1]));
    }
}

/// How many seconds a letter behind a number stands for.
pub open spec fn letter_seconds(letter: char) -> Option<int> {
    if letter == 's' {
        Some(1)
    } else if letter == 'm' {
        Some(60)
    } else if letter == 'h' {
        Some(3600)
    } else if letter == 'd' {
        Some(86400)
    } else {
        None
    }
}

proof fn letters_are_units(letter: char)
    ensures
        unit_seconds(seq![letter]) == letter_seconds(letter),
        unit_seconds(Seq::empty()) == Some(1int),
{
    reveal_strlit("");
    reveal_strlit("s");
    reveal_strlit("m");
    reveal_strlit("h");
    reveal_strlit("d");
    assert(""@ =~= Seq::empty());
    assert("s"@ =~= seq!['s']);
    assert("m"@ =~= seq!['m']);
    assert("h"@ =~= seq!['h']);
    assert("d"@ =~= seq!['d']);
    assert(seq![letter][0] == letter);
    assert(seq!['s'][0] == 's' && seq!['m'][0] == 'm' && seq!['h'][0] == 'h' && seq!['d'][0]
        == 'd');
}

/// A number is so many seconds, and a number with a letter so many of the letter's unit,
/// where a clock can hold that many; gaps around it do not matter. With any other letter,
/// or without a digit, it is no duration.
pub proof fn a_duration_is_a_number_of_units(
    front: Seq<char>,
    digits: Seq<char>,
    letter: Option<char>,
    behind: Seq<char>,
)
    requires
        is_gaps(front),
        is_gaps(behind),
        forall|i: int| 0 <= i < digits.len() ==> '0' <= #[trigger] digits[i] <= '9',
        letter is Some ==> is_ink(letter->0) && !('0' <= letter->0 <= '9'),
    ensures
        ({
            let unit = match letter {
                Some(c) => seq![c],
                None => Seq::empty(),
            };
            let said = duration(front + (digits + unit) + behind);
            let seconds = match letter {
                Some(c) => letter_seconds(c),
                None => Some(1int),
            };
            &&& digits.len() == 0 || seconds is None ==> said is None
            &&& digits.len() > 0 && seconds is Some && digits_value(digits) * seconds->0
                <= i64::MAX ==> said == Some((digits_value(digits) * seconds->0) as i64)
            &&& digits.len() > 0 && seconds is Some && digits_value(digits) * seconds->0
                > i64::MAX ==> said is None
        }),
{
    reveal(duration);
    let unit = match letter {
        Some(c) => seq![c],
        None => Seq::empty(),
    };
    let text = digits + unit;
    if text.len() > 0 {
        assert(is_ink(text[0]) && is_ink(text.last())) by {
            if digits.len() > 0 {
                assert('0' <= digits[0] <= '9');
                assert('0' <= digits[digits.len() - 1] <= '9');
            }
        }
    }
    trimming_takes_the_gaps(front, text, behind);
    filter_all(digits, digit_chars());
    filter_none(digits, other_chars());
    filter_none(unit, digit_chars());
    filter_all(unit, other_chars());
    Seq::filter_distributes_over_add(digits, unit, digit_chars());
    Seq::filter_distributes_over_add(digits, unit, other_chars());
    let none = Seq::<char>::empty();
    assert(digits + none =~= digits);
    assert(none + unit =~= unit);
    trimming_takes_the_gaps(none, unit, none);
    assert(none + unit + none =~= unit);
    match letter {
        Some(c) => {
            letters_are_units(c);
        },
        None => {
            letters_are_units('s');
        },
    }
}

} // verus!
