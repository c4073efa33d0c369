//! The outcome vocabulary shared by step scripts and by config
//! (`on_exhausted`). Four words, fixed: adding a fifth would change what every
//! step script is allowed to say.

use crate::error::{Error, ErrorModel};
use crate::text::{cat2, quote, quoted, same};
use vstd::prelude::*;

verus! {

#[derive(Debug, Clone, Copy, PartialEq, Eq, Structural)]
pub enum Outcome {
    /// Step succeeded. Advance.
    Pass,
    /// The step's verdict is negative. Take the pipeline's `on_fail`.
    Reject,
    /// A promise, not an answer: resolve later per the step's `await`.
    Started,
    /// Something broke. Park the task.
    Error,
}

impl Outcome {
    pub const ALL: [Outcome; 4] = [
        Outcome::Pass,
        Outcome::Reject,
        Outcome::Started,
        Outcome::Error,
    ];

    /// The word a script or a config says for this outcome.
    pub open spec fn word(self) -> Seq<char> {
        match self {
            Outcome::Pass => "pass"@,
            Outcome::Reject => "reject"@,
            Outcome::Started => "started"@,
            Outcome::Error => "error"@,
        }
    }

    /// The outcome a word says, if it says one.
    pub open spec fn of_word(s: Seq<char>) -> Option<Outcome> {
        if s == "pass"@ {
            Some(Outcome::Pass)
        } else if s == "reject"@ {
            Some(Outcome::Reject)
        } else if s == "started"@ {
            Some(Outcome::Started)
        } else if s == "error"@ {
            Some(Outcome::Error)
        } else {
            None
        }
    }

    pub fn as_str(self) -> (r: &'static str)
        ensures
            r@ == self.word(),
    {
        match self {
            Outcome::Pass => "pass",
            Outcome::Reject => "reject",
            Outcome::Started => "started",
            Outcome::Error => "error",
        }
    }

    /// The outcome a word says. Anything but the four words is an error that
    /// quotes the word.
    pub fn parse(s: &str) -> (r: Result<Outcome, Error>)
        ensures
            match Outcome::of_word(s@) {
                Some(o) => r == Ok::<Outcome, Error>(o),
                None => r matches Err(e) && e@ == ErrorModel::Other(
                    "unknown outcome "@ + quoted(s@),
                ),
            },
    {
        if same(s, "pass") {
            Ok(Outcome::Pass)
        } else if same(s, "reject") {
            Ok(Outcome::Reject)
        } else if same(s, "started") {
            Ok(Outcome::Started)
        } else if same(s, "error") {
            Ok(Outcome::Error)
        } else {
            Err(Error::Other(cat2("unknown outcome ", &quote(s))))
        }
    }
}

/// Every outcome is read back from the word it is written as.
pub proof fn outcome_words_read_back(o: Outcome)
    ensures
        Outcome::of_word(o.word()) == Some(o),
{
    reveal_strlit("pass");
    reveal_strlit("reject");
    reveal_strlit("started");
    reveal_strlit("error");
    assert("pass"@.len() == 4 && "reject"@.len() == 6 && "started"@.len() == 7 && "error"@.len() == 5);
}

/// A word is an outcome exactly where it is one of the four.
pub proof fn four_words_are_outcomes(s: Seq<char>)
    ensures
        Outcome::of_word(s) is Some <==> s == "pass"@ || s == "reject"@ || s == "started"@ || s
            == "error"@,
        Outcome::of_word(s) is Some ==> Outcome::of_word(s)->0.word() == s,
{
}

} // verus!
