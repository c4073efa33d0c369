//! The `meta` table: small facts that are not tasks. The supervisor heartbeat, the
//! pause flag and the place in the raw events live here.

use crate::error::{Error, ErrorModel};
use crate::text::{
    cat2, copy, int_text, integer, integer_of, integer_reads_back, is_text, parse_integer, quote,
    quoted,
};
use vstd::prelude::*;

verus! {

pub const HEARTBEAT: &'static str = "supervisor.heartbeat";

pub const PAUSED: &'static str = "paused";

/// The reader's place in the raw events.
pub const RAW_CURSOR: &'static str = "raw_cursor";

/// What is done to one row of the table.
#[derive(Debug)]
pub enum Write {
    /// The value under the key is now this.
    Put(String),
    /// There is nothing under the key any more.
    Delete,
}

impl Write {
    /// What stands under the key afterwards.
    pub open spec fn leaves(self) -> Option<Seq<char>> {
        match self {
            Write::Put(v) => Some(v@),
            Write::Delete => None,
        }
    }
}

/// Is the supervisor told to hold off, by what stands under `paused`?
pub open spec fn holds_off(value: Option<Seq<char>>) -> bool {
    value == Some("1"@)
}

/// Is the supervisor being told to hold off? Read every tick.
pub fn is_paused(value: &Option<String>) -> (r: bool)
    ensures
        r == holds_off(value.deep_view()),
{
    is_text(value, "1")
}

/// What to do to the row under `paused`. Reading it afterwards says what was asked
/// for.
pub fn set_paused(paused: bool) -> (r: Write)
    ensures
        r.leaves() == (if paused {
            Some("1"@)
        } else {
            None
        }),
        holds_off(r.leaves()) == paused,
{
    if paused {
        Write::Put(copy("1"))
    } else {
        Write::Delete
    }
}

/// What a JSON value that cannot be read is reported as.
pub fn corrupt_value(key: &str, why: &str) -> (r: Error)
    ensures
        r@ == (ErrorModel::Corrupt { what: "meta value"@, detail: key@ + ": "@ + why@ }),
{
    Error::corrupt("meta value", crate::text::cat3(key, ": ", why))
}

/// The reader's place, by what stands under `raw_cursor`: the beginning where
/// nothing does.
pub open spec fn cursor_at(value: Option<Seq<char>>) -> Option<int> {
    match value {
        Some(text) => match integer_of(text) {
            Some(n) => if i64::MIN <= n <= i64::MAX {
                Some(n)
            } else {
                None
            },
            None => None,
        },
        None => Some(0),
    }
}

pub fn raw_cursor(value: &Option<String>) -> (r: Result<i64, Error>)
    ensures
        match cursor_at(value.deep_view()) {
            Some(n) => r == Ok::<i64, Error>(n as i64),
            None => r matches Err(e) && e@ == (ErrorModel::Corrupt {
                what: "meta value"@,
                detail: "raw_cursor"@ + ": "@ + ("not a number: "@ + quoted(value->0@)),
            }),
        },
{
    match value {
        Some(text) => match parse_integer(text) {
            Some(n) => Ok(n),
            None => Err(corrupt_value(RAW_CURSOR, &cat2("not a number: ", &quote(text)))),
        },
        None => Ok(0),
    }
}

/// What to write under `raw_cursor`. Reading it afterwards gives the place back.
pub fn set_raw_cursor(cursor: i64) -> (r: Write)
    ensures
        r.leaves() == Some(int_text(cursor as int)),
        cursor_at(r.leaves()) == Some(cursor as int),
{
    proof {
        integer_reads_back(cursor as int);
    }
    Write::Put(integer(cursor))
}

/// The supervisor holds off for what [`set_paused`] writes, and for nothing else: where
/// nothing stands there, it goes on.
pub proof fn only_a_pause_holds_off(value: Option<Seq<char>>)
    ensures
        holds_off(None) == false,
        holds_off(value) <==> value is Some && value->0.len() == 1 && value->0[0] == '1',
{
    reveal_strlit("1");
    if value is Some && value->0.len() == 1 && value->0[0] == '1' {
        assert(value->0 =~= "1"@);
    }
}

/// A place in the raw events that was written reads back; where none was, reading begins at
/// the beginning.
pub proof fn a_place_reads_back(cursor: i64)
    ensures
        cursor_at(None) == Some(0int),
        cursor_at(Some(int_text(cursor as int))) == Some(cursor as int),
{
    integer_reads_back(cursor as int);
}

} // verus!
