//! The store: what its rows mean. Every change to a task goes through the engine;
//! this is what the engine writes and reads.

pub mod check;
pub mod event;
pub mod meta;
pub mod pane;
pub mod raw_event;
pub mod schema;
pub mod task;

use crate::error::{Error, ErrorModel};
use crate::text::{cat3, chars_of, quote, quoted};
use vstd::prelude::*;

verus! {

/// How long a writer waits for the write lock before giving up. Concurrent writers
/// must wait rather than see `SQLITE_BUSY`.
pub const BUSY_TIMEOUT_MS: u32 = 10000;

/// The word `wal`, in either case.
pub open spec fn says_wal(mode: Seq<char>) -> bool {
    &&& mode.len() == 3
    &&& mode[0] == 'w' || mode[0] == 'W'
    &&& mode[1] == 'a' || mode[1] == 'A'
    &&& mode[2] == 'l' || mode[2] == 'L'
}

/// Every connection needs the store in WAL mode. `mode` is what the store answers
/// to being put there.
pub fn check_journal_mode(mode: &str) -> (r: Result<(), Error>)
    ensures
        says_wal(mode@) ==> r is Ok,
        !says_wal(mode@) ==> (r matches Err(e) && e@ == ErrorModel::Other(
            "could not put the store in WAL mode (got "@ + quoted(mode@) + ")"@,
        )),
{
    let cs: Vec<char> = chars_of(mode);
    if cs.len() == 3 && (cs[0] == 'w' || cs[0] == 'W') && (cs[1] == 'a' || cs[1] == 'A') && (cs[2]
        == 'l' || cs[2] == 'L') {
        return Ok(());
    }
    Err(
        Error::Other(cat3("could not put the store in WAL mode (got ", &quote(mode), ")")),
    )
}

} // verus!
