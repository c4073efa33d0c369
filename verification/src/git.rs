//! The little bit of git the engine does itself: which commit a check is a verdict
//! about.

use crate::error::{Error, ErrorModel};
use crate::text::{cat3, cat4, trim, trimmed};
use vstd::prelude::*;

verus! {

/// What running `git rev-parse HEAD` left behind.
#[derive(Debug)]
pub struct Ran {
    pub success: bool,
    pub stdout: String,
    pub stderr: String,
}

/// The commit that `git rev-parse HEAD` named in a directory.
///
/// This is how `sha` gets onto a `check_run`: the submitter never supplies it, or a
/// stale check becomes an agent-behaviour bug instead of an impossible state.
pub fn head_sha(dir: &str, ran: &Result<Ran, String>) -> (r: Result<String, Error>)
    ensures
        match ran {
            Err(why) => r matches Err(e) && e@ == ErrorModel::Other(
                "could not run git in "@ + dir@ + ": "@ + why@,
            ),
            Ok(out) => if !out.success {
                r matches Err(e) && e@ == ErrorModel::Other(
                    "git rev-parse HEAD failed in "@ + dir@ + ": "@ + trimmed(out.stderr@),
                )
            } else if trimmed(out.stdout@).len() == 0 {
                r matches Err(e) && e@ == ErrorModel::Other(
                    "git rev-parse HEAD said nothing in "@ + dir@ + " — no commits yet?"@,
                )
            } else {
                r matches Ok(sha) && sha@ == trimmed(out.stdout@)
            },
        },
{
    match ran {
        Err(why) => Err(Error::Other(cat4("could not run git in ", dir, ": ", why))),
        Ok(out) => {
            if !out.success {
                return Err(
                    Error::Other(
                        cat4("git rev-parse HEAD failed in ", dir, ": ", &trim(&out.stderr)),
                    ),
                );
            }
            let sha: String = trim(&out.stdout);
            if sha.as_str().is_empty() {
                return Err(
                    Error::Other(
                        cat3("git rev-parse HEAD said nothing in ", dir, " — no commits yet?"),
                    ),
                );
            }
            Ok(sha)
        },
    }
}

} // verus!
