//! `shep create --type feature "..."`.

use crate::config::Policy;
use crate::db::task::NewTask;
use crate::error::{Error, ErrorModel};
use crate::text::{cat3, copy, copy_list, join, joined, quoted, trim, trimmed};
use vstd::prelude::*;

verus! {

/// The brief that some words are.
pub open spec fn brief_of(words: Seq<Seq<char>>) -> Seq<char> {
    trimmed(joined(words, " "@))
}

/// The brief that some words are. A task needs one.
pub fn brief(words: &Vec<String>, kind: &str) -> (r: Result<String, Error>)
    ensures
        brief_of(words.deep_view()).len() > 0 ==> (r matches Ok(b) && b@ == brief_of(
            words.deep_view(),
        )),
        brief_of(words.deep_view()).len() == 0 ==> (r matches Err(e) && e@ == ErrorModel::Other(
            "a task needs a brief: shep create --type "@ + kind@ + " \"what to do\""@,
        )),
{
    let b: String = trim(&join(words, " "));
    if b.as_str().is_empty() {
        return Err(
            Error::Other(
                cat3("a task needs a brief: shep create --type ", kind, " \"what to do\""),
            ),
        );
    }
    Ok(b)
}

/// The task to create: one of a type the repo's policy has, whose pipelines seed its
/// plan. Any other type is answered with the menu.
pub fn new_task(policy: &Policy, brief: String, kind: &str, repo: &str) -> (r: Result<
    NewTask,
    Error,
>)
    ensures
        match policy.type_called(kind@) {
            Some(t) => r matches Ok(new) && new.brief@ == brief@ && new.kind@ == kind@
                && new.repo@ == repo@ && new.plan.deep_view() == t.pipelines.deep_view(),
            None => r matches Err(e) && e@ == ErrorModel::Other(
                "unknown type "@ + quoted(kind@) + ". "@ + policy.menu(),
            ),
        },
{
    match policy.task_type(kind) {
        Ok(t) => Ok(
            NewTask { brief, kind: copy(kind), repo: copy(repo), plan: copy_list(&t.pipelines) },
        ),
        Err(e) => Err(e),
    }
}

} // verus!
