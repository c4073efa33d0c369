//! What can go wrong.

use crate::text::{cat2, cat3, cat4, cat7, copy, int_text, integer, mentions, parts_are_mentioned};
use vstd::prelude::*;

verus! {

#[derive(Debug)]
pub enum Error {
    TaskNotFound(String),
    NoStore(String),
    SchemaTooNew { path: String, found: i64, known: i64 },
    Sqlite(String),
    Corrupt { what: &'static str, detail: String },
    Json(String),
    Io(String),
    Other(String),
}

/// An error over its texts.
#[verifier::ext_equal]
pub enum ErrorModel {
    TaskNotFound(Seq<char>),
    NoStore(Seq<char>),
    SchemaTooNew { path: Seq<char>, found: int, known: int },
    Sqlite(Seq<char>),
    Corrupt { what: Seq<char>, detail: Seq<char> },
    Json(Seq<char>),
    Io(Seq<char>),
    Other(Seq<char>),
}

impl View for Error {
    type V = ErrorModel;

    open spec fn view(&self) -> ErrorModel {
        match self {
            Error::TaskNotFound(id) => ErrorModel::TaskNotFound(id@),
            Error::NoStore(path) => ErrorModel::NoStore(path@),
            Error::SchemaTooNew { path, found, known } => ErrorModel::SchemaTooNew {
                path: path@,
                found: *found as int,
                known: *known as int,
            },
            Error::Sqlite(m) => ErrorModel::Sqlite(m@),
            Error::Corrupt { what, detail } => ErrorModel::Corrupt {
                what: what@,
                detail: detail@,
            },
            Error::Json(m) => ErrorModel::Json(m@),
            Error::Io(m) => ErrorModel::Io(m@),
            Error::Other(m) => ErrorModel::Other(m@),
        }
    }
}

impl ErrorModel {
    /// What a person reads.
    pub open spec fn text(self) -> Seq<char> {
        match self {
            ErrorModel::TaskNotFound(id) => "no such task: "@ + id,
            ErrorModel::NoStore(path) => "no store at "@ + path
                + " — nothing has been created yet"@,
            ErrorModel::SchemaTooNew { path, found, known } => "store at "@ + path
                + " has schema version "@ + int_text(found)
                + ", but this build understands at most "@ + int_text(known) + " — upgrade shep"@,
            ErrorModel::Sqlite(m) => "database error: "@ + m,
            ErrorModel::Corrupt { what, detail } => "malformed "@ + what + " in the store: "@
                + detail,
            ErrorModel::Json(m) => "json error: "@ + m,
            ErrorModel::Io(m) => "io error: "@ + m,
            ErrorModel::Other(m) => m,
        }
    }
}

impl Error {
    pub fn other(msg: String) -> (r: Error)
        ensures
            r@ == ErrorModel::Other(msg@),
    {
        Error::Other(msg)
    }

    pub fn corrupt(what: &'static str, detail: String) -> (r: Error)
        ensures
            r@ == (ErrorModel::Corrupt { what: what@, detail: detail@ }),
    {
        Error::Corrupt { what, detail }
    }

    /// What a person reads.
    pub fn message(&self) -> (r: String)
        ensures
            r@ == self@.text(),
    {
        match self {
            Error::TaskNotFound(id) => cat2("no such task: ", id),
            Error::NoStore(path) => cat3("no store at ", path, " — nothing has been created yet"),
            Error::SchemaTooNew { path, found, known } => cat7(
                "store at ",
                path,
                " has schema version ",
                &integer(*found),
                ", but this build understands at most ",
                &integer(*known),
                " — upgrade shep",
            ),
            Error::Sqlite(m) => cat2("database error: ", m),
            Error::Corrupt { what, detail } => cat4(
                "malformed ",
                *what,
                " in the store: ",
                detail,
            ),
            Error::Json(m) => cat2("json error: ", m),
            Error::Io(m) => cat2("io error: ", m),
            Error::Other(m) => copy(m),
        }
    }
}

/// What a person reads of an error tells all that the error holds.
pub proof fn an_error_tells_what_it_holds(e: ErrorModel)
    ensures
        match e {
            ErrorModel::TaskNotFound(id) => mentions(e.text(), id),
            ErrorModel::NoStore(path) => mentions(e.text(), path),
            ErrorModel::SchemaTooNew { path, found, known } => mentions(e.text(), path) && mentions(
                e.text(),
                int_text(found),
            ) && mentions(e.text(), int_text(known)),
            ErrorModel::Sqlite(m) => mentions(e.text(), m),
            ErrorModel::Corrupt { what, detail } => mentions(e.text(), what) && mentions(
                e.text(),
                detail,
            ),
            ErrorModel::Json(m) => mentions(e.text(), m),
            ErrorModel::Io(m) => mentions(e.text(), m),
            ErrorModel::Other(m) => e.text() == m,
        },
{
    let none = Seq::<char>::empty();
    match e {
        ErrorModel::TaskNotFound(id) => {
            parts_are_mentioned("no such task: "@, id, none);
        },
        ErrorModel::NoStore(path) => {
            parts_are_mentioned("no store at "@, path, " — nothing has been created yet"@);
        },
        ErrorModel::SchemaTooNew { path, found, known } => {
            let a = "store at "@;
            let b = " has schema version "@;
            let c = ", but this build understands at most "@;
            let d = " — upgrade shep"@;
            let f = int_text(found);
            let k = int_text(known);
            parts_are_mentioned(a, path, b + f + c + k + d);
            assert(a + path + (b + f + c + k + d) =~= e.text());
            parts_are_mentioned(a + path + b, f, c + k + d);
            assert(a + path + b + f + (c + k + d) =~= e.text());
            parts_are_mentioned(a + path + b + f + c, k, d);
        },
        ErrorModel::Sqlite(m) => {
            parts_are_mentioned("database error: "@, m, none);
        },
        ErrorModel::Corrupt { what, detail } => {
            let a = "malformed "@;
            let b = " in the store: "@;
            parts_are_mentioned(a, what, b + detail);
            assert(a + what + (b + detail) =~= e.text());
            parts_are_mentioned(a + what + b, detail, none);
        },
        ErrorModel::Json(m) => {
            parts_are_mentioned("json error: "@, m, none);
        },
        ErrorModel::Io(m) => {
            parts_are_mentioned("io error: "@, m, none);
        },
        ErrorModel::Other(_) => {},
    }
}

} // verus!
