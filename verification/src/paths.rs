//! Where things live on disk. Paths are texts with `/` between their parts.

use crate::text::{cat2, cat3, chars_of, copy, same};
use vstd::prelude::*;
use vstd::string::*;

verus! {

pub open spec fn starts_with_slash(p: Seq<char>) -> bool {
    p.len() > 0 && p[0] == '/'
}

pub open spec fn ends_with_slash(p: Seq<char>) -> bool {
    p.len() > 0 && p.last() == '/'
}

/// One path taken from inside another: an absolute one replaces it, any other is
/// put below it.
pub open spec fn below(dir: Seq<char>, rest: Seq<char>) -> Seq<char> {
    if starts_with_slash(rest) || dir.len() == 0 {
        rest
    } else if ends_with_slash(dir) {
        dir + rest
    } else {
        dir + "/"@ + rest
    }
}

pub fn join_path(dir: &str, rest: &str) -> (r: String)
    ensures
        r@ == below(dir@, rest@),
{
    let d: usize = dir.unicode_len();
    let n: usize = rest.unicode_len();
    if d == 0 || (n > 0 && rest.get_char(0) == '/') {
        copy(rest)
    } else if dir.get_char(d - 1) == '/' {
        cat2(dir, rest)
    } else {
        cat3(dir, "/", rest)
    }
}

// ---------------------------------------------------------------------------
// The store and what stands beside it
// ---------------------------------------------------------------------------

pub const DB_ENV: &'static str = "SHEP_DB";

pub const BIN_ENV: &'static str = "SHEP_BIN";

/// A path the environment names. An empty one names nothing.
pub open spec fn named(value: Option<Seq<char>>) -> Option<Seq<char>> {
    match value {
        Some(v) => if v.len() > 0 {
            Some(v)
        } else {
            None
        },
        None => None,
    }
}

pub fn env_path(value: &Option<String>) -> (r: Option<String>)
    ensures
        r.deep_view() == named(value.deep_view()),
{
    match value {
        Some(v) => if v.as_str().is_empty() {
            None
        } else {
            Some(copy(v))
        },
        None => None,
    }
}

/// `$XDG_STATE_HOME/shep`, else `~/.local/state/shep`, else `./.shep-state`.
pub open spec fn state_at(xdg: Option<Seq<char>>, home: Option<Seq<char>>) -> Seq<char> {
    match named(xdg) {
        Some(dir) => below(dir, "shep"@),
        None => match named(home) {
            Some(dir) => below(dir, ".local/state/shep"@),
            None => ".shep-state"@,
        },
    }
}

/// Where the state is kept, by `$XDG_STATE_HOME` and `$HOME`.
pub fn state_dir(xdg: &Option<String>, home: &Option<String>) -> (r: String)
    ensures
        r@ == state_at(xdg.deep_view(), home.deep_view()),
{
    match env_path(xdg) {
        Some(dir) => join_path(&dir, "shep"),
        None => match env_path(home) {
            Some(dir) => join_path(&dir, ".local/state/shep"),
            None => copy(".shep-state"),
        },
    }
}

/// The store: `$SHEP_DB` if set, else `shep.db` in the state directory.
pub open spec fn store_at(
    db: Option<Seq<char>>,
    xdg: Option<Seq<char>>,
    home: Option<Seq<char>>,
) -> Seq<char> {
    match named(db) {
        Some(path) => path,
        None => below(state_at(xdg, home), "shep.db"@),
    }
}

/// The store path, by `$SHEP_DB`, `$XDG_STATE_HOME` and `$HOME`.
///
/// `$SHEP_DB` is exported into every step script so that `shep` subcommands a script
/// invokes hit the same store the supervisor is driving.
pub fn db_path(db: &Option<String>, xdg: &Option<String>, home: &Option<String>) -> (r: String)
    ensures
        r@ == store_at(db.deep_view(), xdg.deep_view(), home.deep_view()),
{
    match env_path(db) {
        Some(path) => path,
        None => join_path(&state_dir(xdg, home), "shep.db"),
    }
}

/// The `shep` a step script should call: `$SHEP_BIN` if set, else the running program.
///
/// A step script has to be able to reach back, and it cannot assume the binary is on
/// `$PATH`. So the running process names itself, which is right whether that is an
/// installed binary or one built in a checkout.
pub fn shep_bin(bin: &Option<String>, running: &Option<String>) -> (r: Option<String>)
    ensures
        r.deep_view() == (match named(bin.deep_view()) {
            Some(path) => Some(path),
            None => running.deep_view(),
        }),
{
    match env_path(bin) {
        Some(path) => Some(path),
        None => match running {
            Some(path) => Some(copy(path)),
            None => None,
        },
    }
}

/// A path without the separators at its end, and without the parts there that say only
/// "here". The root stays.
pub open spec fn tidy(p: Seq<char>) -> Seq<char>
    decreases p.len(),
{
    if p.len() > 1 && p.last() == '/' {
        tidy(p.drop_last())
    } else if p.len() > 1 && p.last() == '.' && p[p.len() - 2] == '/' {
        tidy(p.drop_last())
    } else {
        p
    }
}

/// A path without what follows its last separator.
pub open spec fn up_to_slash(p: Seq<char>) -> Seq<char>
    decreases p.len(),
{
    if p.len() > 0 && p.last() != '/' {
        up_to_slash(p.drop_last())
    } else {
        p
    }
}

/// The directory that a path is in. The root, and a path of nothing, are in none.
pub open spec fn parent(p: Seq<char>) -> Option<Seq<char>> {
    let t = tidy(p);
    if t.len() == 0 || t == "/"@ {
        None
    } else {
        Some(tidy(up_to_slash(t)))
    }
}

fn tidied(p: &str) -> (r: String)
    ensures
        r@ == tidy(p@),
{
    let cs: Vec<char> = chars_of(p);
    let mut n: usize = cs.len();
    assert(p@.take(n as int) =~= p@);
    while n > 1 && (cs[n - 1] == '/' || (cs[n - 1] == '.' && cs[n - 2] == '/'))
        invariant
            n <= cs.len(),
            cs@ == p@,
            tidy(p@.take(n as int)) == tidy(p@),
        decreases n,
    {
        assert(p@.take(n as int).drop_last() =~= p@.take(n as int - 1));
        n = n - 1;
    }
    assert(p@.subrange(0, n as int) =~= p@.take(n as int));
    p.substring_char(0, n).to_owned()
}

fn parent_of(p: &str) -> (r: Option<String>)
    ensures
        r.deep_view() == parent(p@),
{
    let t: String = tidied(p);
    if t.as_str().is_empty() || same(&t, "/") {
        return None;
    }
    let cs: Vec<char> = chars_of(&t);
    let mut n: usize = cs.len();
    assert(t@.take(n as int) =~= t@);
    while n > 0 && cs[n - 1] != '/'
        invariant
            n <= cs.len(),
            cs@ == t@,
            up_to_slash(t@.take(n as int)) == up_to_slash(t@),
        decreases n,
    {
        assert(t@.take(n as int).drop_last() =~= t@.take(n as int - 1));
        n = n - 1;
    }
    assert(t@.subrange(0, n as int) =~= t@.take(n as int));
    Some(tidied(t.as_str().substring_char(0, n)))
}

/// The log that belongs to a store: `supervisor.log` beside it.
pub open spec fn log_beside(db: Seq<char>) -> Seq<char> {
    match parent(db) {
        Some(dir) => if dir.len() > 0 {
            below(dir, "supervisor.log"@)
        } else {
            "supervisor.log"@
        },
        None => "supervisor.log"@,
    }
}

/// The log that belongs to a particular store, for when `--db` overrides.
pub fn log_path_for(db: &str) -> (r: String)
    ensures
        r@ == log_beside(db@),
{
    match parent_of(db) {
        Some(dir) => if dir.as_str().is_empty() {
            copy("supervisor.log")
        } else {
            join_path(&dir, "supervisor.log")
        },
        None => copy("supervisor.log"),
    }
}

/// Supervisor log file, kept beside the store so an alternate `$SHEP_DB` gets its own
/// log. Hook and step stdout is not a terminal, so logs go to a file rather than to
/// stdout.
pub fn log_path(db: &Option<String>, xdg: &Option<String>, home: &Option<String>) -> (r: String)
    ensures
        r@ == log_beside(store_at(db.deep_view(), xdg.deep_view(), home.deep_view())),
{
    log_path_for(&db_path(db, xdg, home))
}

/// A path that says where it is from the root replaces any other. One that does not is put
/// below it, with one separator between them.
pub proof fn a_path_is_put_below(dir: Seq<char>, rest: Seq<char>)
    ensures
        rest.len() > 0 && rest[0] == '/' ==> below(dir, rest) == rest,
        below(Seq::empty(), rest) == rest,
        dir.len() > 0 && dir.last() == '/' && (rest.len() == 0 || rest[0] != '/') ==> below(
            dir,
            rest,
        ) == dir + rest,
        dir.len() > 0 && dir.last() != '/' && (rest.len() == 0 || rest[0] != '/') ==> below(
            dir,
            rest,
        ) == dir + seq!['/'] + rest,
{
    reveal_strlit("/");
    assert("/"@ =~= seq!['/']);
}

/// A store that is named is the store. Else it is `shep.db` among the state, which is below
/// the state's own home where that is named, below the person's home where that is, and
/// here where neither is. What is named as nothing is not named.
pub proof fn the_store_is_where_it_is_said_to_be(
    db: Option<Seq<char>>,
    xdg: Option<Seq<char>>,
    home: Option<Seq<char>>,
)
    ensures
        db is Some && db->0.len() > 0 ==> store_at(db, xdg, home) == db->0,
        db is None || db->0.len() == 0 ==> store_at(db, xdg, home) == below(
            state_at(xdg, home),
            "shep.db"@,
        ),
        xdg is Some && xdg->0.len() > 0 ==> state_at(xdg, home) == below(xdg->0, "shep"@),
        (xdg is None || xdg->0.len() == 0) && home is Some && home->0.len() > 0 ==> state_at(
            xdg,
            home,
        ) == below(home->0, ".local/state/shep"@),
        (xdg is None || xdg->0.len() == 0) && (home is None || home->0.len() == 0) ==> state_at(
            xdg,
            home,
        ) == ".shep-state"@,
{
}

proof fn up_to_the_last_slash(dir: Seq<char>, file: Seq<char>)
    requires
        !file.contains('/'),
    ensures
        up_to_slash(dir + seq!['/'] + file) == dir + seq!['/'],
    decreases file.len(),
{
    let p = dir + seq!['/'] + file;
    if file.len() == 0 {
        assert(p =~= dir + seq!['/']);
    } else {
        let front = file.drop_last();
        assert(file.contains(file[file.len() - 1]));
        assert(p.last() == file.last());
        assert(p.drop_last() =~= dir + seq!['/'] + front);
        assert(!front.contains('/')) by {
            if front.contains('/') {
                let i = front.index_of('/');
                assert(file[i] == '/');
            }
        }
        up_to_the_last_slash(dir, front);
    }
}

/// The log of a store is beside it, in the same directory.
pub proof fn the_log_is_beside_the_store(dir: Seq<char>, file: Seq<char>)
    requires
        file.len() > 0,
        !file.contains('/'),
        file.last() != '.',
    ensures
        log_beside(file) == "supervisor.log"@,
        dir.len() > 0 && dir.last() != '/' && dir.last() != '.' ==> log_beside(
            dir + seq!['/'] + file,
        ) == dir + seq!['/'] + "supervisor.log"@,
{
    reveal_strlit("/");
    reveal_strlit("supervisor.log");
    assert("/"@ =~= seq!['/']);
    assert(file.contains(file[file.len() - 1]));
    assert(file != "/"@) by {
        assert("/"@.last() == '/');
    }
    assert(tidy(file) == file);
    no_slash_is_nothing(file);
    assert(parent(file) == Some(Seq::<char>::empty()));
    if dir.len() > 0 && dir.last() != '/' && dir.last() != '.' {
        let p = dir + seq!['/'] + file;
        assert(p.last() == file.last());
        assert(tidy(p) == p);
        assert(p.len() > 1);
        up_to_the_last_slash(dir, file);
        let d = dir + seq!['/'];
        assert(d.last() == '/');
        assert(d.drop_last() =~= dir);
        assert(tidy(dir) == dir);
        assert(tidy(d) == dir);
        assert(p != "/"@) by {
            assert("/"@.len() == 1);
        }
        assert(parent(p) == Some(dir));
        assert("supervisor.log"@[0] == 's');
    }
}

proof fn no_slash_is_nothing(file: Seq<char>)
    requires
        !file.contains('/'),
    ensures
        up_to_slash(file) == Seq::<char>::empty(),
    decreases file.len(),
{
    if file.len() > 0 {
        let front = file.drop_last();
        assert(file.contains(file[file.len() - 1]));
        assert(!front.contains('/')) by {
            if front.contains('/') {
                let i = front.index_of('/');
                assert(file[i] == '/');
            }
        }
        no_slash_is_nothing(front);
    } else {
        assert(file =~= Seq::empty());
    }
}

} // verus!
