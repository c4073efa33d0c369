//! What each subcommand says. The CLI holds no logic that the supervisor does not also
//! run; this is how it tells what happened.

pub mod check;
pub mod context;
pub mod create;
pub mod forward;
pub mod get;
pub mod laws;
pub mod ps;
pub mod raw;
pub mod say;
pub mod status;
pub mod trace;
pub mod types;
pub mod validate;

use crate::error::{Error, ErrorModel};
use crate::paths::{env_path, named};
use crate::text::{
    cat2, copy, int_text, integer, is_gap, is_ink, is_white, join, joined, push_deep, trim,
    trim_end, trimmed, trimmed_end, white,
};
use vstd::prelude::*;
use vstd::string::*;

verus! {

// ---------------------------------------------------------------------------
// Time
// ---------------------------------------------------------------------------

/// A duration rendered the way you'd say it out loud.
pub open spec fn ago_text(seconds: int) -> Seq<char> {
    if seconds <= 1 {
        "just now"@
    } else if seconds <= 59 {
        int_text(seconds) + "s ago"@
    } else if seconds <= 3599 {
        int_text(seconds / 60) + "m ago"@
    } else if seconds <= 86399 {
        int_text(seconds / 3600) + "h ago"@
    } else {
        int_text(seconds / 86400) + "d ago"@
    }
}

/// A duration rendered the way you'd say it out loud. Used by every table.
pub fn ago(seconds: i64) -> (r: String)
    ensures
        r@ == ago_text(seconds as int),
{
    if seconds <= 1 {
        copy("just now")
    } else if seconds <= 59 {
        cat2(&integer(seconds), "s ago")
    } else if seconds <= 3599 {
        cat2(&integer(seconds / 60), "m ago")
    } else if seconds <= 86399 {
        cat2(&integer(seconds / 3600), "h ago")
    } else {
        cat2(&integer(seconds / 86400), "d ago")
    }
}

/// How long ago a time was, as far as a clock can count.
pub open spec fn elapsed(now: i64, then_at: i64) -> int {
    if now - then_at > i64::MAX {
        i64::MAX as int
    } else if now - then_at < i64::MIN {
        i64::MIN as int
    } else {
        now - then_at
    }
}

/// How long ago a time was, rendered the way you'd say it out loud.
pub fn since(now: i64, then_at: i64) -> (r: String)
    ensures
        r@ == ago_text(elapsed(now, then_at)),
{
    let seconds: i64 = match now.checked_sub(then_at) {
        Some(s) => s,
        None => if now > then_at {
            i64::MAX
        } else {
            i64::MIN
        },
    };
    ago(seconds)
}

// ---------------------------------------------------------------------------
// Cells
// ---------------------------------------------------------------------------

/// The words of a text: its runs of characters that are not white space.
pub open spec fn words(s: Seq<char>) -> Seq<Seq<char>>
    decreases s.len(),
{
    if s.len() == 0 {
        Seq::empty()
    } else {
        let front = words(s.drop_last());
        let c = s.last();
        if is_white(c) {
            front
        } else if s.len() >= 2 && !is_white(s[s.len() - 2]) {
            front.drop_last().push(front.last().push(c))
        } else {
            front.push(seq![c])
        }
    }
}

fn words_of(s: &str) -> (r: Vec<String>)
    ensures
        r.deep_view() == words(s@),
{
    broadcast use push_deep;

    let cs: Vec<char> = crate::text::chars_of(s);
    let ghost t = s@;
    let mut out: Vec<String> = Vec::new();
    let mut current: String = String::new();
    let mut inside: bool = false;
    assert(out.deep_view() =~= words(t.take(0)));
    for i in 0..cs.len()
        invariant
            cs@ == t,
            t == s@,
            inside == (i > 0 && !is_white(t[i - 1])),
            words(t.take(i as int)) == (if inside {
                out.deep_view().push(current@)
            } else {
                out.deep_view()
            }),
    {
        let ghost front = t.take(i as int);
        proof {
            assert(t.take(i as int + 1).drop_last() =~= front);
            assert(t.take(i as int + 1).last() == t[i as int]);
        }
        let ghost prev = out;
        let piece: &str = s.substring_char(i, i + 1);
        assert(piece@ =~= seq![t[i as int]]);
        if white(cs[i]) {
            if inside {
                let word: String = current;
                out.push(word);
                current = String::new();
                inside = false;
            }
        } else if inside {
            let ghost was = current@;
            current.append(piece);
            proof {
                assert(current@ =~= was.push(t[i as int]));
                assert(words(front).drop_last() =~= out.deep_view());
                assert(words(front).last() == was);
            }
        } else {
            current = piece.to_owned();
            inside = true;
        }
    }
    assert(t.take(cs.len() as int) =~= t);
    if inside {
        out.push(current);
    }
    out
}

/// A text on one line, cut down to a width without lying about it.
pub open spec fn cut(text: Seq<char>, width: nat) -> Seq<char> {
    let line = joined(words(text), " "@);
    if line.len() <= width {
        line
    } else {
        trimmed_end(
            line.take(
                if width > 0 {
                    width - 1
                } else {
                    0
                },
            ),
        ) + "…"@
    }
}

/// Cut a brief down to a table cell without lying about it.
pub fn truncate(text: &str, width: usize) -> (r: String)
    ensures
        r@ == cut(text@, width as nat),
{
    let line: String = join(&words_of(text), " ");
    let n: usize = line.as_str().unicode_len();
    if n <= width {
        return line;
    }
    let keep: usize = if width > 0 {
        width - 1
    } else {
        0
    };
    assert(line@.subrange(0, keep as int) =~= line@.take(keep as int));
    cat2(&trim_end(line.as_str().substring_char(0, keep)), "…")
}

/// A text on one line: words with one blank between them, and no other white space.
pub open spec fn tidy(s: Seq<char>) -> bool {
    forall|i: int|
        0 <= i < s.len() && is_white(#[trigger] s[i]) ==> s[i] == ' ' && 0 < i < s.len() - 1
            && !is_white(s[i + 1])
}

/// A cell is one line, and no wider than it was asked to be. It says all there is where
/// that fits, and ends in an ellipsis where it does not, which is all of it where there is
/// no width. Cutting it again changes nothing.
pub proof fn a_cell_fits(text: Seq<char>, width: nat)
    ensures
        tidy(cut(text, width)),
        width > 0 ==> cut(text, width).len() <= width,
        joined(words(text), " "@).len() <= width ==> cut(text, width) == joined(words(text), " "@),
        joined(words(text), " "@).len() > width ==> cut(text, width).last() == '…',
        width == 0 && words(text).len() > 0 ==> cut(text, width) == "…"@,
        cut(cut(text, width), width) == cut(text, width),
{
    reveal_strlit("…");
    reveal_strlit(" ");
    let line = joined(words(text), " "@);
    words_are_clean(text);
    joined_words_are_tidy(words(text));
    if line.len() > width {
        let kept = line.take(
            if width > 0 {
                width - 1
            } else {
                0
            },
        );
        trimming_ends_in_a_word(kept);
        let c = cut(text, width);
        assert(c == trimmed_end(kept) + "…"@);
        assert forall|i: int| 0 <= i < c.len() && is_white(#[trigger] c[i]) implies c[i] == ' ' && 0
            < i < c.len() - 1 && !is_white(c[i + 1]) by {
            assert(c[i] == line[i]);
            if i + 1 < c.len() - 1 {
                assert(c[i + 1] == line[i + 1]);
            }
        }
        tidy_is_its_words(c);
        if width == 0 {
            assert(c =~= "…"@);
            assert(c.take(0) =~= Seq::empty());
        }
    } else {
        tidy_is_its_words(line);
    }
}

/// Words are not empty and have no white space in them.
spec fn are_clean(words: Seq<Seq<char>>) -> bool {
    forall|i: int|
        0 <= i < words.len() ==> (#[trigger] words[i]).len() > 0 && forall|j: int|
            0 <= j < words[i].len() ==> !is_white(#[trigger] words[i][j])
}

proof fn words_are_clean(s: Seq<char>)
    ensures
        are_clean(words(s)),
        s.len() > 0 && !is_white(s.last()) ==> words(s).len() > 0,
    decreases s.len(),
{
    if s.len() > 0 {
        words_are_clean(s.drop_last());
    }
}

proof fn joined_words_are_tidy(ws: Seq<Seq<char>>)
    requires
        are_clean(ws),
    ensures
        tidy(joined(ws, " "@)),
        ws.len() > 0 ==> joined(ws, " "@).len() > 0 && !is_white(joined(ws, " "@)[0]) && !is_white(
            joined(ws, " "@).last(),
        ),
    decreases ws.len(),
{
    reveal_strlit(" ");
    if ws.len() == 1 {
        assert(ws[0].len() > 0);
    } else if ws.len() > 1 {
        let front = ws.drop_last();
        assert(are_clean(front)) by {
            assert(forall|i: int| 0 <= i < front.len() ==> front[i] == #[trigger] ws[i]);
        }
        joined_words_are_tidy(front);
        let f = joined(front, " "@);
        let last = ws[ws.len() - 1];
        let s = joined(ws, " "@);
        assert(last.len() > 0);
        assert(s == f + " "@ + last);
        assert forall|i: int| 0 <= i < s.len() && is_white(#[trigger] s[i]) implies s[i] == ' ' && 0
            < i < s.len() - 1 && !is_white(s[i + 1]) by {
            if i < f.len() {
                assert(s[i] == f[i]);
                assert(s[i + 1] == f[i + 1]);
            } else if i == f.len() {
                assert(s[i + 1] == last[0]);
            } else {
                assert(s[i] == last[i - f.len() - 1]);
            }
        }
        assert(s[0] == f[0]);
        assert(s.last() == last[last.len() - 1]);
    }
}

/// A tidy text is what its words make, joined.
proof fn tidy_is_its_words(s: Seq<char>)
    requires
        tidy(s),
    ensures
        joined(words(s), " "@) == s,
    decreases s.len(),
{
    reveal_strlit(" ");
    if s.len() > 0 {
        let n = s.len() as int;
        let c = s[n - 1];
        let t = s.drop_last();
        assert(!is_white(c));
        assert(forall|i: int| 0 <= i < t.len() ==> t[i] == #[trigger] s[i]);
        if n == 1 {
            assert(words(t) =~= Seq::empty());
            assert(words(s) =~= seq![seq![c]]);
            assert(s =~= seq![c]);
        } else if !is_white(s[n - 2]) {
            assert(tidy(t));
            tidy_is_its_words(t);
            words_are_clean(t);
            let front = words(t);
            assert(words(s) == front.drop_last().push(front.last().push(c)));
            assert(words(s).drop_last() =~= front.drop_last());
            assert(joined(words(s), " "@) =~= joined(front, " "@).push(c));
            assert(s =~= t.push(c));
        } else {
            let u = t.drop_last();
            assert(s[n - 2] == ' ');
            assert(forall|i: int| 0 <= i < u.len() ==> u[i] == #[trigger] s[i]);
            assert(!is_white(s[n - 3])) by {
                if is_white(s[n - 3]) {
                    assert(!is_white(s[n - 3 + 1]));
                }
            }
            assert(tidy(u));
            tidy_is_its_words(u);
            words_are_clean(u);
            assert(words(t) == words(u));
            assert(words(s) == words(u).push(seq![c]));
            assert(words(s).drop_last() =~= words(u));
            assert(s =~= u + " "@ + seq![c]);
        }
    }
}

proof fn trimming_ends_in_a_word(s: Seq<char>)
    ensures
        trimmed_end(s).len() <= s.len(),
        trimmed_end(s) == s.take(trimmed_end(s).len() as int),
        trimmed_end(s).len() > 0 ==> !is_white(trimmed_end(s).last()),
    decreases s.len(),
{
    if s.len() > 0 && is_white(s.last()) {
        trimming_ends_in_a_word(s.drop_last());
    }
    assert(trimmed_end(s) =~= s.take(trimmed_end(s).len() as int));
}

// ---------------------------------------------------------------------------
// Lines
// ---------------------------------------------------------------------------

/// One more line at the end.
pub fn add_line(lines: &mut Vec<String>, line: String)
    ensures
        final(lines).deep_view() == old(lines).deep_view().push(line@),
{
    broadcast use push_deep;

    let ghost prev = *lines;
    lines.push(line);
    assert(lines.deep_view() =~= prev.deep_view().push(line@));
}

/// More lines at the end.
pub fn add_lines(lines: &mut Vec<String>, more: Vec<String>)
    ensures
        final(lines).deep_view() == old(lines).deep_view() + more.deep_view(),
{
    let ghost a = lines.deep_view();
    let ghost b = more.deep_view();
    let mut rest = more;
    lines.append(&mut rest);
    assert(lines.deep_view() =~= a + b);
}

/// The length of the longest of some texts.
pub open spec fn widest(texts: Seq<Seq<char>>) -> nat
    decreases texts.len(),
{
    if texts.len() == 0 {
        0
    } else {
        let front = widest(texts.drop_last());
        if texts.last().len() > front {
            texts.last().len()
        } else {
            front
        }
    }
}

pub fn width_of(texts: &Vec<String>) -> (r: usize)
    ensures
        r == widest(texts.deep_view()),
{
    let ghost all = texts.deep_view();
    let mut w: usize = 0;
    for i in 0..texts.len()
        invariant
            all == texts.deep_view(),
            w == widest(all.take(i as int)),
    {
        proof {
            assert(all.take(i as int + 1).drop_last() =~= all.take(i as int));
            assert(all.take(i as int + 1).last() == texts@[i as int]@);
        }
        let n: usize = texts[i].as_str().unicode_len();
        if n > w {
            w = n;
        }
    }
    assert(all.take(all.len() as int) =~= all);
    w
}

/// What stands for an absent text in a cell.
pub open spec fn or_dash(o: Option<Seq<char>>) -> Seq<char> {
    match o {
        Some(s) => s,
        None => "-"@,
    }
}

pub fn dash(o: &Option<String>) -> (r: String)
    ensures
        r@ == or_dash(o.deep_view()),
{
    match o {
        Some(s) => copy(s),
        None => copy("-"),
    }
}

// ---------------------------------------------------------------------------
// Which task, which repo
// ---------------------------------------------------------------------------

/// Which task a command is about: the one that is named, else the one the environment
/// names, else the one whose pane this is.
pub open spec fn meant(
    given: Option<Seq<char>>,
    in_env: Option<Seq<char>>,
    in_pane: Option<Seq<char>>,
) -> Option<Seq<char>> {
    match given {
        Some(id) => Some(id),
        None => match named(in_env) {
            Some(id) => Some(id),
            None => in_pane,
        },
    }
}

/// Which task a command is about, by `--task`, `$SHEP_TASK_ID` and the task bound to
/// `$HERDR_PANE_ID`.
pub fn task_id(given: &Option<String>, in_env: &Option<String>, in_pane: &Option<String>) -> (r:
    Result<String, Error>)
    ensures
        match meant(given.deep_view(), in_env.deep_view(), in_pane.deep_view()) {
            Some(id) => r matches Ok(found) && found@ == id,
            None => r matches Err(e) && e@ == ErrorModel::Other(
                "which task? say --task, or run this where $SHEP_TASK_ID or $HERDR_PANE_ID does"@,
            ),
        },
{
    if let Some(id) = given {
        return Ok(copy(id));
    }
    if let Some(id) = env_path(in_env) {
        return Ok(id);
    }
    match in_pane {
        Some(id) => Ok(copy(id)),
        None => Err(
            Error::Other(
                copy(
                    "which task? say --task, or run this where $SHEP_TASK_ID or $HERDR_PANE_ID does",
                ),
            ),
        ),
    }
}

/// The root of the repo one is in: what `git rev-parse --show-toplevel` printed where it
/// succeeded and said something, else the current directory. Config lives per repo root,
/// so that is what a task records.
pub fn repo_root(toplevel: &Option<String>, current: &str) -> (r: String)
    ensures
        r@ == (match toplevel {
            Some(printed) => if trimmed(printed@).len() > 0 {
                trimmed(printed@)
            } else {
                current@
            },
            None => current@,
        }),
{
    if let Some(printed) = toplevel {
        let root: String = trim(printed);
        if !root.as_str().is_empty() {
            return root;
        }
    }
    copy(current)
}

/// How long ago something was is told in the largest unit that it fills, and in whole ones.
pub proof fn time_is_told_in_whole_units(n: int, more: int)
    ensures
        n <= 1 ==> ago_text(n) == "just now"@,
        1 < n < 60 ==> ago_text(n) == int_text(n) + "s ago"@,
        1 <= n < 60 && 0 <= more < 60 ==> ago_text(60 * n + more) == int_text(n) + "m ago"@,
        1 <= n < 24 && 0 <= more < 3600 ==> ago_text(3600 * n + more) == int_text(n) + "h ago"@,
        1 <= n && 0 <= more < 86400 ==> ago_text(86400 * n + more) == int_text(n) + "d ago"@,
{
    if 1 <= n && 0 <= more < 60 {
        assert((60 * n + more) / 60 == n);
    }
    if 1 <= n && 0 <= more < 3600 {
        assert((3600 * n + more) / 3600 == n);
    }
    if 1 <= n && 0 <= more < 86400 {
        assert((86400 * n + more) / 86400 == n);
    }
}

/// A task that is named is the one that is meant; else the one the environment names, where
/// it names one; else the one whose pane this is.
pub proof fn the_nearest_name_is_meant(
    given: Option<Seq<char>>,
    in_env: Option<Seq<char>>,
    in_pane: Option<Seq<char>>,
)
    ensures
        given is Some ==> meant(given, in_env, in_pane) == given,
        given is None && in_env is Some && in_env->0.len() > 0 ==> meant(given, in_env, in_pane)
            == in_env,
        given is None && (in_env is None || in_env->0.len() == 0) ==> meant(given, in_env, in_pane)
            == in_pane,
{
}

/// A column is as wide as its widest text, and no wider.
pub proof fn a_column_is_as_wide_as_it_must_be(texts: Seq<Seq<char>>)
    ensures
        forall|i: int| 0 <= i < texts.len() ==> (#[trigger] texts[i]).len() <= widest(texts),
        texts.len() > 0 ==> exists|i: int|
            0 <= i < texts.len() && (#[trigger] texts[i]).len() == widest(texts),
        texts.len() == 0 ==> widest(texts) == 0,
    decreases texts.len(),
{
    if texts.len() > 0 {
        let front = texts.drop_last();
        a_column_is_as_wide_as_it_must_be(front);
        let last = texts.len() - 1;
        assert(texts[last] == texts.last());
        assert(forall|i: int| 0 <= i < front.len() ==> front[i] == #[trigger] texts[i]);
        if texts.last().len() <= widest(front) {
            if front.len() > 0 {
                let i = choose|i: int|
                    0 <= i < front.len() && (#[trigger] front[i]).len() == widest(front);
                assert(texts[i].len() == widest(texts));
            } else {
                assert(texts[last].len() == widest(texts));
            }
        }
    }
}

/// The words of a text are what stands between its gaps: a word behind a gap, or at the
/// beginning, is one more, and gaps are none.
pub proof fn words_stand_between_gaps(s: Seq<char>, word: Seq<char>, gap: char)
    requires
        s.len() > 0 ==> is_gap(s.last()),
        forall|i: int| 0 <= i < word.len() ==> is_ink(#[trigger] word[i]),
        is_gap(gap),
    ensures
        words(Seq::empty()).len() == 0,
        word.len() > 0 ==> words(s + word) == words(s).push(word),
        words((s + word).push(gap)) == words(s + word),
    decreases word.len(),
{
    assert((s + word).push(gap).drop_last() =~= s + word);
    if word.len() > 0 {
        let front = word.drop_last();
        let all = s + word;
        assert(all.drop_last() =~= s + front);
        assert(is_ink(word[word.len() - 1]));
        assert(all.last() == word.last());
        assert forall|i: int| 0 <= i < front.len() implies is_ink(#[trigger] front[i]) by {
            assert(front[i] == word[i]);
        }
        words_stand_between_gaps(s, front, gap);
        if front.len() > 0 {
            assert(is_ink(word[word.len() - 2]));
            assert(all[all.len() - 2] == word[word.len() - 2]);
            assert(words(s).push(front).drop_last() =~= words(s));
            assert(front.push(word.last()) =~= word);
        } else {
            assert(s + front =~= s);
            if s.len() > 0 {
                assert(all[all.len() - 2] == s.last());
            }
            assert(seq![word.last()] =~= word);
        }
    }
}

} // verus!
