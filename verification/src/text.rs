//! Text: the string functions everything else is stated with.
//!
//! A `String` is modelled by its sequence of characters.

use crate::table::{
    first_index, first_index_absent, first_index_exists, first_index_found, first_index_is_first,
};
use vstd::prelude::*;
use vstd::string::*;

verus! {

// ---------------------------------------------------------------------------
// Characters and equality
// ---------------------------------------------------------------------------

/// The characters of a text, in order.
pub fn chars_of(s: &str) -> (r: Vec<char>)
    ensures
        r@ == s@,
{
    let mut out: Vec<char> = Vec::new();
    for c in it: s.chars()
        invariant
            it.seq() == s@,
            out@ == s@.take(it.index()),
    {
        out.push(c);
    }
    out
}

/// Do two texts hold the same characters?
pub fn same(a: &str, b: &str) -> (r: bool)
    ensures
        r == (a@ == b@),
{
    a.to_owned() == b.to_owned()
}

/// A copy of a text.
pub fn copy(s: &str) -> (r: String)
    ensures
        r@ == s@,
{
    s.to_owned()
}

/// Is an optional text present, and the given one?
pub fn is_text(o: &Option<String>, s: &str) -> (r: bool)
    ensures
        r == (o.deep_view() == Some(s@)),
{
    match o {
        Some(t) => same(t, s),
        None => false,
    }
}

/// A copy of an optional text.
pub fn copy_opt(o: &Option<String>) -> (r: Option<String>)
    ensures
        r.deep_view() == o.deep_view(),
{
    match o {
        Some(t) => Some(copy(t)),
        None => None,
    }
}

/// Pushing on a vector pushes on its model.
pub broadcast proof fn push_deep<T: DeepView>(before: Vec<T>, after: Vec<T>, x: T)
    requires
        after@ == before@.push(x),
    ensures
        #![trigger before@.push(x), before.deep_view(), after.deep_view()]
        after.deep_view() == before.deep_view().push(x.deep_view()),
{
    assert(after.deep_view() =~= before.deep_view().push(x.deep_view()));
}

/// A copy of a list of texts.
pub fn copy_list(items: &Vec<String>) -> (r: Vec<String>)
    ensures
        r.deep_view() == items.deep_view(),
{
    broadcast use push_deep;

    let mut out: Vec<String> = Vec::new();
    for i in 0..items.len()
        invariant
            out.deep_view() == items.deep_view().take(i as int),
    {
        let ghost prev = out;
        out.push(copy(&items[i]));
        assert(prev.deep_view().push(items.deep_view()[i as int]) =~= items.deep_view().take(
            i as int + 1,
        ));
    }
    assert(items.deep_view().take(items.len() as int) =~= items.deep_view());
    out
}

/// The names of a list that are a given one.
pub open spec fn is_name(name: Seq<char>) -> spec_fn(Seq<char>) -> bool {
    |s: Seq<char>| s == name
}

/// The first place of a name in a list.
pub fn place_of(items: &Vec<String>, name: &str) -> (r: Option<usize>)
    ensures
        match r {
            Some(i) => i < items.len() && first_index(items.deep_view(), is_name(name@)) == Some(
                i as int,
            ),
            None => first_index(items.deep_view(), is_name(name@)) is None,
        },
{
    let ghost all = items.deep_view();
    let ghost p = is_name(name@);
    for i in 0..items.len()
        invariant
            all == items.deep_view(),
            p == is_name(name@),
            forall|j: int| 0 <= j < i ==> !p(#[trigger] all[j]),
    {
        if same(&items[i], name) {
            proof {
                first_index_found(all, p, i as int);
            }
            return Some(i);
        }
    }
    proof {
        first_index_absent(all, p);
    }
    None
}

/// Does a list hold a name?
pub fn holds(items: &Vec<String>, name: &str) -> (r: bool)
    ensures
        r == items.deep_view().contains(name@),
{
    let ghost all = items.deep_view();
    match place_of(items, name) {
        Some(i) => {
            proof {
                first_index_is_first(all, is_name(name@));
                assert(all[i as int] == name@);
            }
            true
        },
        None => {
            proof {
                if all.contains(name@) {
                    let k = all.index_of(name@);
                    first_index_exists(all, is_name(name@), k);
                }
            }
            false
        },
    }
}

// ---------------------------------------------------------------------------
// Concatenation
// ---------------------------------------------------------------------------

pub fn cat2(a: &str, b: &str) -> (r: String)
    ensures
        r@ == a@ + b@,
{
    a.to_owned().concat(b)
}

pub fn cat3(a: &str, b: &str, c: &str) -> (r: String)
    ensures
        r@ == a@ + b@ + c@,
{
    cat2(a, b).concat(c)
}

pub fn cat4(a: &str, b: &str, c: &str, d: &str) -> (r: String)
    ensures
        r@ == a@ + b@ + c@ + d@,
{
    cat3(a, b, c).concat(d)
}

pub fn cat5(a: &str, b: &str, c: &str, d: &str, e: &str) -> (r: String)
    ensures
        r@ == a@ + b@ + c@ + d@ + e@,
{
    cat4(a, b, c, d).concat(e)
}

pub fn cat6(a: &str, b: &str, c: &str, d: &str, e: &str, f: &str) -> (r: String)
    ensures
        r@ == a@ + b@ + c@ + d@ + e@ + f@,
{
    cat5(a, b, c, d, e).concat(f)
}

pub fn cat7(a: &str, b: &str, c: &str, d: &str, e: &str, f: &str, g: &str) -> (r: String)
    ensures
        r@ == a@ + b@ + c@ + d@ + e@ + f@ + g@,
{
    cat6(a, b, c, d, e, f).concat(g)
}

/// The items of a list with a separator between them.
pub open spec fn joined(items: Seq<Seq<char>>, sep: Seq<char>) -> Seq<char>
    decreases items.len(),
{
    if items.len() == 0 {
        Seq::empty()
    } else if items.len() == 1 {
        items[0]
    } else {
        joined(items.drop_last(), sep) + sep + items.last()
    }
}

pub fn join(items: &Vec<String>, sep: &str) -> (r: String)
    ensures
        r@ == joined(items.deep_view(), sep@),
{
    let mut out: String = String::new();
    for i in 0..items.len()
        invariant
            out@ == joined(items.deep_view().take(i as int), sep@),
    {
        let ghost all = items.deep_view();
        proof {
            assert(all.take(i as int + 1).drop_last() =~= all.take(i as int));
            assert(all.take(i as int + 1).last() == all[i as int]);
        }
        if i > 0 {
            out.append(sep);
        }
        out.append(&items[i]);
        proof {
            if i == 0 {
                assert(out@ =~= all[0]);
            }
        }
    }
    assert(items.deep_view().take(items.len() as int) =~= items.deep_view());
    out
}

/// `items joined by ", "`, or the word `none`.
pub open spec fn listed(items: Seq<Seq<char>>) -> Seq<char> {
    if items.len() == 0 {
        "none"@
    } else {
        joined(items, ", "@)
    }
}

pub fn list(items: &Vec<String>) -> (r: String)
    ensures
        r@ == listed(items.deep_view()),
{
    if items.len() == 0 {
        copy("none")
    } else {
        join(items, ", ")
    }
}

// ---------------------------------------------------------------------------
// Quotation
// ---------------------------------------------------------------------------

/// What Rust's `{:?}` writes for a text: in double quotes, with the characters
/// that need it escaped.
pub uninterp spec fn quoted(s: Seq<char>) -> Seq<char>;

/// Calls the `Debug` formatting of `str` in the standard library. The contract
/// says only that what is written depends on the text alone; which characters
/// are escaped, and how, is left to the standard library.
#[verifier::external_body]
pub(crate) fn quote(s: &str) -> (r: String)
    ensures
        r@ == quoted(s@),
{
    format!("{:?}", s)
}

// ---------------------------------------------------------------------------
// Decimal numbers
// ---------------------------------------------------------------------------

pub open spec fn digit_text(d: int) -> Seq<char> {
    if d == 0 {
        "0"@
    } else if d == 1 {
        "1"@
    } else if d == 2 {
        "2"@
    } else if d == 3 {
        "3"@
    } else if d == 4 {
        "4"@
    } else if d == 5 {
        "5"@
    } else if d == 6 {
        "6"@
    } else if d == 7 {
        "7"@
    } else if d == 8 {
        "8"@
    } else {
        "9"@
    }
}

/// A natural number in decimal, without leading zeros.
pub open spec fn nat_text(n: nat) -> Seq<char>
    decreases n,
{
    if n < 10 {
        digit_text(n as int)
    } else {
        nat_text(n / 10) + digit_text((n % 10) as int)
    }
}

/// An integer in decimal.
pub open spec fn int_text(n: int) -> Seq<char> {
    if n < 0 {
        "-"@ + nat_text((-n) as nat)
    } else {
        nat_text(n as nat)
    }
}

fn digit(d: u64) -> (r: &'static str)
    requires
        d < 10,
    ensures
        r@ == digit_text(d as int),
{
    if d == 0 {
        "0"
    } else if d == 1 {
        "1"
    } else if d == 2 {
        "2"
    } else if d == 3 {
        "3"
    } else if d == 4 {
        "4"
    } else if d == 5 {
        "5"
    } else if d == 6 {
        "6"
    } else if d == 7 {
        "7"
    } else if d == 8 {
        "8"
    } else {
        "9"
    }
}

pub fn natural(n: u64) -> (r: String)
    ensures
        r@ == nat_text(n as nat),
    decreases n,
{
    if n < 10 {
        copy(digit(n))
    } else {
        natural(n / 10).concat(digit(n % 10))
    }
}

pub fn integer(n: i64) -> (r: String)
    ensures
        r@ == int_text(n as int),
{
    if n < 0 {
        let m: u64 = if n == i64::MIN {
            9223372036854775808
        } else {
            (-n) as u64
        };
        cat2("-", &natural(m))
    } else {
        natural(n as u64)
    }
}

pub open spec fn is_digit(c: char) -> bool {
    '0' as int <= c as int <= '9' as int
}

/// The number that decimal digits write.
pub open spec fn digits_value(s: Seq<char>) -> int
    decreases s.len(),
{
    if s.len() == 0 {
        0
    } else {
        digits_value(s.drop_last()) * 10 + (s.last() as int - '0' as int)
    }
}

pub fn digit_of(c: char) -> (r: Option<i64>)
    ensures
        r is Some == is_digit(c),
        r is Some ==> r->0 == c as int - '0' as int && 0 <= r->0 <= 9,
{
    let n: u32 = c as u32;
    if 48 <= n && n <= 57 {
        Some((n - 48) as i64)
    } else {
        None
    }
}

/// A text of decimal digits, at least one.
pub open spec fn all_digits(s: Seq<char>) -> bool {
    s.len() > 0 && forall|i: int| 0 <= i < s.len() ==> is_digit(#[trigger] s[i])
}

/// The integer that a text writes in decimal: digits, with a sign before them or
/// without.
pub open spec fn integer_of(s: Seq<char>) -> Option<int> {
    if s.len() > 0 && (s[0] == '-' || s[0] == '+') {
        if all_digits(s.skip(1)) {
            Some(
                if s[0] == '-' {
                    -digits_value(s.skip(1))
                } else {
                    digits_value(s.skip(1))
                },
            )
        } else {
            None
        }
    } else if all_digits(s) {
        Some(digits_value(s))
    } else {
        None
    }
}

proof fn digits_value_grows(s: Seq<char>, n: int)
    requires
        0 <= n <= s.len(),
        forall|i: int| 0 <= i < s.len() ==> is_digit(#[trigger] s[i]),
    ensures
        0 <= digits_value(s.take(n)) <= digits_value(s),
    decreases s.len() - n,
{
    digits_value_is_natural(s.take(n));
    if n < s.len() {
        assert(s.take(n + 1).drop_last() =~= s.take(n));
        assert(is_digit(s[n]));
        digits_value_grows(s, n + 1);
    } else {
        assert(s.take(n) =~= s);
    }
}

proof fn digits_value_is_natural(s: Seq<char>)
    requires
        forall|i: int| 0 <= i < s.len() ==> is_digit(#[trigger] s[i]),
    ensures
        0 <= digits_value(s),
    decreases s.len(),
{
    if s.len() > 0 {
        assert(is_digit(s[s.len() - 1]));
        assert forall|i: int| 0 <= i < s.drop_last().len() implies is_digit(
            #[trigger] s.drop_last()[i],
        ) by {
            assert(is_digit(s[i]));
        }
        digits_value_is_natural(s.drop_last());
    }
}

/// The integer that a text writes in decimal, where there is one and it fits.
pub fn parse_integer(s: &str) -> (r: Option<i64>)
    ensures
        match integer_of(s@) {
            Some(n) => if i64::MIN <= n <= i64::MAX {
                r == Some(n as i64)
            } else {
                r is None
            },
            None => r is None,
        },
{
    let cs: Vec<char> = chars_of(s);
    let signed: bool = cs.len() > 0 && (cs[0] == '-' || cs[0] == '+');
    let minus: bool = cs.len() > 0 && cs[0] == '-';
    let start: usize = if signed {
        1
    } else {
        0
    };
    let ghost digits = if signed {
        s@.skip(1)
    } else {
        s@
    };
    if cs.len() == start {
        return None;
    }
    let mut n: i128 = 0;
    let mut i: usize = start;
    assert(digits.take(0) =~= Seq::empty());
    while i < cs.len()
        invariant
            start <= i <= cs.len(),
            start <= 1,
            cs@ == s@,
            digits == (if signed {
                s@.skip(1)
            } else {
                s@
            }),
            signed == (s@.len() > 0 && (s@[0] == '-' || s@[0] == '+')),
            minus == (s@.len() > 0 && s@[0] == '-'),
            start == (if signed {
                1int
            } else {
                0int
            }),
            digits.len() == cs.len() - start,
            forall|k: int| 0 <= k < i - start ==> is_digit(#[trigger] digits[k]),
            n == digits_value(digits.take(i - start)),
            0 <= n <= 9223372036854775808,
        decreases cs.len() - i,
    {
        let ghost k = i - start;
        assert(digits[k] == cs@[i as int]);
        match digit_of(cs[i]) {
            Some(d) => {
                n = n * 10 + d as i128;
                proof {
                    assert(digits.take(k + 1).drop_last() =~= digits.take(k));
                    assert(n == digits_value(digits.take(k + 1)));
                }
                if n > 9223372036854775808 {
                    proof {
                        if all_digits(digits) {
                            digits_value_grows(digits, k + 1);
                        }
                    }
                    return None;
                }
            },
            None => {
                assert(!is_digit(digits[k]));
                return None;
            },
        }
        i = i + 1;
    }
    assert(digits.take(digits.len() as int) =~= digits);
    assert(all_digits(digits));
    if minus {
        Some((-n) as i64)
    } else if n <= 9223372036854775807 {
        Some(n as i64)
    } else {
        None
    }
}

proof fn digit_reads_back(d: int)
    requires
        0 <= d <= 9,
    ensures
        digit_text(d).len() == 1,
        is_digit(digit_text(d)[0]),
        digit_text(d)[0] as int - '0' as int == d,
{
    reveal_strlit("0");
    reveal_strlit("1");
    reveal_strlit("2");
    reveal_strlit("3");
    reveal_strlit("4");
    reveal_strlit("5");
    reveal_strlit("6");
    reveal_strlit("7");
    reveal_strlit("8");
    reveal_strlit("9");
}

proof fn natural_reads_back(n: nat)
    ensures
        all_digits(nat_text(n)),
        digits_value(nat_text(n)) == n,
    decreases n,
{
    if n < 10 {
        digit_reads_back(n as int);
        let t = nat_text(n);
        assert(t.drop_last() =~= Seq::empty());
        reveal_with_fuel(digits_value, 2);
    } else {
        natural_reads_back(n / 10);
        digit_reads_back((n % 10) as int);
        let front = nat_text(n / 10);
        let last = digit_text((n % 10) as int);
        let t = front + last;
        assert(t.drop_last() =~= front);
        assert(t.last() == last[0]);
        assert forall|i: int| 0 <= i < t.len() implies is_digit(#[trigger] t[i]) by {
            if i < front.len() {
                assert(t[i] == front[i]);
            }
        }
    }
}

/// What a number is written as is read back as that number.
pub proof fn integer_reads_back(n: int)
    ensures
        integer_of(int_text(n)) == Some(n),
{
    if n < 0 {
        reveal_strlit("-");
        natural_reads_back((-n) as nat);
        assert(int_text(n).skip(1) =~= nat_text((-n) as nat));
        assert(int_text(n)[0] == '-');
    } else {
        natural_reads_back(n as nat);
        assert(is_digit(nat_text(n as nat)[0]));
    }
}

/// A number begins with ink.
pub proof fn a_number_is_ink(n: int)
    ensures
        int_text(n).len() > 0,
        is_ink(int_text(n)[0]),
{
    if n < 0 {
        reveal_strlit("-");
    } else {
        integer_reads_back(n);
        natural_reads_back(n as nat);
        digits_are_there(n as nat);
        assert(is_digit(nat_text(n as nat)[0]));
    }
}

proof fn digits_are_there(n: nat)
    ensures
        nat_text(n).len() > 0,
    decreases n,
{
    if n < 10 {
        digit_reads_back(n as int);
    } else {
        digits_are_there(n / 10);
    }
}

// ---------------------------------------------------------------------------
// White space
// ---------------------------------------------------------------------------

/// The characters Unicode calls white space.
pub open spec fn is_white(c: char) -> bool {
    let n = c as u32;
    ||| 9 <= n <= 13
    ||| n == 32
    ||| n == 0x85
    ||| n == 0xA0
    ||| n == 0x1680
    ||| 0x2000 <= n <= 0x200A
    ||| n == 0x2028
    ||| n == 0x2029
    ||| n == 0x202F
    ||| n == 0x205F
    ||| n == 0x3000
}

pub fn white(c: char) -> (r: bool)
    ensures
        r == is_white(c),
{
    let n: u32 = c as u32;
    (9 <= n && n <= 13) || n == 32 || n == 0x85 || n == 0xA0 || n == 0x1680 || (0x2000 <= n && n
        <= 0x200A) || n == 0x2028 || n == 0x2029 || n == 0x202F || n == 0x205F || n == 0x3000
}

/// A text without the white space at its beginning.
pub open spec fn trimmed_start(s: Seq<char>) -> Seq<char>
    decreases s.len(),
{
    if s.len() > 0 && is_white(s[0]) {
        trimmed_start(s.skip(1))
    } else {
        s
    }
}

/// A text without the white space at its end.
pub open spec fn trimmed_end(s: Seq<char>) -> Seq<char>
    decreases s.len(),
{
    if s.len() > 0 && is_white(s.last()) {
        trimmed_end(s.drop_last())
    } else {
        s
    }
}

/// A text without the white space around it.
pub open spec fn trimmed(s: Seq<char>) -> Seq<char> {
    trimmed_end(trimmed_start(s))
}

/// A text of nothing but white space.
pub open spec fn is_blank(s: Seq<char>) -> bool {
    trimmed(s).len() == 0
}

/// A blank, a tab or the end of a line.
pub open spec fn is_gap(c: char) -> bool {
    c == ' ' || c == '\t' || c == '\n' || c == '\r'
}

/// A character that leaves ink, of those that every keyboard has.
pub open spec fn is_ink(c: char) -> bool {
    33 <= c as u32 <= 126
}

/// A text of nothing but gaps.
pub open spec fn is_gaps(s: Seq<char>) -> bool {
    forall|i: int| 0 <= i < s.len() ==> is_gap(#[trigger] s[i])
}

/// What stands before the first ink goes.
pub proof fn gaps_before_go(gaps: Seq<char>, s: Seq<char>)
    requires
        is_gaps(gaps),
        s.len() > 0 ==> is_ink(s[0]),
    ensures
        trimmed_start(gaps + s) == s,
    decreases gaps.len(),
{
    let all = gaps + s;
    if gaps.len() == 0 {
        assert(all =~= s);
    } else {
        assert(is_gap(gaps[0]));
        assert(all[0] == gaps[0]);
        assert(all.skip(1) =~= gaps.skip(1) + s);
        gaps_before_go(gaps.skip(1), s);
    }
}

/// What stands behind the last ink goes.
pub proof fn gaps_behind_go(s: Seq<char>, gaps: Seq<char>)
    requires
        is_gaps(gaps),
        s.len() > 0 ==> is_ink(s.last()),
    ensures
        trimmed_end(s + gaps) == s,
    decreases gaps.len(),
{
    let all = s + gaps;
    if gaps.len() == 0 {
        assert(all =~= s);
    } else {
        let last = gaps.len() - 1;
        assert(is_gap(gaps[last]));
        assert(all.last() == gaps[last]);
        assert(all.drop_last() =~= s + gaps.drop_last());
        gaps_behind_go(s, gaps.drop_last());
    }
}

/// Trimming takes the gaps around a text that begins and ends with ink, and nothing of the
/// text.
pub proof fn trimming_takes_the_gaps(front: Seq<char>, s: Seq<char>, behind: Seq<char>)
    requires
        is_gaps(front),
        is_gaps(behind),
        s.len() > 0 ==> is_ink(s[0]) && is_ink(s.last()),
    ensures
        trimmed(front + s + behind) == s,
        is_blank(front + s + behind) <==> s.len() == 0,
{
    if s.len() > 0 {
        assert(front + s + behind =~= front + (s + behind));
        gaps_before_go(front, s + behind);
        gaps_behind_go(s, behind);
    } else {
        let gaps = front + s + behind;
        assert forall|i: int| 0 <= i < gaps.len() implies is_gap(#[trigger] gaps[i]) by {
            if i < front.len() {
                assert(gaps[i] == front[i]);
            } else {
                assert(gaps[i] == behind[i - front.len()]);
            }
        }
        assert(gaps + s =~= gaps);
        gaps_before_go(gaps, s);
        assert(s =~= Seq::empty());
    }
}

/// A text with ink in it is not blank.
pub proof fn ink_is_not_blank(front: Seq<char>, s: Seq<char>)
    requires
        is_gaps(front),
        s.len() > 0 && is_ink(s[0]),
    ensures
        !is_blank(front + s),
{
    gaps_before_go(front, s);
    ink_stays(s);
}

proof fn ink_stays(s: Seq<char>)
    requires
        s.len() > 0 && is_ink(s[0]),
    ensures
        trimmed_end(s).len() > 0,
    decreases s.len(),
{
    if is_white(s.last()) {
        assert(s.len() > 1);
        assert(s.drop_last()[0] == s[0]);
        ink_stays(s.drop_last());
    }
}

pub fn trim_start(s: &str) -> (r: String)
    ensures
        r@ == trimmed_start(s@),
{
    let cs: Vec<char> = chars_of(s);
    let n: usize = cs.len();
    let mut from: usize = 0;
    assert(s@.skip(0) =~= s@);
    while from < n && white(cs[from])
        invariant
            from <= n,
            n == cs.len(),
            cs@ == s@,
            trimmed_start(s@.skip(from as int)) == trimmed_start(s@),
        decreases n - from,
    {
        assert(s@.skip(from as int).skip(1) =~= s@.skip(from as int + 1));
        from = from + 1;
    }
    assert(s@.subrange(from as int, n as int) =~= s@.skip(from as int));
    s.substring_char(from, n).to_owned()
}

pub fn trim_end(s: &str) -> (r: String)
    ensures
        r@ == trimmed_end(s@),
{
    let cs: Vec<char> = chars_of(s);
    let mut to: usize = cs.len();
    assert(s@.take(to as int) =~= s@);
    while to > 0 && white(cs[to - 1])
        invariant
            to <= cs.len(),
            cs@ == s@,
            trimmed_end(s@.take(to as int)) == trimmed_end(s@),
        decreases to,
    {
        assert(s@.take(to as int).drop_last() =~= s@.take(to as int - 1));
        to = to - 1;
    }
    assert(s@.subrange(0, to as int) =~= s@.take(to as int));
    s.substring_char(0, to).to_owned()
}

pub fn trim(s: &str) -> (r: String)
    ensures
        r@ == trimmed(s@),
{
    let t: String = trim_start(s);
    trim_end(&t)
}

pub fn blank(s: &str) -> (r: bool)
    ensures
        r == is_blank(s@),
{
    trim(s).as_str().is_empty()
}

// ---------------------------------------------------------------------------
// Columns
// ---------------------------------------------------------------------------

/// A run of blanks.
pub open spec fn blanks(n: nat) -> Seq<char>
    decreases n,
{
    if n == 0 {
        Seq::empty()
    } else {
        blanks((n - 1) as nat) + " "@
    }
}

fn blank_run(n: usize) -> (r: String)
    ensures
        r@ == blanks(n as nat),
{
    let mut out: String = String::new();
    for i in 0..n
        invariant
            out@ == blanks(i as nat),
    {
        out.append(" ");
    }
    out
}

/// A text with blanks after it, at least `width` characters wide.
pub open spec fn padded(s: Seq<char>, width: nat) -> Seq<char> {
    if s.len() < width {
        s + blanks((width - s.len()) as nat)
    } else {
        s
    }
}

pub fn pad(s: &str, width: usize) -> (r: String)
    ensures
        r@ == padded(s@, width as nat),
{
    let n: usize = s.unicode_len();
    if n < width {
        cat2(s, &blank_run(width - n))
    } else {
        copy(s)
    }
}

/// A text with blanks before it, at least `width` characters wide.
pub open spec fn padded_left(s: Seq<char>, width: nat) -> Seq<char> {
    if s.len() < width {
        blanks((width - s.len()) as nat) + s
    } else {
        s
    }
}

pub fn pad_left(s: &str, width: usize) -> (r: String)
    ensures
        r@ == padded_left(s@, width as nat),
{
    let n: usize = s.unicode_len();
    if n < width {
        cat2(&blank_run(width - n), s)
    } else {
        copy(s)
    }
}

// ---------------------------------------------------------------------------
// Order
// ---------------------------------------------------------------------------

/// Comes `a` before `b` in the order of their characters?
pub open spec fn before(a: Seq<char>, b: Seq<char>) -> bool
    decreases a.len(),
{
    if b.len() == 0 {
        false
    } else if a.len() == 0 {
        true
    } else if a[0] == b[0] {
        before(a.skip(1), b.skip(1))
    } else {
        (a[0] as int) < (b[0] as int)
    }
}

/// The number of a character.
fn code(c: char) -> (r: u32)
    ensures
        r as int == c as int,
{
    c as u32
}

pub fn precedes(a: &str, b: &str) -> (r: bool)
    ensures
        r == before(a@, b@),
{
    let x: Vec<char> = chars_of(a);
    let y: Vec<char> = chars_of(b);
    let mut i: usize = 0;
    assert(a@.skip(0) =~= a@ && b@.skip(0) =~= b@);
    while i < x.len() && i < y.len()
        invariant
            i <= x.len(),
            i <= y.len(),
            x@ == a@,
            y@ == b@,
            before(a@.skip(i as int), b@.skip(i as int)) == before(a@, b@),
        decreases x.len() - i,
    {
        let p: char = x[i];
        let q: char = y[i];
        if p != q {
            return code(p) < code(q);
        }
        assert(a@.skip(i as int).skip(1) =~= a@.skip(i as int + 1));
        assert(b@.skip(i as int).skip(1) =~= b@.skip(i as int + 1));
        i = i + 1;
    }
    i < y.len()
}

/// Nothing comes before itself.
pub proof fn before_is_irreflexive(a: Seq<char>)
    ensures
        !before(a, a),
    decreases a.len(),
{
    if a.len() > 0 {
        before_is_irreflexive(a.skip(1));
    }
}

/// What comes before a text comes before whatever that comes before.
pub proof fn before_is_transitive(a: Seq<char>, b: Seq<char>, c: Seq<char>)
    requires
        before(a, b),
        before(b, c),
    ensures
        before(a, c),
    decreases a.len(),
{
    if a.len() > 0 && b.len() > 0 && c.len() > 0 && a[0] == b[0] && b[0] == c[0] {
        before_is_transitive(a.skip(1), b.skip(1), c.skip(1));
    }
}

/// Of two different texts one comes first.
pub proof fn before_is_total(a: Seq<char>, b: Seq<char>)
    ensures
        a == b || before(a, b) || before(b, a),
    decreases a.len(),
{
    if a.len() > 0 && b.len() > 0 && a[0] == b[0] {
        before_is_total(a.skip(1), b.skip(1));
        if a.skip(1) == b.skip(1) {
            assert(a =~= seq![a[0]] + a.skip(1));
            assert(b =~= seq![b[0]] + b.skip(1));
        }
    } else if a.len() == 0 && b.len() == 0 {
        assert(a =~= b);
    } else if a.len() > 0 && b.len() > 0 {
        assert((a[0] as int) < (b[0] as int) || (b[0] as int) < (a[0] as int));
    }
}

// ---------------------------------------------------------------------------
// Putting texts together
// ---------------------------------------------------------------------------

/// One more item comes behind the separator, and an item alone is itself.
pub proof fn items_are_joined(items: Seq<Seq<char>>, item: Seq<char>, sep: Seq<char>)
    ensures
        joined(Seq::empty(), sep).len() == 0,
        joined(seq![item], sep) == item,
        items.len() > 0 ==> joined(items.push(item), sep) == joined(items, sep) + sep + item,
{
    assert(items.push(item).drop_last() =~= items);
}

/// A text that is padded begins, or ends, with itself, has blanks for the rest, and is as
/// wide as was asked for where it was not wider.
pub proof fn padding_only_adds_blanks(s: Seq<char>, width: nat)
    ensures
        s.len() >= width ==> padded(s, width) == s && padded_left(s, width) == s,
        s.len() < width ==> {
            let right = padded(s, width);
            let left = padded_left(s, width);
            &&& right.len() == width && left.len() == width
            &&& right.take(s.len() as int) == s
            &&& left.skip(width - s.len()) == s
            &&& forall|i: int| s.len() <= i < width ==> #[trigger] right[i] == ' '
            &&& forall|i: int| 0 <= i < width - s.len() ==> #[trigger] left[i] == ' '
        },
{
    if s.len() < width {
        let n = (width - s.len()) as nat;
        blanks_are_blank(n);
        assert(padded(s, width).take(s.len() as int) =~= s);
        assert(padded_left(s, width).skip(n as int) =~= s);
        let right = padded(s, width);
        assert forall|i: int| s.len() <= i < width implies #[trigger] right[i] == ' ' by {
            assert(blanks(n)[i - s.len()] == ' ');
        }
    }
}

proof fn blanks_are_blank(n: nat)
    ensures
        blanks(n).len() == n,
        forall|i: int| 0 <= i < n ==> #[trigger] blanks(n)[i] == ' ',
    decreases n,
{
    reveal_strlit(" ");
    if n > 0 {
        blanks_are_blank((n - 1) as nat);
    }
}

/// Three texts in a row.
pub open spec fn in_a_row(a: Seq<char>, b: Seq<char>, c: Seq<char>) -> Seq<char> {
    a + b + c
}

/// Does a text have another in it?
pub open spec fn mentions(s: Seq<char>, x: Seq<char>) -> bool {
    exists|a: Seq<char>, b: Seq<char>| s == #[trigger] in_a_row(a, x, b)
}

/// A text that is put together of others mentions each of them.
pub proof fn parts_are_mentioned(a: Seq<char>, x: Seq<char>, b: Seq<char>)
    ensures
        mentions(a + x + b, x),
        mentions(a + x, x),
        mentions(x + b, x),
{
    let none = Seq::<char>::empty();
    assert(in_a_row(a, x, b) == a + x + b);
    assert(in_a_row(a, x, none) =~= a + x);
    assert(in_a_row(none, x, b) =~= x + b);
}

/// What a part mentions, the whole mentions.
pub proof fn what_a_part_mentions(a: Seq<char>, s: Seq<char>, b: Seq<char>, x: Seq<char>)
    requires
        mentions(s, x),
    ensures
        mentions(a + s + b, x),
        mentions(s + b, x),
        mentions(a + s, x),
{
    let (c, d) = choose|c: Seq<char>, d: Seq<char>| s == #[trigger] in_a_row(c, x, d);
    assert(in_a_row(a + c, x, d + b) =~= a + s + b);
    assert(in_a_row(c, x, d + b) =~= s + b);
    assert(in_a_row(a + c, x, d) =~= a + s);
}

/// Of two names that begin alike, the one whose next character is smaller comes first; one
/// that ends there comes before any that goes on.
pub proof fn names_are_in_order_of_their_characters(
    alike: Seq<char>,
    a: char,
    x: Seq<char>,
    b: char,
    y: Seq<char>,
)
    ensures
        (a as int) < (b as int) ==> before(alike + (seq![a] + x), alike + (seq![b] + y)),
        (a as int) > (b as int) ==> !before(alike + (seq![a] + x), alike + (seq![b] + y)),
        before(alike, alike + (seq![b] + y)),
        !before(alike + (seq![b] + y), alike),
    decreases alike.len(),
{
    let p = alike + (seq![a] + x);
    let q = alike + (seq![b] + y);
    if alike.len() > 0 {
        let rest = alike.skip(1);
        names_are_in_order_of_their_characters(rest, a, x, b, y);
        assert(p.skip(1) =~= rest + (seq![a] + x));
        assert(q.skip(1) =~= rest + (seq![b] + y));
        assert(p[0] == q[0] && q[0] == alike[0]);
    } else {
        assert(p[0] == a && q[0] == b);
        assert(p.len() > 0 && q.len() > 0);
    }
}

} // verus!
