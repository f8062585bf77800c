//! Parsing decimal seconds and clock times into milliseconds, and the
//! silence-detector and progress lines of the transcoding tool's log.

use vstd::prelude::*;
use crate::bitrate::MAX_DURATION_MS;
use vstd::string::StrSliceExecFns;

verus! {

pub open spec fn is_digit(c: char) -> bool {
    '0' <= c <= '9'
}

pub open spec fn all_digits(s: Seq<char>) -> bool {
    forall|i: int| 0 <= i < s.len() ==> is_digit(#[trigger] s[i])
}

/// Value of a string of decimal digits.
pub open spec fn digits_value(s: Seq<char>) -> nat
    decreases s.len(),
{
    if s.len() == 0 {
        0
    } else {
        digits_value(s.drop_last()) * 10 + (s.last() as nat - '0' as nat) as nat
    }
}

/// Thousandths given by the digits after a decimal point; digits past the
/// third are dropped.
pub open spec fn fraction_millis(f: Seq<char>) -> nat {
    if f.len() == 0 {
        0
    } else if f.len() == 1 {
        digits_value(f) * 100
    } else if f.len() == 2 {
        digits_value(f) * 10
    } else {
        digits_value(f.take(3))
    }
}

/// Index of the first occurrence of `c`.
pub open spec fn index_of(s: Seq<char>, c: char) -> Option<int>
    decreases s.len(),
{
    if s.len() == 0 {
        None
    } else {
        match index_of(s.drop_last(), c) {
            Some(i) => Some(i),
            None => if s.last() == c {
                Some(s.len() - 1)
            } else {
                None
            },
        }
    }
}

/// Milliseconds written as unsigned decimal seconds, `D`, `D.`, `.D` or
/// `D.D`.
pub open spec fn decimal_millis(s: Seq<char>) -> Option<nat> {
    match index_of(s, '.') {
        None => if s.len() > 0 && all_digits(s) {
            Some(digits_value(s) * 1000)
        } else {
            None
        },
        Some(p) => {
            let a = s.take(p);
            let b = s.skip(p + 1);
            if all_digits(a) && all_digits(b) && a.len() + b.len() > 0 {
                Some(digits_value(a) * 1000 + fraction_millis(b))
            } else {
                None
            }
        },
    }
}

/// `decimal_millis`, when it is at most the largest duration handled.
pub open spec fn bounded_millis(s: Seq<char>) -> Option<nat> {
    match decimal_millis(s) {
        Some(v) if v <= MAX_DURATION_MS => Some(v),
        _ => None,
    }
}

proof fn lemma_index_of(s: Seq<char>, c: char)
    ensures
        match index_of(s, c) {
            Some(i) => 0 <= i < s.len() && s[i] == c && forall|k: int| 0 <= k < i ==> s[k] != c,
            None => forall|k: int| 0 <= k < s.len() ==> s[k] != c,
        },
    decreases s.len(),
{
    if s.len() > 0 {
        lemma_index_of(s.drop_last(), c);
        assert(forall|k: int| 0 <= k < s.len() - 1 ==> s.drop_last()[k] == s[k]);
    }
}

proof fn lemma_index_of_char(s: Seq<char>, c: char, i: int)
    requires
        0 <= i < s.len(),
        s[i] == c,
        forall|k: int| 0 <= k < i ==> s[k] != c,
    ensures
        index_of(s, c) == Some(i),
{
    lemma_index_of(s, c);
}

proof fn lemma_digits_prefix(s: Seq<char>, k: int)
    requires
        0 <= k <= s.len(),
    ensures
        digits_value(s.take(k)) <= digits_value(s),
    decreases s.len() - k,
{
    if k < s.len() {
        lemma_digits_prefix(s, k + 1);
        assert(s.take(k + 1).drop_last() =~= s.take(k));
    } else {
        assert(s.take(k) =~= s);
    }
}

/// Characters of a text.
pub fn chars_of(s: &str) -> (r: Vec<char>)
    ensures
        r@ == s@,
{
    let n = s.unicode_len();
    let mut out: Vec<char> = Vec::new();
    let mut i: usize = 0;
    while i < n
        invariant
            n == s@.len(),
            i <= n,
            out@ == s@.take(i as int),
        decreases n - i,
    {
        out.push(s.get_char(i));
        i = i + 1;
        assert(out@ =~= s@.take(i as int));
    }
    assert(s@.take(n as int) =~= s@);
    out
}

pub open spec fn small_bound(n: nat) -> nat {
    if n == 0 {
        1
    } else if n == 1 {
        10
    } else if n == 2 {
        100
    } else {
        1000
    }
}

proof fn lemma_digits_small(s: Seq<char>)
    requires
        all_digits(s),
        s.len() <= 3,
    ensures
        digits_value(s) < small_bound(s.len()),
    decreases s.len(),
{
    if s.len() > 0 {
        let t = s.drop_last();
        assert forall|k: int| 0 <= k < t.len() implies is_digit(#[trigger] t[k]) by {
            assert(t[k] == s[k]);
        }
        lemma_digits_small(t);
        assert(is_digit(s[s.len() - 1]));
    }
}

/// Every character of `s[lo..hi]` is a digit.
fn digits_only(s: &Vec<char>, lo: usize, hi: usize) -> (r: bool)
    requires
        lo <= hi <= s@.len(),
    ensures
        r == all_digits(s@.subrange(lo as int, hi as int)),
{
    let mut i: usize = lo;
    while i < hi
        invariant
            lo <= i <= hi <= s@.len(),
            forall|k: int| lo <= k < i ==> is_digit(#[trigger] s@[k]),
        decreases hi - i,
    {
        if !('0' <= s[i] && s[i] <= '9') {
            assert(s@.subrange(lo as int, hi as int)[i - lo] == s@[i as int]);
            return false;
        }
        i = i + 1;
    }
    assert forall|k: int| 0 <= k < hi - lo implies is_digit(#[trigger] s@.subrange(lo as int, hi as int)[k]) by {
        assert(s@.subrange(lo as int, hi as int)[k] == s@[lo + k]);
    }
    true
}

/// Value of the digits `s[lo..hi]`, or `None` when one is not a digit or
/// the value exceeds the largest duration handled.
pub fn digits_in(s: &Vec<char>, lo: usize, hi: usize) -> (r: Option<u64>)
    requires
        lo <= hi <= s@.len(),
    ensures
        match r {
            Some(v) => all_digits(s@.subrange(lo as int, hi as int)) && v == digits_value(
                s@.subrange(lo as int, hi as int),
            ) && v <= MAX_DURATION_MS,
            None => !all_digits(s@.subrange(lo as int, hi as int)) || digits_value(
                s@.subrange(lo as int, hi as int),
            ) > MAX_DURATION_MS,
        },
{
    let ghost full = s@.subrange(lo as int, hi as int);
    let mut acc: u64 = 0;
    let mut i: usize = lo;
    while i < hi
        invariant
            lo <= i <= hi <= s@.len(),
            full == s@.subrange(lo as int, hi as int),
            all_digits(s@.subrange(lo as int, i as int)),
            acc == digits_value(s@.subrange(lo as int, i as int)),
            acc <= MAX_DURATION_MS,
        decreases hi - i,
    {
        let c = s[i];
        assert(s@.subrange(lo as int, i as int + 1).drop_last() =~= s@.subrange(lo as int, i as int));
        assert(full.take(i - lo) =~= s@.subrange(lo as int, i as int));
        assert(full.take(i - lo + 1) =~= s@.subrange(lo as int, i as int + 1));
        if !('0' <= c && c <= '9') {
            assert(!is_digit(full[i - lo]));
            return None;
        }
        let d = (c as u32 - '0' as u32) as u64;
        acc = acc * 10 + d;
        if acc > MAX_DURATION_MS {
            proof {
                lemma_digits_prefix(full, i - lo + 1);
            }
            return None;
        }
        i = i + 1;
    }
    assert(full =~= s@.subrange(lo as int, i as int));
    Some(acc)
}

/// Value of the digits `s[lo..hi]`, or `None` when one is not a digit or
/// the value exceeds `u64::MAX`.
pub fn digits_u64(s: &Vec<char>, lo: usize, hi: usize) -> (r: Option<u64>)
    requires
        lo <= hi <= s@.len(),
    ensures
        match r {
            Some(v) => all_digits(s@.subrange(lo as int, hi as int)) && v == digits_value(
                s@.subrange(lo as int, hi as int),
            ),
            None => !all_digits(s@.subrange(lo as int, hi as int)) || digits_value(
                s@.subrange(lo as int, hi as int),
            ) > u64::MAX,
        },
{
    let ghost full = s@.subrange(lo as int, hi as int);
    let mut acc: u64 = 0;
    let mut i: usize = lo;
    while i < hi
        invariant
            lo <= i <= hi <= s@.len(),
            full == s@.subrange(lo as int, hi as int),
            all_digits(s@.subrange(lo as int, i as int)),
            acc == digits_value(s@.subrange(lo as int, i as int)),
        decreases hi - i,
    {
        let c = s[i];
        assert(s@.subrange(lo as int, i as int + 1).drop_last() =~= s@.subrange(lo as int, i as int));
        assert(full.take(i - lo) =~= s@.subrange(lo as int, i as int));
        assert(full.take(i - lo + 1) =~= s@.subrange(lo as int, i as int + 1));
        if !('0' <= c && c <= '9') {
            assert(!is_digit(full[i - lo]));
            return None;
        }
        let d = (c as u32 - '0' as u32) as u64;
        if acc > (u64::MAX - d) / 10 {
            proof {
                let (a, dd) = (acc as int, d as int);
                assert(a * 10 + dd > u64::MAX) by (nonlinear_arith)
                    requires a > (u64::MAX - dd) / 10, 0 <= dd <= 9;
                lemma_digits_prefix(full, i - lo + 1);
            }
            return None;
        }
        acc = acc * 10 + d;
        i = i + 1;
    }
    assert(full =~= s@.subrange(lo as int, i as int));
    Some(acc)
}

/// Milliseconds written as decimal seconds in `s[lo..hi]`.
pub fn millis_in(s: &Vec<char>, lo: usize, hi: usize) -> (r: Option<u64>)
    requires
        lo <= hi <= s@.len(),
    ensures
        r matches Some(v) ==> bounded_millis(s@.subrange(lo as int, hi as int)) == Some(v as nat),
        r is None ==> bounded_millis(s@.subrange(lo as int, hi as int)) is None,
{
    let ghost t = s@.subrange(lo as int, hi as int);
    let mut dot: usize = lo;
    while dot < hi && s[dot] != '.'
        invariant
            lo <= dot <= hi <= s@.len(),
            t == s@.subrange(lo as int, hi as int),
            forall|k: int| lo <= k < dot ==> s@[k] != '.',
        decreases hi - dot,
    {
        dot = dot + 1;
    }
    if dot == hi {
        proof {
            lemma_index_of(t, '.');
            if index_of(t, '.') is Some {
                let p = index_of(t, '.')->0;
                assert(t[p] == s@[lo + p]);
            }
        }
        if hi == lo {
            return None;
        }
        match digits_in(s, lo, hi) {
            None => {
                return None;
            },
            Some(v) => {
                if v > MAX_DURATION_MS / 1000 {
                    return None;
                }
                return Some(v * 1000);
            },
        }
    }
    proof {
        lemma_index_of_char(t, '.', dot - lo);
        assert(t.take(dot - lo) =~= s@.subrange(lo as int, dot as int));
        assert(t.skip(dot - lo + 1) =~= s@.subrange(dot as int + 1, hi as int));
    }
    if dot == lo && dot + 1 == hi {
        return None;
    }
    let int_part: u64 = match digits_in(s, lo, dot) {
        None => {
            return None;
        },
        Some(v) => v,
    };
    let fend: usize = if hi - (dot + 1) > 3 {
        dot + 4
    } else {
        hi
    };
    if !digits_only(s, dot + 1, hi) {
        return None;
    }
    let frac_digits: u64 = match digits_in(s, dot + 1, fend) {
        None => {
            proof {
                let b = s@.subrange(dot as int + 1, hi as int);
                let f = s@.subrange(dot as int + 1, fend as int);
                assert forall|j: int| 0 <= j < f.len() implies is_digit(#[trigger] f[j]) by {
                    assert(f[j] == b[j]);
                }
                lemma_digits_small(f);
            }
            return None;
        },
        Some(v) => v,
    };
    proof {
        let b = s@.subrange(dot as int + 1, hi as int);
        let f = s@.subrange(dot as int + 1, fend as int);
        if b.len() >= 3 {
            assert(b.take(3) =~= f);
        } else {
            assert(b =~= f);
        }
    }
    let frac: u64 = if fend - (dot + 1) == 0 {
        0
    } else if fend - (dot + 1) == 1 {
        frac_digits * 100
    } else if fend - (dot + 1) == 2 {
        frac_digits * 10
    } else {
        frac_digits
    };
    proof {
        let a = t.take(dot - lo);
        let b = t.skip(dot - lo + 1);
        assert(a =~= s@.subrange(lo as int, dot as int));
        assert(b =~= s@.subrange(dot as int + 1, hi as int));
        assert(frac == fraction_millis(b));
        assert(decimal_millis(t) == Some((int_part * 1000 + frac) as nat));
    }
    if int_part > MAX_DURATION_MS / 1000 {
        return None;
    }
    let v = int_part * 1000 + frac;
    if v > MAX_DURATION_MS {
        return None;
    }
    Some(v)
}

/// `v`, when it is at most the largest duration handled.
pub open spec fn within_max(v: nat) -> Option<nat> {
    if v <= MAX_DURATION_MS {
        Some(v)
    } else {
        None
    }
}

/// Milliseconds of a clock reading `[[H:]M:]S` whose parts are decimal
/// numbers; with `three_parts`, only `H:M:S` is accepted.
pub open spec fn clock_millis(s: Seq<char>, three_parts: bool) -> Option<nat> {
    match index_of(s, ':') {
        None => if three_parts {
            None
        } else {
            bounded_millis(s)
        },
        Some(p) => {
            let a = s.take(p);
            let rest = s.skip(p + 1);
            match index_of(rest, ':') {
                None => if three_parts {
                    None
                } else {
                    match (bounded_millis(a), bounded_millis(rest)) {
                        (Some(m), Some(x)) => within_max(m * 60 + x),
                        _ => None,
                    }
                },
                Some(q) => {
                    let b = rest.take(q);
                    let c = rest.skip(q + 1);
                    if index_of(c, ':') is Some {
                        None
                    } else {
                        match (bounded_millis(a), bounded_millis(b), bounded_millis(c)) {
                            (Some(h), Some(m), Some(x)) => within_max(h * 3600 + m * 60 + x),
                            _ => None,
                        }
                    }
                },
            }
        },
    }
}

/// First index at or after `i`, below `hi`, holding `c`; `hi` when none.
pub open spec fn next_char(s: Seq<char>, i: int, hi: int, c: char) -> int
    decreases hi - i,
{
    if i >= hi {
        hi
    } else if s[i] == c {
        i
    } else {
        next_char(s, i + 1, hi, c)
    }
}

pub fn find_char(s: &Vec<char>, lo: usize, hi: usize, c: char) -> (r: usize)
    requires
        lo <= hi <= s@.len(),
    ensures
        r == next_char(s@, lo as int, hi as int, c),
        lo <= r <= hi,
{
    let mut i = lo;
    while i < hi && s[i] != c
        invariant
            lo <= i <= hi <= s@.len(),
            next_char(s@, lo as int, hi as int, c) == next_char(s@, i as int, hi as int, c),
        decreases hi - i,
    {
        i = i + 1;
    }
    i
}

proof fn lemma_next_char_index(s: Seq<char>, lo: int, hi: int, c: char, i: int)
    requires
        0 <= lo <= i <= hi <= s.len(),
        next_char(s, lo, hi, c) == next_char(s, i, hi, c),
        forall|k: int| lo <= k < i ==> s[k] != c,
    ensures
        ({
            let t = s.subrange(lo, hi);
            let r = next_char(s, lo, hi, c);
            &&& r == hi ==> index_of(t, c) is None
            &&& r < hi ==> index_of(t, c) == Some(r - lo)
        }),
    decreases hi - i,
{
    let t = s.subrange(lo, hi);
    if i < hi && s[i] != c {
        lemma_next_char_index(s, lo, hi, c, i + 1);
    } else {
        lemma_index_of(t, c);
        if i < hi {
            assert(t[i - lo] == s[i]);
            lemma_index_of_char(t, c, i - lo);
        } else {
            assert forall|k: int| 0 <= k < t.len() implies t[k] != c by {
                assert(t[k] == s[lo + k]);
            }
            if index_of(t, c) is Some {
                let p = index_of(t, c)->0;
                assert(t[p] == c);
            }
        }
    }
}

/// The clock reading in `s[lo..hi]`.
pub fn clock_in(s: &Vec<char>, lo: usize, hi: usize, three_parts: bool) -> (r: Option<u64>)
    requires
        lo <= hi <= s@.len(),
    ensures
        r matches Some(v) ==> clock_millis(s@.subrange(lo as int, hi as int), three_parts) == Some(v as nat),
        r is None ==> clock_millis(s@.subrange(lo as int, hi as int), three_parts) is None,
{
    let ghost t = s@.subrange(lo as int, hi as int);
    let p = find_char(s, lo, hi, ':');
    proof {
        lemma_next_char_index(s@, lo as int, hi as int, ':', lo as int);
    }
    if p == hi {
        if three_parts {
            return None;
        }
        return millis_in(s, lo, hi);
    }
    let q = find_char(s, p + 1, hi, ':');
    proof {
        lemma_next_char_index(s@, p + 1, hi as int, ':', p + 1);
        assert(t.take(p - lo) =~= s@.subrange(lo as int, p as int));
        assert(t.skip(p - lo + 1) =~= s@.subrange(p + 1, hi as int));
    }
    let a = millis_in(s, lo, p);
    if q == hi {
        if three_parts {
            return None;
        }
        let x = millis_in(s, p + 1, hi);
        return match (a, x) {
            (Some(m), Some(x)) => if m > MAX_DURATION_MS / 60 {
                None
            } else if m * 60 + x > MAX_DURATION_MS {
                None
            } else {
                Some(m * 60 + x)
            },
            _ => None,
        };
    }
    let e = find_char(s, q + 1, hi, ':');
    proof {
        lemma_next_char_index(s@, q + 1, hi as int, ':', q + 1);
        let rest = t.skip(p - lo + 1);
        assert(rest.take(q - p - 1) =~= s@.subrange(p + 1, q as int));
        assert(rest.skip(q - p) =~= s@.subrange(q + 1, hi as int));
    }
    if e < hi {
        return None;
    }
    let b = millis_in(s, p + 1, q);
    let c = millis_in(s, q + 1, hi);
    match (a, b, c) {
        (Some(h), Some(m), Some(x)) => {
            if h > MAX_DURATION_MS / 3600 || m > MAX_DURATION_MS / 60 {
                return None;
            }
            let v = h * 3600 + m * 60 + x;
            if v > MAX_DURATION_MS {
                None
            } else {
                Some(v)
            }
        },
        _ => None,
    }
}

/// A clock reading `[[H:]M:]S` in milliseconds; each part is an unsigned
/// decimal number, and digits past the third decimal are dropped.
pub fn parse_time(text: &str) -> (r: Option<u64>)
    ensures
        r matches Some(v) ==> clock_millis(text@, false) == Some(v as nat),
        r is None ==> clock_millis(text@, false) is None,
{
    let s = chars_of(text);
    assert(s@.subrange(0, s@.len() as int) =~= text@);
    clock_in(&s, 0, s.len(), false)
}

/// A clock reading `H:M:S` of the transcoder's log, in milliseconds.
pub fn parse_time_string(text: &str) -> (r: Option<u64>)
    ensures
        r matches Some(v) ==> clock_millis(text@, true) == Some(v as nat),
        r is None ==> clock_millis(text@, true) is None,
{
    let s = chars_of(text);
    assert(s@.subrange(0, s@.len() as int) =~= text@);
    clock_in(&s, 0, s.len(), true)
}

/// ASCII white space, as the log uses it.
pub open spec fn is_space(c: char) -> bool {
    c == ' ' || c == '\t' || c == '\n' || c == '\r' || c == '\x0B' || c == '\x0C'
}

fn space(c: char) -> (r: bool)
    ensures
        r == is_space(c),
{
    c == ' ' || c == '\t' || c == '\n' || c == '\r' || c == '\x0B' || c == '\x0C'
}

/// First index at or after `i`, below `hi`, that is (`want`) or is not
/// (`!want`) white space; `hi` when none.
pub open spec fn next_space(s: Seq<char>, i: int, hi: int, want: bool) -> int
    decreases hi - i,
{
    if i >= hi {
        hi
    } else if is_space(s[i]) == want {
        i
    } else {
        next_space(s, i + 1, hi, want)
    }
}

/// End of `s[lo..j]` with trailing white space removed.
pub open spec fn trimmed_end(s: Seq<char>, lo: int, j: int) -> int
    decreases j - lo,
{
    if j <= lo {
        lo
    } else if !is_space(s[j - 1]) {
        j
    } else {
        trimmed_end(s, lo, j - 1)
    }
}

pub fn find_space(s: &Vec<char>, lo: usize, hi: usize, want: bool) -> (r: usize)
    requires
        lo <= hi <= s@.len(),
    ensures
        r == next_space(s@, lo as int, hi as int, want),
        lo <= r <= hi,
{
    let mut i = lo;
    while i < hi && space(s[i]) != want
        invariant
            lo <= i <= hi <= s@.len(),
            next_space(s@, lo as int, hi as int, want) == next_space(s@, i as int, hi as int, want),
        decreases hi - i,
    {
        i = i + 1;
    }
    i
}

pub fn trim_end(s: &Vec<char>, lo: usize, hi: usize) -> (r: usize)
    requires
        lo <= hi <= s@.len(),
    ensures
        r == trimmed_end(s@, lo as int, hi as int),
        lo <= r <= hi,
{
    let mut j = hi;
    while j > lo && space(s[j - 1])
        invariant
            lo <= j <= hi <= s@.len(),
            trimmed_end(s@, lo as int, hi as int) == trimmed_end(s@, lo as int, j as int),
        decreases j - lo,
    {
        j = j - 1;
    }
    j
}

/// `pat` occurs in `s` at `p`.
pub open spec fn occurs_at(s: Seq<char>, pat: Seq<char>, p: int) -> bool {
    0 <= p && p + pat.len() <= s.len() && s.subrange(p, p + pat.len()) == pat
}

/// First occurrence of `pat` in `s` at or after `p`.
pub open spec fn find_from(s: Seq<char>, pat: Seq<char>, p: int) -> Option<int>
    decreases s.len() + 1 - p,
{
    if p < 0 || p + pat.len() > s.len() {
        None
    } else if occurs_at(s, pat, p) {
        Some(p)
    } else {
        find_from(s, pat, p + 1)
    }
}

fn occurs(s: &Vec<char>, pat: &Vec<char>, p: usize) -> (r: bool)
    requires
        p + pat@.len() <= s@.len(),
    ensures
        r == occurs_at(s@, pat@, p as int),
{
    let n = s.len();
    assert(n == s@.len());
    let mut k: usize = 0;
    while k < pat.len()
        invariant
            p + pat@.len() <= s@.len(),
            n == s@.len(),
            k <= pat@.len(),
            forall|j: int| 0 <= j < k ==> s@[p + j] == pat@[j],
        decreases pat@.len() - k,
    {
        if s[p + k] != pat[k] {
            assert(s@.subrange(p as int, p + pat@.len())[k as int] != pat@[k as int]);
            return false;
        }
        k = k + 1;
    }
    assert(s@.subrange(p as int, p + pat@.len()) =~= pat@);
    true
}

fn find_text(s: &Vec<char>, pat: &Vec<char>) -> (r: Option<usize>)
    ensures
        r matches Some(p) ==> find_from(s@, pat@, 0) == Some(p as int) && p + pat@.len() <= s@.len() <= usize::MAX,
        r is None ==> find_from(s@, pat@, 0) is None,
{
    if pat.len() > s.len() {
        return None;
    }
    let n = s.len();
    assert(n == s@.len());
    let last = n - pat.len();
    let mut p: usize = 0;
    while p <= last
        invariant
            last == s@.len() - pat@.len(),
            n == s@.len(),
            p <= last + 1,
            find_from(s@, pat@, 0) == find_from(s@, pat@, p as int),
        decreases last + 1 - p,
    {
        if occurs(s, pat, p) {
            return Some(p);
        }
        if p == last {
            return None;
        }
        p = p + 1;
    }
    None
}

pub open spec fn start_tag() -> Seq<char> {
    "silence_start:"@
}

pub open spec fn end_tag() -> Seq<char> {
    "silence_end:"@
}

/// The value after `silence_start:` on a log line: the first word after it.
pub open spec fn start_value(l: Seq<char>) -> Option<nat> {
    match find_from(l, start_tag(), 0) {
        Some(p) => {
            let b = next_space(l, p + start_tag().len(), l.len() as int, false);
            bounded_millis(l.subrange(b, next_space(l, b, l.len() as int, true)))
        },
        None => None,
    }
}

/// The value after `silence_end:` on a log line: the text up to the next
/// `|`, trimmed.
pub open spec fn end_value(l: Seq<char>) -> Option<nat> {
    match find_from(l, end_tag(), 0) {
        Some(p) => {
            let a = p + end_tag().len();
            let bar = next_char(l, a, l.len() as int, '|');
            let b = next_space(l, a, bar, false);
            bounded_millis(l.subrange(b, trimmed_end(l, b, bar)))
        },
        None => None,
    }
}

/// Intervals found in the first `k` lines, and a start still waiting for
/// its end.
pub open spec fn silence_scan(lines: Seq<String>, k: int) -> (Seq<crate::silence::SilenceInterval>, Option<nat>)
    decreases k,
{
    if k <= 0 {
        (seq![], None)
    } else {
        let (found, waiting) = silence_scan(lines, k - 1);
        let l = lines[k - 1]@;
        let waiting2 = match start_value(l) {
            Some(v) => Some(v),
            None => waiting,
        };
        match end_value(l) {
            Some(e) => match waiting2 {
                Some(st) => (found.push(crate::silence::SilenceInterval { start: st as u64, end: e as u64 }), None),
                None => (found, None),
            },
            None => (found, waiting2),
        }
    }
}

fn line_start_value(l: &Vec<char>, tag: &Vec<char>) -> (r: Option<u64>)
    requires
        tag@ == start_tag(),
    ensures
        r matches Some(v) ==> start_value(l@) == Some(v as nat),
        r is None ==> start_value(l@) is None,
{
    match find_text(l, tag) {
        None => None,
        Some(p) => {
            let b = find_space(l, p + tag.len(), l.len(), false);
            let e = find_space(l, b, l.len(), true);
            millis_in(l, b, e)
        },
    }
}

fn line_end_value(l: &Vec<char>, tag: &Vec<char>) -> (r: Option<u64>)
    requires
        tag@ == end_tag(),
    ensures
        r matches Some(v) ==> end_value(l@) == Some(v as nat),
        r is None ==> end_value(l@) is None,
{
    match find_text(l, tag) {
        None => None,
        Some(p) => {
            let a = p + tag.len();
            let bar = find_char(l, a, l.len(), '|');
            let b = find_space(l, a, bar, false);
            let e = trim_end(l, b, bar);
            millis_in(l, b, e)
        },
    }
}

/// Silence intervals from the silence detector's log lines: each
/// `silence_start:` value waits for the next `silence_end:` value on the
/// same or a later line; a later start replaces a waiting one. Values are
/// decimal seconds, kept in milliseconds.
pub fn parse_silence_output(stderr_lines: &[String]) -> (r: Vec<crate::silence::SilenceInterval>)
    ensures
        r@ == silence_scan(stderr_lines@, stderr_lines@.len() as int).0,
{
    let start_pat = chars_of("silence_start:");
    let end_pat = chars_of("silence_end:");
    let mut found: Vec<crate::silence::SilenceInterval> = Vec::new();
    let mut waiting: Option<u64> = None;
    let mut k: usize = 0;
    while k < stderr_lines.len()
        invariant
            k <= stderr_lines@.len(),
            start_pat@ == start_tag(),
            end_pat@ == end_tag(),
            found@ == silence_scan(stderr_lines@, k as int).0,
            match waiting {
                Some(v) => silence_scan(stderr_lines@, k as int).1 == Some(v as nat),
                None => silence_scan(stderr_lines@, k as int).1 is None,
            },
        decreases stderr_lines@.len() - k,
    {
        let line = chars_of(stderr_lines[k].as_str());
        match line_start_value(&line, &start_pat) {
            Some(v) => {
                waiting = Some(v);
            },
            None => {},
        }
        match line_end_value(&line, &end_pat) {
            Some(e) => {
                match waiting {
                    Some(st) => {
                        found.push(crate::silence::SilenceInterval { start: st, end: e });
                    },
                    None => {},
                }
                waiting = None;
            },
            None => {},
        }
        k = k + 1;
    }
    found
}

/// Progress, in thousandths of `total` ms, read from the `time=H:M:S`
/// field of a transcoder progress line (the field ends at the next space).
pub open spec fn progress_permille(l: Seq<char>, total: nat) -> Option<nat> {
    match find_from(l, "time="@, 0) {
        Some(p) => {
            let a = p + 5;
            let sp = next_char(l, a, l.len() as int, ' ');
            if sp == l.len() || total == 0 {
                None
            } else {
                match clock_millis(l.subrange(a, sp), true) {
                    Some(t) => Some(t * 1000 / total),
                    None => None,
                }
            }
        },
        None => None,
    }
}

pub fn parse_progress_line(line: &str, total_ms: u64) -> (r: Option<u64>)
    ensures
        r matches Some(v) ==> progress_permille(line@, total_ms as nat) == Some(v as nat),
        r is None ==> progress_permille(line@, total_ms as nat) is None,
{
    let l = chars_of(line);
    let tag = chars_of("time=");
    proof {
        reveal_strlit("time=");
    }
    match find_text(&l, &tag) {
        None => None,
        Some(p) => {
            let a = p + tag.len();
            let sp = find_char(&l, a, l.len(), ' ');
            if sp == l.len() || total_ms == 0 {
                return None;
            }
            match clock_in(&l, a, sp, true) {
                Some(t) => Some(t * 1000 / total_ms),
                None => None,
            }
        },
    }
}

} // verus!
