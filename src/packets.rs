//! The prober's per-packet listing (`pts_time,size` lines) and the bitrate
//! map built from it.

use vstd::prelude::*;
use crate::bitrate::{total_size, BitrateMap, MAX_DURATION_MS};
use crate::parse::{
    all_digits, bounded_millis, chars_of, digits_u64, digits_value, find_char, find_space, millis_in,
    next_char, next_space, trim_end, trimmed_end,
};

verus! {

/// A timestamp field: decimal seconds, or a negative one, which counts as 0.
pub open spec fn timestamp_of(t: Seq<char>) -> Option<nat> {
    if t.len() > 0 && t[0] == '-' {
        match bounded_millis(t.skip(1)) {
            Some(_) => Some(0),
            None => None,
        }
    } else {
        bounded_millis(t)
    }
}

/// A size field: decimal digits whose value fits a `u64`.
pub open spec fn size_of(t: Seq<char>) -> Option<nat> {
    if t.len() > 0 && all_digits(t) && digits_value(t) <= u64::MAX {
        Some(digits_value(t))
    } else {
        None
    }
}

/// Field `[a, b)` of a line with surrounding white space removed.
pub open spec fn field(l: Seq<char>, a: int, b: int) -> Seq<char> {
    let lo = next_space(l, a, b, false);
    l.subrange(lo, trimmed_end(l, lo, b))
}

/// `(timestamp_ms, size)` from a `time,size[,...]` line.
pub open spec fn packet_of(l: Seq<char>) -> Option<(u64, u64)> {
    let c = next_char(l, 0, l.len() as int, ',');
    if c == l.len() {
        None
    } else {
        let d = next_char(l, c + 1, l.len() as int, ',');
        match (timestamp_of(field(l, 0, c)), size_of(field(l, c + 1, d))) {
            (Some(t), Some(s)) => Some((t as u64, s as u64)),
            _ => None,
        }
    }
}

/// Packets of the first `k` lines that parse, in order.
pub open spec fn packets_in(lines: Seq<String>, k: int) -> Seq<(u64, u64)>
    decreases k,
{
    if k <= 0 {
        seq![]
    } else {
        match packet_of(lines[k - 1]@) {
            Some(p) => packets_in(lines, k - 1).push(p),
            None => packets_in(lines, k - 1),
        }
    }
}

fn field_bounds(l: &Vec<char>, a: usize, b: usize) -> (r: (usize, usize))
    requires
        a <= b <= l@.len(),
    ensures
        a <= r.0 <= r.1 <= b,
        l@.subrange(r.0 as int, r.1 as int) == field(l@, a as int, b as int),
{
    let lo = find_space(l, a, b, false);
    let hi = trim_end(l, lo, b);
    proof {
        lemma_trimmed_end_bounds(l@, lo as int, b as int);
    }
    (lo, hi)
}

proof fn lemma_trimmed_end_bounds(s: Seq<char>, lo: int, j: int)
    requires
        lo <= j,
    ensures
        lo <= trimmed_end(s, lo, j) <= j,
    decreases j - lo,
{
    if j > lo && crate::parse::is_space(s[j - 1]) {
        lemma_trimmed_end_bounds(s, lo, j - 1);
    }
}

/// The packet on one line of the listing, if it parses.
pub fn parse_packet_line(line: &str) -> (r: Option<(u64, u64)>)
    ensures
        r == packet_of(line@),
{
    let l = chars_of(line);
    let n = l.len();
    let c = find_char(&l, 0, n, ',');
    if c == n {
        return None;
    }
    let d = find_char(&l, c + 1, n, ',');
    let (t0, t1) = field_bounds(&l, 0, c);
    let (s0, s1) = field_bounds(&l, c + 1, d);
    let ghost tf = field(l@, 0, c as int);
    let time: Option<u64> = if t1 > t0 && l[t0] == '-' {
        proof {
            assert(l@.subrange(t0 + 1, t1 as int) =~= tf.skip(1));
        }
        match millis_in(&l, t0 + 1, t1) {
            Some(_) => Some(0),
            None => None,
        }
    } else {
        millis_in(&l, t0, t1)
    };
    let size: Option<u64> = if s1 > s0 {
        digits_u64(&l, s0, s1)
    } else {
        None
    };
    match (time, size) {
        (Some(t), Some(s)) => Some((t, s)),
        _ => None,
    }
}

/// The packets of every line of the listing that parses, in order.
pub fn packets_from_lines(lines: &[String]) -> (r: Vec<(u64, u64)>)
    ensures
        r@ == packets_in(lines@, lines@.len() as int),
{
    let mut out: Vec<(u64, u64)> = Vec::new();
    let mut k: usize = 0;
    while k < lines.len()
        invariant
            k <= lines@.len(),
            out@ == packets_in(lines@, k as int),
        decreases lines@.len() - k,
    {
        match parse_packet_line(lines[k].as_str()) {
            Some(p) => out.push(p),
            None => {},
        }
        k = k + 1;
    }
    out
}

/// Sum of the packet sizes, or `None` when it exceeds `u64::MAX`.
fn checked_total(ps: &Vec<(u64, u64)>) -> (r: Option<u64>)
    ensures
        r matches Some(t) ==> t == total_size(ps@),
        r is None ==> total_size(ps@) > u64::MAX,
{
    let mut sum: u64 = 0;
    let mut k: usize = 0;
    while k < ps.len()
        invariant
            k <= ps@.len(),
            sum == total_size(ps@.take(k as int)),
        decreases ps@.len() - k,
    {
        assert(ps@.take(k as int + 1).drop_last() =~= ps@.take(k as int));
        if ps[k].1 > u64::MAX - sum {
            proof {
                crate::bitrate::lemma_total_prefix(ps@, k as int + 1);
            }
            return None;
        }
        sum = sum + ps[k].1;
        k = k + 1;
    }
    assert(ps@.take(k as int) =~= ps@);
    Some(sum)
}

/// The bitrate map of a file of `duration` ms from the prober's listings of
/// its video and audio packets; the unavailable map when no video packet
/// could be read, or when the sizes add up past `u64::MAX`.
pub fn bitrate_map_from_lines(duration: u64, video_lines: &[String], audio_lines: &[String]) -> (r:
    BitrateMap)
    requires
        duration <= MAX_DURATION_MS,
    ensures
        r.wf(),
        r.duration_ms() == duration,
        ({
            let v = packets_in(video_lines@, video_lines@.len() as int);
            let a = packets_in(audio_lines@, audio_lines@.len() as int);
            if v.len() > 0 && total_size(v) + total_size(a) <= u64::MAX {
                &&& r.points().len() == crate::bitrate::ceil_secs(duration as int) + 1
                &&& forall|i: int|
                    0 <= i < r.points().len() ==> #[trigger] r.points()[i] == crate::bitrate::bytes_before(
                        v,
                        r.points().len() as int,
                        i,
                    ) + crate::bitrate::bytes_before(a, r.points().len() as int, i)
            } else {
                r.points().len() == 0
            }
        }),
{
    let video = packets_from_lines(video_lines);
    let audio = packets_from_lines(audio_lines);
    if video.len() == 0 {
        return BitrateMap::unavailable(duration);
    }
    match (checked_total(&video), checked_total(&audio)) {
        (Some(tv), Some(ta)) => {
            if tv > u64::MAX - ta {
                return BitrateMap::unavailable(duration);
            }
            BitrateMap::from_packets(duration, &video, &audio)
        },
        _ => {
            proof {
                crate::bitrate::lemma_total_nonneg(video@);
                crate::bitrate::lemma_total_nonneg(audio@);
            }
            BitrateMap::unavailable(duration)
        },
    }
}

} // verus!
