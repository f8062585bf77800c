//! Cut-point planning: splitting a file into contiguous segments that each
//! fit a byte budget, preferring to cut in the middle of a silence.
//!
//! Two strategies share one shape: from a cursor, find the ideal end of the
//! next segment, look for the silence whose midpoint is nearest to it within
//! a tolerance window, and cut there when the budget allows, else at the
//! ideal end. The uniform strategy derives the ideal end from an average
//! bitrate; the accurate one walks the file's bitrate map.

use vstd::prelude::*;
use crate::bitrate::{BitrateMap, MAX_DURATION_MS};
use crate::silence::{SilenceInterval, nearest_in_window, nearest_silence};

verus! {

/// Bytes a segment may use out of `max_bytes`: 98 %, rounded down, keeping
/// a margin for encoder and container overhead.
pub open spec fn effective_budget(max_bytes: u64) -> int {
    (max_bytes as int * 98) / 100
}

/// Longest span (ms) that `eff` bytes last at `bitrate` bits per second,
/// rounded down, and at least one millisecond.
pub open spec fn uniform_span(eff: int, bitrate: int) -> int {
    let s = eff * 8000 / bitrate;
    if s >= 1 {
        s
    } else {
        1
    }
}

pub open spec fn min_int(a: int, b: int) -> int {
    if a <= b {
        a
    } else {
        b
    }
}

pub open spec fn max_int(a: int, b: int) -> int {
    if a >= b {
        a
    } else {
        b
    }
}

/// Lower edge of the silence search window around `ideal`; never within the
/// first second after the cursor `c`.
pub open spec fn window_lo(ideal: int, tol: int, c: int) -> int {
    max_int(ideal - tol, c + 1000)
}

/// Upper edge of the silence search window around `ideal`.
pub open spec fn window_hi(ideal: int, tol: int, d: int) -> int {
    min_int(ideal + tol, d)
}

/// Segments that start at `from`, follow each other without gap, end at
/// `to`, and are each non-empty.
pub open spec fn chained(segs: Seq<(u64, u64)>, from: int, to: int) -> bool {
    &&& segs.len() > 0
    &&& segs[0].0 == from
    &&& segs.last().1 == to
    &&& forall|i: int| 0 <= i < segs.len() - 1 ==> #[trigger] segs[i].1 == segs[i + 1].0
    &&& forall|i: int| 0 <= i < segs.len() ==> #[trigger] segs[i].0 < segs[i].1
}

/// The segments cover `[0, d]` exactly, one after the other.
pub open spec fn covers(segs: Seq<(u64, u64)>, d: int) -> bool {
    if d == 0 {
        segs == seq![(0u64, 0u64)]
    } else {
        chained(segs, 0, d)
    }
}

proof fn lemma_single_covers(d: u64)
    ensures
        covers(seq![(0u64, d)], d as int),
{
    let s = seq![(0u64, d)];
    assert(s.last() == (0u64, d));
}

// ---- uniform strategy ----
/// Where the uniform strategy cuts the segment that starts at `c`.
pub open spec fn uniform_cut(sil: Seq<SilenceInterval>, c: int, span: int, tol: int, d: int) -> int {
    let ideal = min_int(c + span, d);
    match nearest_in_window(sil, sil.len() as int, window_lo(ideal, tol, c), window_hi(ideal, tol, d), ideal) {
        Some(i) => if sil[i].mid() - c <= span {
            sil[i].mid()
        } else {
            ideal
        },
        None => ideal,
    }
}

/// The segments the uniform strategy emits from cursor `c` on.
pub open spec fn uniform_from(sil: Seq<SilenceInterval>, c: int, span: int, tol: int, d: int) -> Seq<
    (u64, u64),
>
    decreases d - c,
{
    if c < 0 || c >= d {
        seq![]
    } else if min_int(c + span, d) + 100 >= d {
        seq![(c as u64, d as u64)]
    } else {
        let cut = uniform_cut(sil, c, span, tol, d);
        if c < cut <= d {
            seq![(c as u64, cut as u64)] + uniform_from(sil, cut, span, tol, d)
        } else {
            seq![]
        }
    }
}

/// The whole file, `duration` ms at `bitrate` bits per second, takes at
/// most 98 % of `max_bytes` (exactly, without rounding the budget).
pub open spec fn fits_whole(duration: u64, bitrate: u64, max_bytes: u64) -> bool {
    duration as int * bitrate * 100 <= max_bytes as int * 98 * 8000
}

/// The whole plan of the uniform strategy.
pub open spec fn uniform_plan(
    duration: u64,
    bitrate: u64,
    max_bytes: u64,
    tol: u64,
    sil: Seq<SilenceInterval>,
) -> Seq<(u64, u64)> {
    if duration == 0 || bitrate == 0 || max_bytes == 0 {
        seq![(0u64, duration)]
    } else {
        if fits_whole(duration, bitrate, max_bytes) {
            seq![(0u64, duration)]
        } else {
            uniform_from(
                sil,
                0,
                uniform_span(effective_budget(max_bytes), bitrate as int),
                tol as int,
                duration as int,
            )
        }
    }
}

proof fn lemma_uniform_from_chained(sil: Seq<SilenceInterval>, c: int, span: int, tol: int, d: int)
    requires
        0 <= c < d <= MAX_DURATION_MS,
        span >= 1,
    ensures
        chained(uniform_from(sil, c, span, tol, d), c, d),
    decreases d - c,
{
    let ideal = min_int(c + span, d);
    if ideal + 100 < d {
        let lo = window_lo(ideal, tol, c);
        let hi = window_hi(ideal, tol, d);
        crate::silence::lemma_nearest_in_range(sil, sil.len() as int, lo, hi, ideal);
        let cut = uniform_cut(sil, c, span, tol, d);
        assert(c < cut <= d);
        let rest = uniform_from(sil, cut, span, tol, d);
        let segs = uniform_from(sil, c, span, tol, d);
        assert(segs == seq![(c as u64, cut as u64)] + rest);
        if cut < d {
            lemma_uniform_from_chained(sil, cut, span, tol, d);
            assert(segs[1] == rest[0]);
            assert forall|i: int| 0 <= i < segs.len() - 1 implies #[trigger] segs[i].1 == segs[i + 1].0 by {
                if i > 0 {
                    assert(segs[i] == rest[i - 1]);
                    assert(segs[i + 1] == rest[i]);
                }
            }
            assert forall|i: int| 0 <= i < segs.len() implies #[trigger] segs[i].0 < segs[i].1 by {
                if i > 0 {
                    assert(segs[i] == rest[i - 1]);
                }
            }
        } else {
            assert(rest.len() == 0);
            assert(segs =~= seq![(c as u64, cut as u64)]);
        }
    }
}

/// Cut points for a file of `duration` ms at an average of `bitrate_bps`,
/// so that each segment fits 98 % of `max_bytes`, cutting at the middle of
/// a silence found within `tolerance` ms of the ideal cut when the segment
/// still fits there. A segment whose ideal end comes within 100 ms of the
/// end closes the plan, and the segments always cover `[0, duration]`.
pub fn compute_cut_points(
    duration: u64,
    bitrate_bps: u64,
    max_bytes: u64,
    tolerance: u64,
    silences: &[SilenceInterval],
) -> (r: Vec<(u64, u64)>)
    requires
        duration <= MAX_DURATION_MS,
    ensures
        r@ == uniform_plan(duration, bitrate_bps, max_bytes, tolerance, silences@),
        covers(r@, duration as int),
        duration as int * bitrate_bps * 100 <= max_bytes as int * 98 * 8000 ==> r@ == seq![(0u64, duration)],
{
    if duration == 0 || bitrate_bps == 0 || max_bytes == 0 {
        return vec![(0, duration)];
    }
    let eff: u64 = (max_bytes as u128 * 98 / 100) as u64;
    let span128: u128 = eff as u128 * 8000 / bitrate_bps as u128;
    let ghost spec_span = uniform_span(effective_budget(max_bytes), bitrate_bps as int);
    proof {
        assert(eff as int == effective_budget(max_bytes));
        assert(span128 as int == eff as int * 8000 / bitrate_bps as int);
        let (dd, bb, mm) = (duration as int, bitrate_bps as int, max_bytes as int);
        assert(dd * bb * 100 <= 1_000_000_000_000 * 18_446_744_073_709_551_615 * 100) by (nonlinear_arith)
            requires 0 <= dd <= 1_000_000_000_000, 0 <= bb <= 18_446_744_073_709_551_615;
        assert(mm * 98 * 8000 <= 18_446_744_073_709_551_615 * 98 * 8000) by (nonlinear_arith)
            requires 0 <= mm <= 18_446_744_073_709_551_615;
    }
    let whole: u128 = duration as u128 * bitrate_bps as u128 * 100;
    let budget: u128 = max_bytes as u128 * 98 * 8000;
    if whole <= budget {
        return vec![(0, duration)];
    }
    proof {
        let (dd, bb, mm) = (duration as int, bitrate_bps as int, max_bytes as int);
        let e = eff as int;
        assert(e * 100 <= mm * 98);
        assert(dd * bb > e * 8000) by (nonlinear_arith)
            requires dd * bb * 100 > mm * 98 * 8000, e * 100 <= mm * 98;
        assert(dd > e * 8000 / bb) by (nonlinear_arith)
            requires dd * bb > e * 8000, bb > 0, e >= 0;
    }
    let span: u64 = if span128 == 0 {
        1
    } else {
        span128 as u64
    };
    assert(span == spec_span);
    let ghost sil = silences@;
    let ghost tol = tolerance as int;
    let ghost d = duration as int;
    let mut segs: Vec<(u64, u64)> = Vec::new();
    let mut cursor: u64 = 0;
    proof {
        lemma_uniform_from_chained(sil, 0, span as int, tol, d);
    }
    while cursor < duration
        invariant
            cursor <= duration <= MAX_DURATION_MS,
            span >= 1,
            sil == silences@,
            tol == tolerance,
            d == duration,
            segs@ + uniform_from(sil, cursor as int, span as int, tol, d) == uniform_from(sil, 0, span as int, tol, d),
        decreases duration - cursor,
    {
        let ideal: u64 = if span >= duration - cursor {
            duration
        } else {
            cursor + span
        };
        if ideal + 100 >= duration {
            proof {
                assert(uniform_from(sil, cursor as int, span as int, tol, d) == seq![(cursor, duration)]);
                assert(uniform_from(sil, duration as int, span as int, tol, d) =~= seq![]);
            }
            segs.push((cursor, duration));
            proof {
                assert(segs@ + uniform_from(sil, duration as int, span as int, tol, d) =~= segs@);
            }
            cursor = duration;
        } else {
            let lo_a: u64 = if ideal >= tolerance {
                ideal - tolerance
            } else {
                0
            };
            let lo: u64 = if lo_a >= cursor + 1000 {
                lo_a
            } else {
                cursor + 1000
            };
            let hi: u64 = if tolerance >= duration - ideal {
                duration
            } else {
                ideal + tolerance
            };
            assert(lo == window_lo(ideal as int, tol, cursor as int));
            assert(hi == window_hi(ideal as int, tol, d));
            let best = nearest_silence(silences, lo, hi, ideal);
            let cut: u64 = match best {
                Some(i) => {
                    let m = silences[i].midpoint();
                    if m - cursor <= span {
                        m
                    } else {
                        ideal
                    }
                },
                None => ideal,
            };
            proof {
                assert(cut == uniform_cut(sil, cursor as int, span as int, tol, d));
                assert(uniform_from(sil, cursor as int, span as int, tol, d) == seq![(cursor, cut)]
                    + uniform_from(sil, cut as int, span as int, tol, d));
            }
            segs.push((cursor, cut));
            proof {
                assert(segs@ + uniform_from(sil, cut as int, span as int, tol, d) =~= uniform_from(sil, 0, span as int, tol, d));
            }
            cursor = cut;
        }
    }
    proof {
        assert(uniform_from(sil, cursor as int, span as int, tol, d) =~= seq![]);
        assert(segs@ =~= segs@ + uniform_from(sil, cursor as int, span as int, tol, d));
    }
    segs
}

// ---- accurate strategy ----
/// Ideal end of the segment that starts at `c`: where the budget `eff`
/// runs out on the bitrate curve, at most the duration.
pub open spec fn accurate_ideal(m: BitrateMap, c: int, eff: int, d: int) -> int {
    min_int(m.spec_time_for_bytes(c as u64, eff as u64), d)
}

/// Where the accurate strategy would cut the segment that starts at `c`,
/// before the minimum-advance rule: at the nearest silence when the bytes up
/// to it still fit `eff`, else at the ideal end.
pub open spec fn accurate_choice(
    m: BitrateMap,
    sil: Seq<SilenceInterval>,
    c: int,
    eff: int,
    tol: int,
    d: int,
) -> int {
    let ideal = accurate_ideal(m, c, eff, d);
    match nearest_in_window(sil, sil.len() as int, window_lo(ideal, tol, c), window_hi(ideal, tol, d), ideal) {
        Some(i) => if m.spec_bytes_between(c as u64, sil[i].mid() as u64) <= eff {
            sil[i].mid()
        } else {
            ideal
        },
        None => ideal,
    }
}

/// The choice would not advance the cursor by more than half a second, so
/// the minimum-advance rule forces the cut one second on.
pub open spec fn accurate_forced(
    m: BitrateMap,
    sil: Seq<SilenceInterval>,
    c: int,
    eff: int,
    tol: int,
    d: int,
) -> bool {
    accurate_choice(m, sil, c, eff, tol, d) <= c + 500
}

/// Where the accurate strategy cuts the segment that starts at `c`.
pub open spec fn accurate_cut(
    m: BitrateMap,
    sil: Seq<SilenceInterval>,
    c: int,
    eff: int,
    tol: int,
    d: int,
) -> int {
    if accurate_forced(m, sil, c, eff, tol, d) {
        min_int(c + 1000, d)
    } else {
        accurate_choice(m, sil, c, eff, tol, d)
    }
}

/// The segments the accurate strategy emits from cursor `c` on.
pub open spec fn accurate_from(
    m: BitrateMap,
    sil: Seq<SilenceInterval>,
    c: int,
    eff: int,
    tol: int,
    d: int,
) -> Seq<(u64, u64)>
    decreases d - c,
{
    if c < 0 || c >= d {
        seq![]
    } else if accurate_ideal(m, c, eff, d) + 100 >= d {
        seq![(c as u64, d as u64)]
    } else {
        let cut = accurate_cut(m, sil, c, eff, tol, d);
        if c < cut <= d {
            seq![(c as u64, cut as u64)] + accurate_from(m, sil, cut, eff, tol, d)
        } else {
            seq![]
        }
    }
}

/// The whole plan of the accurate strategy.
pub open spec fn accurate_plan(
    duration: u64,
    max_bytes: u64,
    tol: u64,
    sil: Seq<SilenceInterval>,
    m: BitrateMap,
) -> Seq<(u64, u64)> {
    if duration == 0 || max_bytes == 0 || m.points().len() == 0 {
        seq![(0u64, duration)]
    } else if m.spec_bytes_between(0, duration) <= effective_budget(max_bytes) {
        seq![(0u64, duration)]
    } else {
        accurate_from(m, sil, 0, effective_budget(max_bytes), tol as int, duration as int)
    }
}

proof fn lemma_accurate_cut_advances(
    m: BitrateMap,
    sil: Seq<SilenceInterval>,
    c: int,
    eff: int,
    tol: int,
    d: int,
)
    requires
        0 <= c < d,
        accurate_ideal(m, c, eff, d) + 100 < d,
    ensures
        c < accurate_cut(m, sil, c, eff, tol, d) <= d,
{
    let ideal = accurate_ideal(m, c, eff, d);
    crate::silence::lemma_nearest_in_range(sil, sil.len() as int, window_lo(ideal, tol, c), window_hi(ideal, tol, d), ideal);
}

proof fn lemma_accurate_from_chained(
    m: BitrateMap,
    sil: Seq<SilenceInterval>,
    c: int,
    eff: int,
    tol: int,
    d: int,
)
    requires
        0 <= c < d <= MAX_DURATION_MS,
    ensures
        chained(accurate_from(m, sil, c, eff, tol, d), c, d),
    decreases d - c,
{
    if accurate_ideal(m, c, eff, d) + 100 < d {
        lemma_accurate_cut_advances(m, sil, c, eff, tol, d);
        let cut = accurate_cut(m, sil, c, eff, tol, d);
        let rest = accurate_from(m, sil, cut, eff, tol, d);
        let segs = accurate_from(m, sil, c, eff, tol, d);
        assert(segs == seq![(c as u64, cut as u64)] + rest);
        if cut < d {
            lemma_accurate_from_chained(m, sil, cut, eff, tol, d);
            assert(segs[1] == rest[0]);
            assert forall|i: int| 0 <= i < segs.len() - 1 implies #[trigger] segs[i].1 == segs[i + 1].0 by {
                if i > 0 {
                    assert(segs[i] == rest[i - 1]);
                    assert(segs[i + 1] == rest[i]);
                }
            }
            assert forall|i: int| 0 <= i < segs.len() implies #[trigger] segs[i].0 < segs[i].1 by {
                if i > 0 {
                    assert(segs[i] == rest[i - 1]);
                }
            }
        } else {
            assert(rest.len() == 0);
            assert(segs =~= seq![(c as u64, cut as u64)]);
        }
    }
}

/// Cut points for a file of `duration` ms from its bitrate curve, so that
/// each segment fits 98 % of `max_bytes` as measured on the curve, cutting
/// at the middle of a silence found within `tolerance` ms of the ideal cut
/// when the bytes up to it still fit. Every cut advances the cursor by more
/// than half a second; otherwise it is moved one second past the cursor.
pub fn compute_cut_points_accurate(
    duration: u64,
    max_bytes: u64,
    tolerance: u64,
    silences: &[SilenceInterval],
    bitrate_map: &BitrateMap,
) -> (r: Vec<(u64, u64)>)
    requires
        duration <= MAX_DURATION_MS,
        bitrate_map.wf(),
    ensures
        r@ == accurate_plan(duration, max_bytes, tolerance, silences@, *bitrate_map),
        covers(r@, duration as int),
{
    proof {
        lemma_single_covers(duration);
    }
    if duration == 0 || max_bytes == 0 || bitrate_map.is_empty() {
        return vec![(0, duration)];
    }
    let eff: u64 = (max_bytes as u128 * 98 / 100) as u64;
    assert(eff as int == effective_budget(max_bytes));
    if bitrate_map.bytes_between(0, duration) <= eff {
        return vec![(0, duration)];
    }
    let ghost sil = silences@;
    let ghost tol = tolerance as int;
    let ghost d = duration as int;
    let ghost m = *bitrate_map;
    let mut segs: Vec<(u64, u64)> = Vec::new();
    let mut cursor: u64 = 0;
    proof {
        lemma_accurate_from_chained(m, sil, 0, eff as int, tol, d);
    }
    while cursor < duration
        invariant
            cursor <= duration <= MAX_DURATION_MS,
            bitrate_map.wf(),
            bitrate_map.points().len() > 0,
            m == *bitrate_map,
            sil == silences@,
            tol == tolerance,
            d == duration,
            segs@ + accurate_from(m, sil, cursor as int, eff as int, tol, d) == accurate_from(m, sil, 0, eff as int, tol, d),
        decreases duration - cursor,
    {
        let reach = bitrate_map.time_for_bytes(cursor, eff);
        let ideal: u64 = if reach <= duration {
            reach
        } else {
            duration
        };
        assert(ideal == accurate_ideal(m, cursor as int, eff as int, d));
        if ideal + 100 >= duration {
            proof {
                assert(accurate_from(m, sil, cursor as int, eff as int, tol, d) == seq![(cursor, duration)]);
                assert(accurate_from(m, sil, duration as int, eff as int, tol, d) =~= seq![]);
            }
            segs.push((cursor, duration));
            proof {
                assert(segs@ + accurate_from(m, sil, duration as int, eff as int, tol, d) =~= segs@);
            }
            cursor = duration;
        } else {
            let lo_a: u64 = if ideal >= tolerance {
                ideal - tolerance
            } else {
                0
            };
            let lo: u64 = if lo_a >= cursor + 1000 {
                lo_a
            } else {
                cursor + 1000
            };
            let hi: u64 = if tolerance >= duration - ideal {
                duration
            } else {
                ideal + tolerance
            };
            assert(lo == window_lo(ideal as int, tol, cursor as int));
            assert(hi == window_hi(ideal as int, tol, d));
            let best = nearest_silence(silences, lo, hi, ideal);
            let choice: u64 = match best {
                Some(i) => {
                    let mid = silences[i].midpoint();
                    if bitrate_map.bytes_between(cursor, mid) <= eff {
                        mid
                    } else {
                        ideal
                    }
                },
                None => ideal,
            };
            assert(choice == accurate_choice(m, sil, cursor as int, eff as int, tol, d));
            let cut: u64 = if choice <= cursor + 500 {
                if duration - cursor <= 1000 {
                    duration
                } else {
                    cursor + 1000
                }
            } else {
                choice
            };
            proof {
                lemma_accurate_cut_advances(m, sil, cursor as int, eff as int, tol, d);
                assert(cut == accurate_cut(m, sil, cursor as int, eff as int, tol, d));
                assert(accurate_from(m, sil, cursor as int, eff as int, tol, d) == seq![(cursor, cut)]
                    + accurate_from(m, sil, cut as int, eff as int, tol, d));
            }
            segs.push((cursor, cut));
            proof {
                assert(segs@ + accurate_from(m, sil, cut as int, eff as int, tol, d) =~= accurate_from(m, sil, 0, eff as int, tol, d));
            }
            cursor = cut;
        }
    }
    proof {
        assert(accurate_from(m, sil, cursor as int, eff as int, tol, d) =~= seq![]);
        assert(segs@ =~= segs@ + accurate_from(m, sil, cursor as int, eff as int, tol, d));
    }
    segs
}

/// Segment `[s, e]` fits the budget `eff` on the curve, or goes over it
/// only within its last second.
pub open spec fn within_budget(m: BitrateMap, s: u64, e: u64, eff: int) -> bool {
    ||| m.spec_bytes_between(s, e) <= eff
    ||| m.spec_bytes_between(
        s,
        if e >= 1000 {
            (e - 1000) as u64
        } else {
            0
        },
    ) < eff
}

/// Segment `[s, e]` of an accurate plan respects the budget, unless the
/// minimum-advance rule chose its end.
pub open spec fn accurate_segment_ok(
    m: BitrateMap,
    sil: Seq<SilenceInterval>,
    eff: int,
    tol: int,
    d: int,
    s: u64,
    e: u64,
) -> bool {
    ||| within_budget(m, s, e, eff)
    ||| e == d && within_last_two(m, s, e, eff)
    ||| accurate_ideal(m, s as int, eff, d) + 100 < d && accurate_forced(m, sil, s as int, eff, tol, d)
}

/// Segment `[s, e]` exceeds the budget `eff` at most within its last two
/// seconds.
pub open spec fn within_last_two(m: BitrateMap, s: u64, e: u64, eff: int) -> bool {
    m.spec_bytes_between(
        s,
        if e >= 2000 {
            (e - 2000) as u64
        } else {
            0
        },
    ) < eff
}

/// Bytes from `c` up to a point before the one where the budget first runs
/// out stay under the budget.
pub(crate) proof fn lemma_before_reach(m: BitrateMap, c: u64, e: u64, eff: int, j: int)
    requires
        m.wf(),
        m.points().len() > 0,
        eff > 0,
        m.floor_index(c) < j < m.points().len() || j == m.points().len(),
        forall|k: int| m.floor_index(c) < k < j ==> !#[trigger] m.reaches(m.floor_index(c), k, eff as u64),
        m.ceil_index(e) < j,
        eff <= u64::MAX,
    ensures
        m.spec_bytes_between(c, e) < eff,
{
    let base = m.floor_index(c);
    let ci = m.ceil_index(e);
    if ci > base {
        assert(!m.reaches(base, ci, eff as u64));
    }
}

proof fn lemma_accurate_step_ok(
    m: BitrateMap,
    sil: Seq<SilenceInterval>,
    c: int,
    eff: int,
    tol: int,
    d: int,
)
    requires
        m.wf(),
        m.points().len() > 0,
        0 < eff <= u64::MAX,
        0 <= c < d <= MAX_DURATION_MS,
    ensures
        accurate_ideal(m, c, eff, d) + 100 >= d ==> within_budget(m, c as u64, d as u64, eff)
            || within_last_two(m, c as u64, d as u64, eff),
        accurate_ideal(m, c, eff, d) + 100 < d && !accurate_forced(m, sil, c, eff, tol, d) ==> within_budget(
            m,
            c as u64,
            accurate_cut(m, sil, c, eff, tol, d) as u64,
            eff,
        ),
{
    let base = m.floor_index(c as u64);
    let len = m.points().len() as int;
    crate::bitrate::lemma_reach_from(m, base, base + 1, eff as u64);
    let t = m.spec_time_for_bytes(c as u64, eff as u64);
    let ideal = accurate_ideal(m, c, eff, d);
    if ideal + 100 >= d {
        if exists|j: int|
            base + 1 <= j < len && #[trigger] m.reaches(base, j, eff as u64) && t == j * 1000 && forall|
                k: int,
            | base + 1 <= k < j ==> !#[trigger] m.reaches(base, k, eff as u64) {
            let j = choose|j: int|
                base + 1 <= j < len && #[trigger] m.reaches(base, j, eff as u64) && t == j * 1000
                    && forall|k: int| base + 1 <= k < j ==> !#[trigger] m.reaches(base, k, eff as u64);
            if j * 1000 >= d {
                let e2: u64 = if d >= 1000 {
                    (d - 1000) as u64
                } else {
                    0
                };
                assert(crate::bitrate::ceil_secs(e2 as int) <= j - 1);
                lemma_before_reach(m, c as u64, e2, eff, j);
            } else {
                let e3: u64 = if d >= 2000 {
                    (d - 2000) as u64
                } else {
                    0
                };
                assert(crate::bitrate::ceil_secs(e3 as int) <= j - 1);
                lemma_before_reach(m, c as u64, e3, eff, j);
            }
        } else {
            lemma_before_reach(m, c as u64, d as u64, eff, len);
        }
    } else if !accurate_forced(m, sil, c, eff, tol, d) {
        let choice = accurate_choice(m, sil, c, eff, tol, d);
        if choice == ideal {
            if exists|j: int|
                base + 1 <= j < len && #[trigger] m.reaches(base, j, eff as u64) && t == j * 1000
                    && forall|k: int| base + 1 <= k < j ==> !#[trigger] m.reaches(base, k, eff as u64) {
                let j = choose|j: int|
                    base + 1 <= j < len && #[trigger] m.reaches(base, j, eff as u64) && t == j * 1000
                        && forall|k: int| base + 1 <= k < j ==> !#[trigger] m.reaches(base, k, eff as u64);
                assert(ideal == j * 1000);
                let e2: u64 = ((j - 1) * 1000) as u64;
                assert(crate::bitrate::ceil_secs(e2 as int) == j - 1);
                lemma_before_reach(m, c as u64, e2, eff, j);
            } else {
                lemma_before_reach(m, c as u64, ideal as u64, eff, len);
            }
        }
    }
}

proof fn lemma_accurate_from_ok(
    m: BitrateMap,
    sil: Seq<SilenceInterval>,
    c: int,
    eff: int,
    tol: int,
    d: int,
)
    requires
        m.wf(),
        m.points().len() > 0,
        0 < eff <= u64::MAX,
        0 <= c <= d <= MAX_DURATION_MS,
    ensures
        forall|i: int|
            0 <= i < accurate_from(m, sil, c, eff, tol, d).len() ==> accurate_segment_ok(
                m,
                sil,
                eff,
                tol,
                d,
                #[trigger] accurate_from(m, sil, c, eff, tol, d)[i].0,
                accurate_from(m, sil, c, eff, tol, d)[i].1,
            ),
    decreases d - c,
{
    if c < d {
        lemma_accurate_step_ok(m, sil, c, eff, tol, d);
        let segs = accurate_from(m, sil, c, eff, tol, d);
        if accurate_ideal(m, c, eff, d) + 100 < d {
            lemma_accurate_cut_advances(m, sil, c, eff, tol, d);
            let cut = accurate_cut(m, sil, c, eff, tol, d);
            lemma_accurate_from_ok(m, sil, cut, eff, tol, d);
            let rest = accurate_from(m, sil, cut, eff, tol, d);
            assert forall|i: int| 0 <= i < segs.len() implies accurate_segment_ok(
                m,
                sil,
                eff,
                tol,
                d,
                #[trigger] segs[i].0,
                segs[i].1,
            ) by {
                if i > 0 {
                    assert(segs[i] == rest[i - 1]);
                }
            }
        }
    }
}

/// With a bitrate curve, every planned segment fits 98 % of `max_bytes` as
/// measured on the curve, or exceeds it only within its last second (the
/// curve's resolution; the last segment within its last two seconds),
/// unless the minimum-advance rule chose its end.
pub proof fn lemma_accurate_plan_fits_budget(
    duration: u64,
    max_bytes: u64,
    tolerance: u64,
    silences: Seq<SilenceInterval>,
    m: BitrateMap,
)
    requires
        duration <= MAX_DURATION_MS,
        m.wf(),
        m.points().len() > 0,
        effective_budget(max_bytes) > 0,
    ensures
        forall|i: int|
            0 <= i < accurate_plan(duration, max_bytes, tolerance, silences, m).len()
                ==> accurate_segment_ok(
                m,
                silences,
                effective_budget(max_bytes),
                tolerance as int,
                duration as int,
                #[trigger] accurate_plan(duration, max_bytes, tolerance, silences, m)[i].0,
                accurate_plan(duration, max_bytes, tolerance, silences, m)[i].1,
            ),
{
    let eff = effective_budget(max_bytes);
    if duration == 0 || m.spec_bytes_between(0, duration) <= eff {
        assert(m.spec_bytes_between(0, 0) == 0);
    } else {
        lemma_accurate_from_ok(m, silences, 0, eff, tolerance as int, duration as int);
    }
}

/// Width of the silence search window on each side of an ideal cut: 30 s.
pub const SILENCE_TOLERANCE_MS: u64 = 30_000;

/// Cut points for one file: from its bitrate curve when one is available,
/// else from its average bitrate.
pub fn plan_file(
    duration: u64,
    bitrate_bps: u64,
    max_bytes: u64,
    silences: &[SilenceInterval],
    bitrate_map: Option<&BitrateMap>,
) -> (r: Vec<(u64, u64)>)
    requires
        duration <= MAX_DURATION_MS,
        bitrate_map matches Some(m) ==> m.wf(),
    ensures
        r@ == match bitrate_map {
            Some(m) if m.points().len() > 0 => accurate_plan(duration, max_bytes, SILENCE_TOLERANCE_MS, silences@, *m),
            _ => uniform_plan(duration, bitrate_bps, max_bytes, SILENCE_TOLERANCE_MS, silences@),
        },
        covers(r@, duration as int),
{
    match bitrate_map {
        Some(m) => if m.is_empty() {
            compute_cut_points(duration, bitrate_bps, max_bytes, SILENCE_TOLERANCE_MS, silences)
        } else {
            compute_cut_points_accurate(duration, max_bytes, SILENCE_TOLERANCE_MS, silences, m)
        },
        None => compute_cut_points(duration, bitrate_bps, max_bytes, SILENCE_TOLERANCE_MS, silences),
    }
}

} // verus!
