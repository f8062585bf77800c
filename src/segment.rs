//! User-facing segments and the auto-split safety net applied before export.

use vstd::prelude::*;
use vstd::string::StringExecFns;
use crate::bitrate::{BitrateMap, MAX_DURATION_MS};
use crate::planner::{effective_budget, lemma_before_reach, min_int, uniform_span, within_budget};
use crate::text::{decimal, push_decimal};

verus! {

/// A span of a media file to export, in milliseconds.
pub struct SplitSegment {
    pub start_time: u64,
    pub end_time: u64,
    pub label: String,
    pub enabled: bool,
    pub estimated_size_bytes: u64,
}

impl SplitSegment {
    /// An enabled segment with no size estimate yet.
    pub fn new(start_time: u64, end_time: u64, label: String) -> (r: SplitSegment)
        ensures
            r.start_time == start_time,
            r.end_time == end_time,
            r.label == label,
            r.enabled,
            r.estimated_size_bytes == 0,
    {
        SplitSegment { start_time, end_time, label, enabled: true, estimated_size_bytes: 0 }
    }

    pub fn duration(&self) -> (r: u64)
        requires
            self.start_time <= self.end_time,
        ensures
            r == self.end_time - self.start_time,
    {
        self.end_time - self.start_time
    }

    /// A field-for-field copy.
    pub fn duplicate(&self) -> (r: SplitSegment)
        ensures
            r == *self,
    {
        SplitSegment {
            start_time: self.start_time,
            end_time: self.end_time,
            label: self.label.clone(),
            enabled: self.enabled,
            estimated_size_bytes: self.estimated_size_bytes,
        }
    }
}

/// Bytes of `end - start` ms at `bitrate` bits per second, rounded down and
/// capped at `u64::MAX`.
pub open spec fn size_estimate(bitrate: int, start: int, end: int) -> int {
    min_int(bitrate * (end - start) / 8000, u64::MAX as int)
}

pub fn estimate_segment_size(bitrate_bps: u64, start: u64, end: u64) -> (r: u64)
    requires
        start <= end,
    ensures
        r == size_estimate(bitrate_bps as int, start as int, end as int),
{
    let len: u64 = end - start;
    proof {
        let (a, b) = (bitrate_bps as int, len as int);
        assert(a * b <= u64::MAX as int * u64::MAX as int) by (nonlinear_arith)
            requires 0 <= a <= u64::MAX as int, 0 <= b <= u64::MAX as int;
    }
    let bytes: u128 = bitrate_bps as u128 * len as u128 / 8000;
    if bytes > u64::MAX as u128 {
        u64::MAX
    } else {
        bytes as u64
    }
}

/// Total bitrate of a file: the sum of its stream bitrates when known (capped
/// at `u64::MAX`), else the one that is known, else its size over its
/// duration; 0 when nothing is known.
pub fn compute_bitrate(
    video_bitrate: Option<u64>,
    audio_bitrate: Option<u64>,
    file_size: u64,
    duration: u64,
) -> (r: u64)
    ensures
        r == match (video_bitrate, audio_bitrate) {
            (Some(v), Some(a)) => min_int(v + a, u64::MAX as int),
            (Some(v), None) => v as int,
            (None, Some(a)) => a as int,
            (None, None) => if duration > 0 {
                min_int(file_size as int * 8000 / duration as int, u64::MAX as int)
            } else {
                0
            },
        },
{
    match (video_bitrate, audio_bitrate) {
        (Some(v), Some(a)) => if v > u64::MAX - a {
            u64::MAX
        } else {
            v + a
        },
        (Some(v), None) => v,
        (None, Some(a)) => a,
        (None, None) => {
            if duration > 0 {
                let bps: u128 = file_size as u128 * 8000 / duration as u128;
                if bps > u64::MAX as u128 {
                    u64::MAX
                } else {
                    bps as u64
                }
            } else {
                0
            }
        },
    }
}

/// Label of part `k` of `n` of a segment labelled `base`: `"base (k/n)"`.
pub open spec fn part_label(base: Seq<char>, k: nat, n: nat) -> Seq<char> {
    base + seq![' ', '('] + decimal(k) + seq!['/'] + decimal(n) + seq![')']
}

fn make_part_label(base: &String, k: u64, n: u64) -> (r: String)
    ensures
        r@ == part_label(base@, k as nat, n as nat),
{
    let mut s = base.clone();
    s.append(" (");
    push_decimal(&mut s, k);
    s.append("/");
    push_decimal(&mut s, n);
    s.append(")");
    proof {
        reveal_strlit(" (");
        reveal_strlit("/");
        reveal_strlit(")");
    }
    assert(s@ =~= part_label(base@, k as nat, n as nat));
    s
}

/// Bounds of the parts cut from `[c, e]` by walking the bitrate curve with a
/// budget of `eff` bytes per part. Every part advances at least half a
/// second (else one second), and a remainder under a second joins the last
/// part.
pub open spec fn map_parts_from(m: BitrateMap, c: int, eff: int, e: int) -> Seq<(u64, u64)>
    decreases e - c,
{
    if c < 0 || c + 100 >= e {
        seq![]
    } else {
        let t = min_int(m.spec_time_for_bytes(c as u64, eff as u64), e);
        let cut = if t <= c + 500 {
            min_int(c + 1000, e)
        } else {
            t
        };
        let end = if e - cut < 1000 {
            e
        } else {
            cut
        };
        if c < end <= e {
            seq![(c as u64, end as u64)] + map_parts_from(m, end, eff, e)
        } else {
            seq![]
        }
    }
}

/// Number of parts of `span` ms needed to cover `len` ms.
pub open spec fn parts_needed(len: int, span: int) -> int {
    (len + span - 1) / span
}

/// Bounds of the equal parts of `span` ms that cover `[s, e]`, the last one
/// cut short at `e`.
pub open spec fn uniform_parts(s: int, e: int, span: int) -> Seq<(u64, u64)> {
    Seq::new(
        parts_needed(e - s, span) as nat,
        |i: int| ((s + i * span) as u64, min_int(s + (i + 1) * span, e) as u64),
    )
}

/// `parts` are the pieces of `seg` with the given bounds, labelled
/// `"label (k/n)"`, each enabled when `seg` is.
pub open spec fn labelled_parts(parts: Seq<SplitSegment>, seg: SplitSegment, bounds: Seq<(u64, u64)>) -> bool {
    &&& parts.len() == bounds.len()
    &&& forall|k: int|
        0 <= k < parts.len() ==> {
            &&& (#[trigger] parts[k]).start_time == bounds[k].0
            &&& parts[k].end_time == bounds[k].1
            &&& parts[k].label@ == part_label(seg.label@, (k + 1) as nat, parts.len() as nat)
            &&& parts[k].enabled == seg.enabled
        }
}

/// The size of a segment used to decide on splitting: from the curve when
/// one is available, else its stored estimate.
pub open spec fn real_size(seg: SplitSegment, map: Option<&BitrateMap>) -> int {
    match map {
        Some(m) => if m.points().len() > 0 {
            m.spec_bytes_between(seg.start_time, seg.end_time)
        } else {
            seg.estimated_size_bytes as int
        },
        None => seg.estimated_size_bytes as int,
    }
}

proof fn lemma_map_parts_step(m: BitrateMap, c: int, eff: int, e: int)
    requires
        0 <= c,
        c + 100 < e <= MAX_DURATION_MS,
    ensures
        ({
            let segs = map_parts_from(m, c, eff, e);
            &&& segs.len() > 0
            &&& segs[0].0 == c
            &&& c < segs[0].1 <= e
            &&& segs[0].1 == e || segs[0].1 + 1000 <= e
            &&& segs == seq![segs[0]] + map_parts_from(m, segs[0].1 as int, eff, e)
        }),
{
    let t = min_int(m.spec_time_for_bytes(c as u64, eff as u64), e);
    let cut = if t <= c + 500 {
        min_int(c + 1000, e)
    } else {
        t
    };
    let end = if e - cut < 1000 {
        e
    } else {
        cut
    };
    assert(c < end <= e);
    let segs = map_parts_from(m, c, eff, e);
    assert(segs == seq![(c as u64, end as u64)] + map_parts_from(m, end, eff, e));
    assert(segs[0] == (c as u64, end as u64));
    assert(segs =~= seq![segs[0]] + map_parts_from(m, segs[0].1 as int, eff, e));
}

fn split_by_map(segment: &SplitSegment, eff: u64, bm: &BitrateMap) -> (r: Vec<SplitSegment>)
    requires
        bm.wf(),
        bm.points().len() > 0,
        segment.start_time <= segment.end_time <= MAX_DURATION_MS,
    ensures
        labelled_parts(r@, *segment, map_parts_from(*bm, segment.start_time as int, eff as int, segment.end_time as int)),
        forall|k: int|
            0 <= k < r@.len() ==> (#[trigger] r@[k]).estimated_size_bytes == bm.spec_bytes_between(
                r@[k].start_time,
                r@[k].end_time,
            ),
{
    let e = segment.end_time;
    let ghost full = map_parts_from(*bm, segment.start_time as int, eff as int, e as int);
    let mut bounds: Vec<(u64, u64)> = Vec::new();
    let mut cursor = segment.start_time;
    while cursor + 100 < e
        invariant
            segment.start_time <= cursor <= e <= MAX_DURATION_MS,
            e == segment.end_time,
            bm.wf(),
            bm.points().len() > 0,
            bounds@ + map_parts_from(*bm, cursor as int, eff as int, e as int) == full,
        decreases e - cursor,
    {
        let t0 = bm.time_for_bytes(cursor, eff);
        let t: u64 = if t0 <= e {
            t0
        } else {
            e
        };
        let cut: u64 = if t <= cursor + 500 {
            if e - cursor <= 1000 {
                e
            } else {
                cursor + 1000
            }
        } else {
            t
        };
        let end: u64 = if e - cut < 1000 {
            e
        } else {
            cut
        };
        proof {
            lemma_map_parts_step(*bm, cursor as int, eff as int, e as int);
        }
        bounds.push((cursor, end));
        proof {
            assert(bounds@ + map_parts_from(*bm, end as int, eff as int, e as int) =~= full);
        }
        cursor = end;
    }
    proof {
        assert(map_parts_from(*bm, cursor as int, eff as int, e as int) =~= seq![]);
        assert(bounds@ =~= full);
    }
    let n: usize = bounds.len();
    let mut parts: Vec<SplitSegment> = Vec::new();
    let mut k: usize = 0;
    while k < n
        invariant
            n == bounds@.len(),
            bounds@ == full,
            k <= n,
            parts@.len() == k,
            bm.wf(),
            bm.points().len() > 0,
            forall|j: int|
                0 <= j < k ==> {
                    &&& (#[trigger] parts@[j]).start_time == bounds@[j].0
                    &&& parts@[j].end_time == bounds@[j].1
                    &&& parts@[j].label@ == part_label(segment.label@, (j + 1) as nat, n as nat)
                    &&& parts@[j].enabled == segment.enabled
                    &&& parts@[j].estimated_size_bytes == bm.spec_bytes_between(
                        parts@[j].start_time,
                        parts@[j].end_time,
                    )
                },
        decreases n - k,
    {
        let (s, en) = bounds[k];
        let label = make_part_label(&segment.label, (k + 1) as u64, n as u64);
        let size = bm.bytes_between(s, en);
        parts.push(
            SplitSegment {
                start_time: s,
                end_time: en,
                label,
                enabled: segment.enabled,
                estimated_size_bytes: size,
            },
        );
        k = k + 1;
    }
    parts
}

fn split_uniform(segment: &SplitSegment, eff: u64, bitrate_bps: u64) -> (r: Vec<SplitSegment>)
    requires
        bitrate_bps > 0,
        segment.start_time <= segment.end_time <= MAX_DURATION_MS,
    ensures
        labelled_parts(
            r@,
            *segment,
            uniform_parts(
                segment.start_time as int,
                segment.end_time as int,
                uniform_span(eff as int, bitrate_bps as int),
            ),
        ),
        forall|k: int|
            0 <= k < r@.len() ==> (#[trigger] r@[k]).estimated_size_bytes == size_estimate(
                bitrate_bps as int,
                r@[k].start_time as int,
                r@[k].end_time as int,
            ),
{
    let s = segment.start_time;
    let e = segment.end_time;
    let span128: u128 = eff as u128 * 8000 / bitrate_bps as u128;
    let span: u64 = if span128 == 0 {
        1
    } else if span128 > MAX_DURATION_MS as u128 {
        MAX_DURATION_MS + 1
    } else {
        span128 as u64
    };
    let ghost sspan = uniform_span(eff as int, bitrate_bps as int);
    let len: u64 = e - s;
    let n: u64 = (len + span - 1) / span;
    proof {
        if span128 > MAX_DURATION_MS as u128 {
            assert(sspan > MAX_DURATION_MS);
            assert(parts_needed(len as int, sspan) == parts_needed(len as int, span as int)) by {
                if len == 0 {
                    assert((span - 1) as int / span as int == 0) by (nonlinear_arith)
                        requires span >= 1;
                    assert((sspan - 1) / sspan == 0) by (nonlinear_arith)
                        requires sspan >= 1;
                } else {
                    assert((len + span - 1) as int / span as int == 1) by (nonlinear_arith)
                        requires 1 <= len <= span;
                    assert((len + sspan - 1) / sspan == 1) by (nonlinear_arith)
                        requires 1 <= len <= sspan;
                }
            }
        }
    }
    let ghost bounds = uniform_parts(s as int, e as int, sspan);
    let mut parts: Vec<SplitSegment> = Vec::new();
    let mut i: u64 = 0;
    while i < n
        invariant
            n == parts_needed(len as int, span as int),
            n == bounds.len(),
            len == e - s,
            s == segment.start_time,
            e == segment.end_time,
            e <= MAX_DURATION_MS,
            span >= 1,
            span <= MAX_DURATION_MS + 1,
            i <= n,
            parts@.len() == i,
            bounds == uniform_parts(s as int, e as int, sspan),
            span == sspan || (span > MAX_DURATION_MS && sspan > MAX_DURATION_MS && n <= 1),
            sspan >= 1,
            forall|j: int|
                0 <= j < i ==> {
                    &&& (#[trigger] parts@[j]).start_time == bounds[j].0
                    &&& parts@[j].end_time == bounds[j].1
                    &&& parts@[j].label@ == part_label(segment.label@, (j + 1) as nat, n as nat)
                    &&& parts@[j].enabled == segment.enabled
                    &&& parts@[j].estimated_size_bytes == size_estimate(
                        bitrate_bps as int,
                        parts@[j].start_time as int,
                        parts@[j].end_time as int,
                    )
                },
        decreases n - i,
    {
        proof {
            let (ii, nn, ll, sp) = (i as int, n as int, len as int, span as int);
            assert(ii * sp < ll) by (nonlinear_arith)
                requires ii < nn, nn == (ll + sp - 1) / sp, sp >= 1;
        }
        proof {
            let (ii, sp) = (i as int, span as int);
            assert((ii + 1) * sp == ii * sp + sp) by (nonlinear_arith);
        }
        let start: u64 = s + i * span;
        let end: u64 = if (i + 1) * span >= len {
            e
        } else {
            s + (i + 1) * span
        };
        proof {
            if span != sspan {
                assert(i == 0);
            }
            assert(bounds[i as int] == (start, end));
        }
        let label = make_part_label(&segment.label, i + 1, n);
        let size = estimate_segment_size(bitrate_bps, start, end);
        parts.push(
            SplitSegment {
                start_time: start,
                end_time: end,
                label,
                enabled: segment.enabled,
                estimated_size_bytes: size,
            },
        );
        i = i + 1;
    }
    parts
}

/// `parts` is what splitting `seg` to fit `max_bytes` gives: `seg` itself
/// when it fits or the budget is 0; else parts cut along the bitrate curve
/// when one is available, else equal parts at `bitrate` (or `seg` itself
/// when the bitrate is 0).
pub open spec fn split_ok(
    seg: SplitSegment,
    parts: Seq<SplitSegment>,
    max_bytes: u64,
    bitrate_bps: u64,
    bitrate_map: Option<&BitrateMap>,
) -> bool {
    &&& (max_bytes == 0 || real_size(seg, bitrate_map) <= max_bytes ==> parts == seq![seg])
    &&& (max_bytes > 0 && real_size(seg, bitrate_map) > max_bytes ==> match bitrate_map {
            Some(m) if m.points().len() > 0 => {
                &&& labelled_parts(
                    parts,
                    seg,
                    map_parts_from(
                        *m,
                        seg.start_time as int,
                        effective_budget(max_bytes),
                        seg.end_time as int,
                    ),
                )
                &&& forall|k: int|
                    0 <= k < parts.len() ==> (#[trigger] parts[k]).estimated_size_bytes
                        == m.spec_bytes_between(parts[k].start_time, parts[k].end_time)
            },
            _ => if bitrate_bps == 0 {
                parts == seq![seg]
            } else {
                &&& labelled_parts(
                    parts,
                    seg,
                    uniform_parts(
                        seg.start_time as int,
                        seg.end_time as int,
                        uniform_span(effective_budget(max_bytes), bitrate_bps as int),
                    ),
                )
                &&& forall|k: int|
                    0 <= k < parts.len() ==> (#[trigger] parts[k]).estimated_size_bytes == size_estimate(
                        bitrate_bps as int,
                        parts[k].start_time as int,
                        parts[k].end_time as int,
                    )
            },
        })
}

fn unchanged(segment: &SplitSegment) -> (r: Vec<SplitSegment>)
    ensures
        r@ == seq![*segment],
{
    let r = vec![segment.duplicate()];
    assert(r@ =~= seq![*segment]);
    r
}

/// Re-splits `segment` into parts that fit `max_bytes` when its size (from
/// the bitrate curve when one is available, else its stored estimate) is
/// over it. With a curve, parts are cut by walking the curve with 98 % of
/// the budget; without one, into equal parts at `bitrate_bps`. A segment
/// that already fits, or a budget of 0, leaves the segment as it is.
pub fn auto_split_segment(
    segment: &SplitSegment,
    max_bytes: u64,
    bitrate_bps: u64,
    bitrate_map: Option<&BitrateMap>,
) -> (r: Vec<SplitSegment>)
    requires
        segment.start_time <= segment.end_time <= MAX_DURATION_MS,
        bitrate_map matches Some(m) ==> m.wf(),
    ensures
        max_bytes == 0 || real_size(*segment, bitrate_map) <= max_bytes ==> r@ == seq![*segment],
        split_ok(*segment, r@, max_bytes, bitrate_bps, bitrate_map),
{
    if max_bytes == 0 {
        return unchanged(segment);
    }
    let usable: Option<&BitrateMap> = match bitrate_map {
        Some(m) => if m.is_empty() {
            None
        } else {
            Some(m)
        },
        None => None,
    };
    let real_bytes: u64 = match usable {
        Some(m) => m.bytes_between(segment.start_time, segment.end_time),
        None => segment.estimated_size_bytes,
    };
    if real_bytes <= max_bytes {
        return unchanged(segment);
    }
    let eff: u64 = (max_bytes as u128 * 98 / 100) as u64;
    match usable {
        Some(m) => split_by_map(segment, eff, m),
        None => {
            if bitrate_bps == 0 {
                return unchanged(segment);
            }
            split_uniform(segment, eff, bitrate_bps)
        },
    }
}

/// `"Segment k"`.
pub open spec fn segment_label(k: nat) -> Seq<char> {
    seq!['S', 'e', 'g', 'm', 'e', 'n', 't', ' '] + decimal(k)
}

pub fn make_segment_label(k: u64) -> (r: String)
    ensures
        r@ == segment_label(k as nat),
{
    let mut s = String::from_str("Segment ");
    proof {
        reveal_strlit("Segment ");
    }
    push_decimal(&mut s, k);
    assert(s@ =~= segment_label(k as nat));
    s
}

/// Size of `[s, e]` from the curve when one is available, else at `bitrate`.
pub open spec fn segment_size(map: Option<&BitrateMap>, bitrate: u64, s: u64, e: u64) -> int {
    match map {
        Some(m) if m.points().len() > 0 => m.spec_bytes_between(s, e),
        _ => size_estimate(bitrate as int, s as int, e as int),
    }
}

/// `segs` are enabled segments `"Segment 1"`, `"Segment 2"`, ... spanning
/// the cut points, sized from the curve when one is available, else from
/// the bitrate.
pub open spec fn segments_for_cuts(
    segs: Seq<SplitSegment>,
    cuts: Seq<(u64, u64)>,
    bitrate_bps: u64,
    bitrate_map: Option<&BitrateMap>,
) -> bool {
    &&& segs.len() == cuts.len()
    &&& forall|i: int|
        0 <= i < segs.len() ==> {
            &&& (#[trigger] segs[i]).start_time == cuts[i].0
            &&& segs[i].end_time == cuts[i].1
            &&& segs[i].label@ == segment_label((i + 1) as nat)
            &&& segs[i].enabled
            &&& segs[i].estimated_size_bytes == segment_size(bitrate_map, bitrate_bps, cuts[i].0, cuts[i].1)
        }
}

/// Enabled segments `"Segment 1"`, `"Segment 2"`, ... for the given cut
/// points, with sizes from the curve when one is available, else from the
/// average bitrate.
pub fn segments_from_cuts(cuts: &Vec<(u64, u64)>, bitrate_bps: u64, bitrate_map: Option<&BitrateMap>) -> (r: Vec<
    SplitSegment,
>)
    requires
        forall|i: int| 0 <= i < cuts@.len() ==> (#[trigger] cuts@[i]).0 <= cuts@[i].1,
        bitrate_map matches Some(m) ==> m.wf(),
    ensures
        segments_for_cuts(r@, cuts@, bitrate_bps, bitrate_map),
{
    let mut out: Vec<SplitSegment> = Vec::new();
    let mut i: usize = 0;
    while i < cuts.len()
        invariant
            i <= cuts@.len(),
            out@.len() == i,
            forall|i: int| 0 <= i < cuts@.len() ==> (#[trigger] cuts@[i]).0 <= cuts@[i].1,
            bitrate_map matches Some(m) ==> m.wf(),
            forall|j: int|
                0 <= j < i ==> {
                    &&& (#[trigger] out@[j]).start_time == cuts@[j].0
                    &&& out@[j].end_time == cuts@[j].1
                    &&& out@[j].label@ == segment_label((j + 1) as nat)
                    &&& out@[j].enabled
                    &&& out@[j].estimated_size_bytes == segment_size(bitrate_map, bitrate_bps, cuts@[j].0, cuts@[j].1)
                },
        decreases cuts@.len() - i,
    {
        let (s, e) = cuts[i];
        let size: u64 = match bitrate_map {
            Some(m) => if m.is_empty() {
                estimate_segment_size(bitrate_bps, s, e)
            } else {
                m.bytes_between(s, e)
            },
            None => estimate_segment_size(bitrate_bps, s, e),
        };
        let label = make_segment_label((i + 1) as u64);
        out.push(
            SplitSegment { start_time: s, end_time: e, label, enabled: true, estimated_size_bytes: size },
        );
        i = i + 1;
    }
    out
}

/// Where the curve walk from `c` would cut before the minimum advance.
pub open spec fn map_reach(m: BitrateMap, c: int, eff: int, e: int) -> int {
    min_int(m.spec_time_for_bytes(c as u64, eff as u64), e)
}

/// The part starting at `c` was moved one second on by the minimum-advance
/// rule.
pub open spec fn map_forced(m: BitrateMap, c: int, eff: int, e: int) -> bool {
    map_reach(m, c, eff, e) <= c + 500
}

/// The part starting at `c` took in a remainder under a second at the end.
pub open spec fn map_absorbed(m: BitrateMap, c: int, eff: int, e: int) -> bool {
    let cut = if map_forced(m, c, eff, e) {
        min_int(c + 1000, e)
    } else {
        map_reach(m, c, eff, e)
    };
    cut < e && e - cut < 1000
}

proof fn lemma_map_parts_ok(m: BitrateMap, c: int, eff: int, e: int)
    requires
        m.wf(),
        m.points().len() > 0,
        0 < eff <= u64::MAX,
        0 <= c <= e <= MAX_DURATION_MS,
    ensures
        forall|k: int|
            0 <= k < map_parts_from(m, c, eff, e).len() ==> {
                let p = #[trigger] map_parts_from(m, c, eff, e)[k];
                ||| within_budget(m, p.0, p.1, eff)
                ||| map_forced(m, p.0 as int, eff, e)
                ||| map_absorbed(m, p.0 as int, eff, e)
            },
    decreases e - c,
{
    if c + 100 < e {
        lemma_map_parts_step(m, c, eff, e);
        let segs = map_parts_from(m, c, eff, e);
        let end = segs[0].1 as int;
        lemma_map_parts_ok(m, end, eff, e);
        if !map_forced(m, c, eff, e) && !map_absorbed(m, c, eff, e) {
            let base = m.floor_index(c as u64);
            let len = m.points().len() as int;
            crate::bitrate::lemma_reach_from(m, base, base + 1, eff as u64);
            let t = m.spec_time_for_bytes(c as u64, eff as u64);
            if exists|j: int|
                base + 1 <= j < len && #[trigger] m.reaches(base, j, eff as u64) && t == j * 1000
                    && forall|k: int| base + 1 <= k < j ==> !#[trigger] m.reaches(base, k, eff as u64) {
                let j = choose|j: int|
                    base + 1 <= j < len && #[trigger] m.reaches(base, j, eff as u64) && t == j * 1000
                        && forall|k: int| base + 1 <= k < j ==> !#[trigger] m.reaches(base, k, eff as u64);
                let e2: u64 = if end >= 1000 {
                    (end - 1000) as u64
                } else {
                    0
                };
                assert(end <= j * 1000);
                assert(crate::bitrate::ceil_secs(e2 as int) <= j - 1);
                lemma_before_reach(m, c as u64, e2, eff, j);
            } else {
                lemma_before_reach(m, c as u64, end as u64, eff, len);
            }
        }
        assert forall|k: int| 0 <= k < segs.len() implies {
            let p = #[trigger] segs[k];
            ||| within_budget(m, p.0, p.1, eff)
            ||| map_forced(m, p.0 as int, eff, e)
            ||| map_absorbed(m, p.0 as int, eff, e)
        } by {
            if k > 0 {
                assert(segs[k] == map_parts_from(m, end, eff, e)[k - 1]);
            }
        }
    }
}

/// Parts cut along a bitrate curve each fit 98 % of the budget as measured
/// on the curve, or exceed it only within their last second (the curve's
/// resolution), unless the minimum-advance rule moved their end or they
/// took in a remainder under a second at the end of the segment.
pub proof fn lemma_split_parts_fit_budget(
    seg: SplitSegment,
    parts: Seq<SplitSegment>,
    max_bytes: u64,
    bitrate_bps: u64,
    m: BitrateMap,
)
    requires
        split_ok(seg, parts, max_bytes, bitrate_bps, Some(&m)),
        m.wf(),
        m.points().len() > 0,
        effective_budget(max_bytes) > 0,
        real_size(seg, Some(&m)) > max_bytes,
        seg.start_time <= seg.end_time <= MAX_DURATION_MS,
    ensures
        forall|k: int|
            0 <= k < parts.len() ==> {
                ||| within_budget(m, (#[trigger] parts[k]).start_time, parts[k].end_time, effective_budget(max_bytes))
                ||| map_forced(m, parts[k].start_time as int, effective_budget(max_bytes), seg.end_time as int)
                ||| map_absorbed(m, parts[k].start_time as int, effective_budget(max_bytes), seg.end_time as int)
            },
{
    let eff = effective_budget(max_bytes);
    let bounds = map_parts_from(m, seg.start_time as int, eff, seg.end_time as int);
    lemma_map_parts_ok(m, seg.start_time as int, eff, seg.end_time as int);
    assert forall|k: int| 0 <= k < parts.len() implies {
        ||| within_budget(m, (#[trigger] parts[k]).start_time, parts[k].end_time, eff)
        ||| map_forced(m, parts[k].start_time as int, eff, seg.end_time as int)
        ||| map_absorbed(m, parts[k].start_time as int, eff, seg.end_time as int)
    } by {
        assert(parts[k].start_time == bounds[k].0 && parts[k].end_time == bounds[k].1);
    }
}

} // verus!
