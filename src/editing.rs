//! Editing a file's segment list: adding, removing and splitting segments,
//! and recomputing their labels and size estimates.

use vstd::prelude::*;
use crate::bitrate::BitrateMap;
use crate::segment::{
    estimate_segment_size, make_segment_label, segment_label, segment_size, SplitSegment,
};

verus! {

/// Why an edit was refused; the list is then left as it was.
#[derive(Clone, Copy, Debug, PartialEq, Eq, Structural)]
pub enum EditError {
    /// The out point is not after the in point.
    InvalidRange,
    /// No segment has that index.
    NoSuchSegment,
    /// The split time is not strictly inside the segment.
    OutsideSegment,
}

/// Start, end and enabled flag of each segment.
pub open spec fn shape_of(s: Seq<SplitSegment>) -> Seq<(u64, u64, bool)> {
    s.map_values(|x: SplitSegment| (x.start_time, x.end_time, x.enabled))
}

/// Size estimate of each segment.
pub open spec fn sizes_of(s: Seq<SplitSegment>) -> Seq<u64> {
    s.map_values(|x: SplitSegment| x.estimated_size_bytes)
}

/// Segments are labelled `"Segment 1"`, `"Segment 2"`, ... in order.
pub open spec fn numbered(s: Seq<SplitSegment>) -> bool {
    forall|i: int| 0 <= i < s.len() ==> (#[trigger] s[i]).label@ == segment_label((i + 1) as nat)
}

/// Each size is estimated from the curve when one is available, else from
/// the bitrate.
pub open spec fn sized(s: Seq<SplitSegment>, map: Option<&BitrateMap>, bitrate: u64) -> bool {
    forall|i: int|
        0 <= i < s.len() ==> (#[trigger] s[i]).estimated_size_bytes == segment_size(
            map,
            bitrate,
            s[i].start_time,
            s[i].end_time,
        )
}

pub open spec fn ordered(s: Seq<SplitSegment>) -> bool {
    forall|i: int| 0 <= i < s.len() ==> (#[trigger] s[i]).start_time <= s[i].end_time
}

fn rebuild(
    segs: &Vec<SplitSegment>,
    resize: bool,
    map: Option<&BitrateMap>,
    bitrate: u64,
) -> (r: Vec<SplitSegment>)
    requires
        segs@.len() < u64::MAX,
        ordered(segs@),
        map matches Some(m) ==> m.wf(),
    ensures
        shape_of(r@) == shape_of(segs@),
        numbered(r@),
        resize ==> sized(r@, map, bitrate),
        !resize ==> sizes_of(r@) == sizes_of(segs@),
        ordered(r@),
{
    let mut out: Vec<SplitSegment> = Vec::new();
    let mut i: usize = 0;
    while i < segs.len()
        invariant
            i <= segs@.len() < u64::MAX,
            ordered(segs@),
            map matches Some(m) ==> m.wf(),
            out@.len() == i,
            forall|k: int|
                0 <= k < i ==> {
                    &&& (#[trigger] out@[k]).start_time == segs@[k].start_time
                    &&& out@[k].end_time == segs@[k].end_time
                    &&& out@[k].enabled == segs@[k].enabled
                    &&& out@[k].label@ == segment_label((k + 1) as nat)
                    &&& out@[k].estimated_size_bytes == if resize {
                        segment_size(map, bitrate, segs@[k].start_time, segs@[k].end_time)
                    } else {
                        segs@[k].estimated_size_bytes as int
                    }
                },
        decreases segs@.len() - i,
    {
        let s = &segs[i];
        let size: u64 = if resize {
            match map {
                Some(m) => if m.is_empty() {
                    estimate_segment_size(bitrate, s.start_time, s.end_time)
                } else {
                    m.bytes_between(s.start_time, s.end_time)
                },
                None => estimate_segment_size(bitrate, s.start_time, s.end_time),
            }
        } else {
            s.estimated_size_bytes
        };
        let label = make_segment_label((i + 1) as u64);
        out.push(
            SplitSegment {
                start_time: s.start_time,
                end_time: s.end_time,
                label,
                enabled: s.enabled,
                estimated_size_bytes: size,
            },
        );
        i = i + 1;
    }
    assert(shape_of(out@) =~= shape_of(segs@));
    assert(sizes_of(out@) =~= sizes_of(segs@) || resize);
    out
}

/// Appends the segment `[in_point, out_point]`, labelled after its
/// position, with a size estimated at `bitrate_bps`; returns its index.
pub fn add_segment(segments: &mut Vec<SplitSegment>, in_point: u64, out_point: u64, bitrate_bps: u64) -> (r:
    Result<usize, EditError>)
    requires
        old(segments)@.len() < usize::MAX,
    ensures
        out_point <= in_point ==> r == Err::<usize, EditError>(EditError::InvalidRange) && final(segments)@
            == old(segments)@,
        out_point > in_point ==> {
            &&& r == Ok::<usize, EditError>(old(segments)@.len() as usize)
            &&& final(segments)@.drop_last() == old(segments)@
            &&& final(segments)@.len() == old(segments)@.len() + 1
            &&& ({
                let s = final(segments)@.last();
                &&& s.start_time == in_point
                &&& s.end_time == out_point
                &&& s.enabled
                &&& s.label@ == segment_label((old(segments)@.len() + 1) as nat)
                &&& s.estimated_size_bytes == crate::segment::size_estimate(
                    bitrate_bps as int,
                    in_point as int,
                    out_point as int,
                )
            })
        },
{
    if out_point <= in_point {
        return Err(EditError::InvalidRange);
    }
    let n = segments.len();
    let mut s = SplitSegment::new(in_point, out_point, make_segment_label((n + 1) as u64));
    s.estimated_size_bytes = estimate_segment_size(bitrate_bps, in_point, out_point);
    segments.push(s);
    assert(final(segments)@.drop_last() =~= old(segments)@);
    Ok(n)
}

/// Removes segment `index` when there is one, relabels the rest after their
/// positions, and returns the selection: none when the list is empty, the
/// last segment when the selection fell off the end, else unchanged.
pub fn remove_segment(segments: &mut Vec<SplitSegment>, selected: Option<usize>, index: usize) -> (r:
    Option<usize>)
    requires
        ordered(old(segments)@),
    ensures
        index >= old(segments)@.len() ==> final(segments)@ == old(segments)@ && r == selected,
        index < old(segments)@.len() ==> {
            &&& shape_of(final(segments)@) == shape_of(old(segments)@.remove(index as int))
            &&& sizes_of(final(segments)@) == sizes_of(old(segments)@.remove(index as int))
            &&& numbered(final(segments)@)
            &&& r == if final(segments)@.len() == 0 {
                None
            } else {
                match selected {
                    Some(sel) => if sel >= final(segments)@.len() {
                        Some((final(segments)@.len() - 1) as usize)
                    } else {
                        Some(sel)
                    },
                    None => None,
                }
            }
        },
        ordered(final(segments)@),
{
    if index >= segments.len() {
        return selected;
    }
    segments.remove(index);
    let fresh = rebuild(segments, false, None, 0);
    *segments = fresh;
    if segments.len() == 0 {
        None
    } else {
        match selected {
            Some(sel) => if sel >= segments.len() {
                Some(segments.len() - 1)
            } else {
                Some(sel)
            },
            None => None,
        }
    }
}

/// Splits segment `index` at `time`, strictly inside it, into two enabled
/// halves; then relabels every segment after its position and estimates
/// every size afresh, from the curve when one is available, else at
/// `bitrate_bps`.
pub fn split_segment_at(
    segments: &mut Vec<SplitSegment>,
    index: usize,
    time: u64,
    bitrate_bps: u64,
    bitrate_map: Option<&BitrateMap>,
) -> (r: Result<(), EditError>)
    requires
        ordered(old(segments)@),
        old(segments)@.len() < usize::MAX - 1,
        bitrate_map matches Some(m) ==> m.wf(),
    ensures
        index >= old(segments)@.len() ==> r == Err::<(), EditError>(EditError::NoSuchSegment) && final(segments)@
            == old(segments)@,
        index < old(segments)@.len() && (time <= old(segments)@[index as int].start_time || time
            >= old(segments)@[index as int].end_time) ==> r == Err::<(), EditError>(EditError::OutsideSegment)
            && final(segments)@ == old(segments)@,
        index < old(segments)@.len() && old(segments)@[index as int].start_time < time
            < old(segments)@[index as int].end_time ==> {
            let o = old(segments)@[index as int];
            &&& r is Ok
            &&& shape_of(final(segments)@) == shape_of(old(segments)@).take(index as int) + seq![
                (o.start_time, time, true),
                (time, o.end_time, true),
            ] + shape_of(old(segments)@).skip(index as int + 1)
            &&& numbered(final(segments)@)
            &&& sized(final(segments)@, bitrate_map, bitrate_bps)
        },
        ordered(final(segments)@),
{
    if index >= segments.len() {
        return Err(EditError::NoSuchSegment);
    }
    let start = segments[index].start_time;
    let end = segments[index].end_time;
    if time <= start || time >= end {
        return Err(EditError::OutsideSegment);
    }
    let ghost o = segments@;
    segments.remove(index);
    segments.insert(index, SplitSegment::new(time, end, String::new()));
    segments.insert(index, SplitSegment::new(start, time, String::new()));
    assert(shape_of(segments@) =~= shape_of(o).take(index as int) + seq![(start, time, true), (time, end, true)]
        + shape_of(o).skip(index as int + 1));
    assert forall|i: int| 0 <= i < segments@.len() implies (#[trigger] segments@[i]).start_time <= segments@[i].end_time by {
        assert(shape_of(segments@)[i] == (segments@[i].start_time, segments@[i].end_time, segments@[i].enabled));
        if i < index {
            assert(shape_of(o)[i] == (o[i].start_time, o[i].end_time, o[i].enabled));
        } else if i > index + 1 {
            assert(shape_of(o)[i - 1] == (o[i - 1].start_time, o[i - 1].end_time, o[i - 1].enabled));
        }
    }
    let fresh = rebuild(segments, true, bitrate_map, bitrate_bps);
    *segments = fresh;
    Ok(())
}

/// Estimates every size afresh, from the curve when one is available, else
/// at `bitrate_bps`, and relabels the segments after their positions.
pub fn recalculate_sizes(segments: &mut Vec<SplitSegment>, bitrate_bps: u64, bitrate_map: Option<&BitrateMap>)
    requires
        ordered(old(segments)@),
        old(segments)@.len() < u64::MAX,
        bitrate_map matches Some(m) ==> m.wf(),
    ensures
        shape_of(final(segments)@) == shape_of(old(segments)@),
        numbered(final(segments)@),
        sized(final(segments)@, bitrate_map, bitrate_bps),
        ordered(final(segments)@),
{
    let fresh = rebuild(segments, true, bitrate_map, bitrate_bps);
    *segments = fresh;
}

} // verus!
