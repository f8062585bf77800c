//! What an export queues: the enabled segments, each split to fit the size
//! budget, and the names of the files they are written to.

use vstd::prelude::*;
use vstd::string::StringExecFns;
use crate::bitrate::{BitrateMap, MAX_DURATION_MS};
use crate::segment::{auto_split_segment, split_ok, SplitSegment};
use crate::text::{push_zero_padded, zero_padded};

verus! {

/// The enabled segments, in order.
pub open spec fn enabled_only(s: Seq<SplitSegment>) -> Seq<SplitSegment>
    decreases s.len(),
{
    if s.len() == 0 {
        s
    } else if s.last().enabled {
        enabled_only(s.drop_last()).push(s.last())
    } else {
        enabled_only(s.drop_last())
    }
}

/// All groups one after the other.
pub open spec fn flatten(groups: Seq<Seq<SplitSegment>>) -> Seq<SplitSegment>
    decreases groups.len(),
{
    if groups.len() == 0 {
        seq![]
    } else {
        flatten(groups.drop_last()) + groups.last()
    }
}

/// The parts to export from `segments`: each enabled segment, in order,
/// split to fit `max_bytes` (from the bitrate curve when one is available,
/// else at `bitrate_bps`); a budget of 0 keeps every enabled segment whole.
pub fn export_parts(
    segments: &Vec<SplitSegment>,
    max_bytes: u64,
    bitrate_bps: u64,
    bitrate_map: Option<&BitrateMap>,
) -> (r: Vec<SplitSegment>)
    requires
        forall|i: int|
            0 <= i < segments@.len() ==> (#[trigger] segments@[i]).start_time <= segments@[i].end_time
                <= MAX_DURATION_MS,
        bitrate_map matches Some(m) ==> m.wf(),
    ensures
        exists|groups: Seq<Seq<SplitSegment>>|
            {
                &&& groups.len() == enabled_only(segments@).len()
                &&& forall|k: int|
                    0 <= k < groups.len() ==> split_ok(
                        #[trigger] enabled_only(segments@)[k],
                        groups[k],
                        max_bytes,
                        bitrate_bps,
                        bitrate_map,
                    )
                &&& r@ == flatten(groups)
            },
{
    let mut out: Vec<SplitSegment> = Vec::new();
    let ghost mut groups: Seq<Seq<SplitSegment>> = seq![];
    let mut i: usize = 0;
    while i < segments.len()
        invariant
            i <= segments@.len(),
            forall|j: int|
                0 <= j < segments@.len() ==> (#[trigger] segments@[j]).start_time <= segments@[j].end_time
                    <= MAX_DURATION_MS,
            bitrate_map matches Some(m) ==> m.wf(),
            groups.len() == enabled_only(segments@.take(i as int)).len(),
            forall|k: int|
                0 <= k < groups.len() ==> split_ok(
                    #[trigger] enabled_only(segments@.take(i as int))[k],
                    groups[k],
                    max_bytes,
                    bitrate_bps,
                    bitrate_map,
                ),
            out@ == flatten(groups),
        decreases segments@.len() - i,
    {
        let ghost before = segments@.take(i as int);
        assert(segments@.take(i as int + 1).drop_last() =~= before);
        if segments[i].enabled {
            let parts = auto_split_segment(&segments[i], max_bytes, bitrate_bps, bitrate_map);
            let ghost g = parts@;
            let mut parts = parts;
            out.append(&mut parts);
            proof {
                let old_groups = groups;
                groups = groups.push(g);
                assert(groups.drop_last() =~= old_groups);
                assert(out@ =~= flatten(groups));
                let en = enabled_only(segments@.take(i as int + 1));
                assert(en =~= enabled_only(before).push(segments@[i as int]));
                assert forall|k: int| 0 <= k < groups.len() implies split_ok(
                    #[trigger] en[k],
                    groups[k],
                    max_bytes,
                    bitrate_bps,
                    bitrate_map,
                ) by {
                    if k < old_groups.len() {
                        assert(en[k] == enabled_only(before)[k]);
                        assert(groups[k] == old_groups[k]);
                    }
                }
            }
        }
        i = i + 1;
    }
    assert(segments@.take(i as int) =~= segments@);
    out
}

/// File name of part `k` (from 1) of an export: `"stem_kkk.ext"`.
pub open spec fn part_file_name(stem: Seq<char>, k: nat, ext: Seq<char>) -> Seq<char> {
    stem + "_"@ + zero_padded(k, 3) + "."@ + ext
}

pub fn export_file_name(stem: &str, k: u64, ext: &str) -> (r: String)
    ensures
        r@ == part_file_name(stem@, k as nat, ext@),
{
    let mut s = String::from_str(stem);
    s.append("_");
    push_zero_padded(&mut s, k, 3);
    s.append(".");
    s.append(ext);
    s
}

/// Label of a part exported from a whole batch: `"stem - label"`.
pub fn batch_job_label(stem: &str, label: &str) -> (r: String)
    ensures
        r@ == stem@ + " - "@ + label@,
{
    let mut s = String::from_str(stem);
    s.append(" - ");
    s.append(label);
    s
}

} // verus!
