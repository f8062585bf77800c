//! Fan-out/fan-in coordination of silence detection over many files.
//!
//! Detection runs concurrently elsewhere; each finished detection is
//! recorded here, and `poll` hands the collected results over once, when all
//! of them are in, whatever order they arrived in.

use vstd::prelude::*;
use crate::bitrate::{BitrateMap, MAX_DURATION_MS};
use crate::planner::{accurate_plan, plan_file, uniform_plan, SILENCE_TOLERANCE_MS};
use crate::segment::{segments_for_cuts, segments_from_cuts, SplitSegment};
use crate::silence::SilenceInterval;

verus! {

/// Why a batch or an auto-cut run could not start.
#[derive(Clone, Copy, Debug, PartialEq, Eq, Structural)]
pub enum BatchStartError {
    /// There is no file to analyse.
    NoFiles,
    /// The size budget per segment is 0.
    NoBudget,
}

/// The results of a finished batch, and whether export should follow.
pub struct BatchOutcome {
    pub results: Vec<(usize, Vec<SilenceInterval>)>,
    pub export_now: bool,
}

/// One batch of detections: how many are awaited, those that arrived, and
/// whether export follows once they are all in.
pub struct BatchRun {
    pub total: usize,
    pub results: Vec<(usize, Vec<SilenceInterval>)>,
    pub running: bool,
    pub auto_export: bool,
}

impl BatchRun {
    pub fn new() -> (r: BatchRun)
        ensures
            !r.running,
            !r.auto_export,
            r.total == 0,
            r.results@.len() == 0,
    {
        BatchRun { total: 0, results: Vec::new(), running: false, auto_export: false }
    }

    /// Starts awaiting `total` detections, unless there is no file or no
    /// budget; `auto_export` asks for export once they are all in.
    pub fn start(&mut self, total: usize, max_bytes: u64, auto_export: bool) -> (r: Result<(), BatchStartError>)
        ensures
            total == 0 ==> r == Err::<(), BatchStartError>(BatchStartError::NoFiles) && *final(self) == *old(self),
            total > 0 && max_bytes == 0 ==> r == Err::<(), BatchStartError>(BatchStartError::NoBudget) && *final(self) == *old(self),
            total > 0 && max_bytes > 0 ==> {
                &&& r is Ok
                &&& final(self).total == total
                &&& final(self).results@.len() == 0
                &&& final(self).running
                &&& final(self).auto_export == auto_export
            },
    {
        if total == 0 {
            return Err(BatchStartError::NoFiles);
        }
        if max_bytes == 0 {
            return Err(BatchStartError::NoBudget);
        }
        self.total = total;
        self.results = Vec::new();
        self.running = true;
        self.auto_export = auto_export;
        Ok(())
    }

    /// Records the silences found in file `file_index`.
    pub fn record(&mut self, file_index: usize, silences: Vec<SilenceInterval>)
        ensures
            final(self).results@ == old(self).results@.push((file_index, silences)),
            final(self).total == old(self).total,
            final(self).running == old(self).running,
            final(self).auto_export == old(self).auto_export,
    {
        self.results.push((file_index, silences));
    }

    /// Number of detections that have arrived.
    pub fn completed(&self) -> (r: usize)
        ensures
            r == self.results@.len(),
    {
        self.results.len()
    }

    /// Hands the results over once all awaited detections are in: the batch
    /// stops, its results move out, and export is asked for at most once.
    /// Before that, and after it, nothing changes and nothing is returned.
    pub fn poll(&mut self) -> (r: Option<BatchOutcome>)
        ensures
            !old(self).running || old(self).results@.len() < old(self).total ==> r is None && *final(self) == *old(self),
            old(self).running && old(self).results@.len() >= old(self).total ==> {
                &&& r matches Some(o) && o.results@ == old(self).results@ && o.export_now == old(self).auto_export
                &&& !final(self).running
                &&& !final(self).auto_export
                &&& final(self).results@.len() == 0
                &&& final(self).total == old(self).total
            },
    {
        if !self.running || self.results.len() < self.total {
            return None;
        }
        self.running = false;
        let mut results: Vec<(usize, Vec<SilenceInterval>)> = Vec::new();
        std::mem::swap(&mut results, &mut self.results);
        let export_now = self.auto_export;
        self.auto_export = false;
        Some(BatchOutcome { results, export_now })
    }
}

/// What an auto-cut run is still waiting for.
#[derive(Clone, Copy, Debug, PartialEq, Eq, Structural)]
pub enum AutoCutWait {
    /// Not running.
    Idle,
    /// Both analyses are still running.
    Both,
    /// Silences are in; the bitrate curve is not.
    Bitrate,
    /// The bitrate curve is in; silences are not.
    Silence,
}

/// One auto-cut analysis of a file: silence detection and bitrate curve
/// extraction run elsewhere and leave their results here (the latest one
/// wins); `poll` hands both over once, when both are in.
pub struct AutoCutRun {
    pub running: bool,
    pub silences: Option<Vec<SilenceInterval>>,
    pub bitrate_map: Option<BitrateMap>,
}

impl AutoCutRun {
    pub fn new() -> (r: AutoCutRun)
        ensures
            !r.running,
            r.silences is None,
            r.bitrate_map is None,
    {
        AutoCutRun { running: false, silences: None, bitrate_map: None }
    }

    /// Starts a run on the selected file, dropping the results of any
    /// earlier one, unless no file is selected or the size budget is 0.
    pub fn start(&mut self, file_selected: bool, max_bytes: u64) -> (r: Result<(), BatchStartError>)
        ensures
            !file_selected ==> r == Err::<(), BatchStartError>(BatchStartError::NoFiles) && *final(self) == *old(self),
            file_selected && max_bytes == 0 ==> r == Err::<(), BatchStartError>(BatchStartError::NoBudget)
                && *final(self) == *old(self),
            file_selected && max_bytes > 0 ==> {
                &&& r is Ok
                &&& final(self).running
                &&& final(self).silences is None
                &&& final(self).bitrate_map is None
            },
    {
        if !file_selected {
            return Err(BatchStartError::NoFiles);
        }
        if max_bytes == 0 {
            return Err(BatchStartError::NoBudget);
        }
        self.running = true;
        self.silences = None;
        self.bitrate_map = None;
        Ok(())
    }

    pub fn set_silences(&mut self, silences: Vec<SilenceInterval>)
        ensures
            final(self).silences == Some(silences),
            final(self).bitrate_map == old(self).bitrate_map,
            final(self).running == old(self).running,
    {
        self.silences = Some(silences);
    }

    pub fn set_bitrate_map(&mut self, map: BitrateMap)
        ensures
            final(self).bitrate_map == Some(map),
            final(self).silences == old(self).silences,
            final(self).running == old(self).running,
    {
        self.bitrate_map = Some(map);
    }

    /// What the run still waits for.
    pub fn waiting_for(&self) -> (r: AutoCutWait)
        ensures
            r == if !self.running {
                AutoCutWait::Idle
            } else if self.silences is None && self.bitrate_map is None {
                AutoCutWait::Both
            } else if self.bitrate_map is None {
                AutoCutWait::Bitrate
            } else if self.silences is None {
                AutoCutWait::Silence
            } else {
                AutoCutWait::Idle
            },
    {
        if !self.running {
            AutoCutWait::Idle
        } else if self.silences.is_none() && self.bitrate_map.is_none() {
            AutoCutWait::Both
        } else if self.bitrate_map.is_none() {
            AutoCutWait::Bitrate
        } else if self.silences.is_none() {
            AutoCutWait::Silence
        } else {
            AutoCutWait::Idle
        }
    }

    /// Once both results are in, hands them over and ends the run; before
    /// that, and after it, nothing changes and nothing is returned.
    pub fn poll(&mut self) -> (r: Option<(Vec<SilenceInterval>, BitrateMap)>)
        ensures
            old(self).running && old(self).silences is Some && old(self).bitrate_map is Some ==> {
                &&& r == Some((old(self).silences->0, old(self).bitrate_map->0))
                &&& !final(self).running
                &&& final(self).silences is None
                &&& final(self).bitrate_map is None
            },
            !(old(self).running && old(self).silences is Some && old(self).bitrate_map is Some) ==> r is None
                && *final(self) == *old(self),
    {
        if !self.running || self.silences.is_none() || self.bitrate_map.is_none() {
            return None;
        }
        let silences = self.silences.take();
        let map = self.bitrate_map.take();
        self.running = false;
        match (silences, map) {
            (Some(s), Some(m)) => Some((s, m)),
            _ => None,
        }
    }
}

/// What probing and analysis told of one file of a batch: its duration
/// (ms), average bitrate and bitrate curve (empty when unavailable).
pub struct BatchFile {
    pub duration: u64,
    pub bitrate_bps: u64,
    pub bitrate_map: BitrateMap,
}

pub open spec fn batch_file_ok(f: BatchFile) -> bool {
    f.duration <= MAX_DURATION_MS && f.bitrate_map.wf()
}

/// Cut points of a file of a batch: from its curve when it has one, else
/// from its average bitrate.
pub open spec fn file_plan(f: BatchFile, max_bytes: u64, sil: Seq<SilenceInterval>) -> Seq<(u64, u64)> {
    if f.bitrate_map.points().len() > 0 {
        accurate_plan(f.duration, max_bytes, SILENCE_TOLERANCE_MS, sil, f.bitrate_map)
    } else {
        uniform_plan(f.duration, f.bitrate_bps, max_bytes, SILENCE_TOLERANCE_MS, sil)
    }
}

/// Results that name a file of the batch, in the order they arrived.
pub open spec fn known_results(results: Seq<(usize, Vec<SilenceInterval>)>, n: int) -> Seq<
    (usize, Vec<SilenceInterval>),
>
    decreases results.len(),
{
    if results.len() == 0 {
        results
    } else if results.last().0 < n {
        known_results(results.drop_last(), n).push(results.last())
    } else {
        known_results(results.drop_last(), n)
    }
}

/// The segments of file `file_index` planned from its silences.
pub open spec fn planned_for(
    segs: Seq<SplitSegment>,
    files: Seq<BatchFile>,
    file_index: usize,
    silences: Seq<SilenceInterval>,
    max_bytes: u64,
) -> bool {
    let f = files[file_index as int];
    segments_for_cuts(segs, file_plan(f, max_bytes, silences), f.bitrate_bps, Some(&f.bitrate_map))
}

/// Aggregation of a finished batch: for each result that names a file, in
/// arrival order, that file's segments planned from its silences
/// (`"Segment k"` labels, sizes from the curve when there is one).
pub fn plan_batch(results: &Vec<(usize, Vec<SilenceInterval>)>, files: &Vec<BatchFile>, max_bytes: u64) -> (r: Vec<
    (usize, Vec<SplitSegment>),
>)
    requires
        forall|i: int| 0 <= i < files@.len() ==> batch_file_ok(#[trigger] files@[i]),
    ensures
        r@.len() == known_results(results@, files@.len() as int).len(),
        forall|k: int|
            0 <= k < r@.len() ==> {
                let res = known_results(results@, files@.len() as int)[k];
                &&& (#[trigger] r@[k]).0 == res.0
                &&& planned_for(r@[k].1@, files@, res.0, res.1@, max_bytes)
            },
{
    let ghost n = files@.len() as int;
    let mut out: Vec<(usize, Vec<SplitSegment>)> = Vec::new();
    let mut i: usize = 0;
    while i < results.len()
        invariant
            i <= results@.len(),
            n == files@.len(),
            forall|j: int| 0 <= j < files@.len() ==> batch_file_ok(#[trigger] files@[j]),
            out@.len() == known_results(results@.take(i as int), n).len(),
            forall|k: int|
                0 <= k < out@.len() ==> {
                    let res = known_results(results@.take(i as int), n)[k];
                    &&& (#[trigger] out@[k]).0 == res.0
                    &&& planned_for(out@[k].1@, files@, res.0, res.1@, max_bytes)
                },
        decreases results@.len() - i,
    {
        assert(results@.take(i as int + 1).drop_last() =~= results@.take(i as int));
        let idx = results[i].0;
        if idx < files.len() {
            let f = &files[idx];
            let cuts = plan_file(f.duration, f.bitrate_bps, max_bytes, results[i].1.as_slice(), Some(&f.bitrate_map));
            proof {
                assert(forall|j: int| 0 <= j < cuts@.len() ==> (#[trigger] cuts@[j]).0 < cuts@[j].1 || f.duration == 0);
                if f.duration == 0 {
                    assert(cuts@ == seq![(0u64, 0u64)]);
                }
            }
            let segs = segments_from_cuts(&cuts, f.bitrate_bps, Some(&f.bitrate_map));
            out.push((idx, segs));
        }
        i = i + 1;
    }
    assert(results@.take(i as int) =~= results@);
    out
}

/// Aggregation does not depend on the order in which detections finished:
/// two segment lists planned for the same file from the same silences
/// agree in every bound, label, flag and size.
pub proof fn lemma_plan_order_free(
    a: Seq<SplitSegment>,
    b: Seq<SplitSegment>,
    files: Seq<BatchFile>,
    file_index: usize,
    silences: Seq<SilenceInterval>,
    max_bytes: u64,
)
    requires
        planned_for(a, files, file_index, silences, max_bytes),
        planned_for(b, files, file_index, silences, max_bytes),
    ensures
        a.len() == b.len(),
        forall|i: int|
            0 <= i < a.len() ==> {
                &&& (#[trigger] a[i]).start_time == b[i].start_time
                &&& a[i].end_time == b[i].end_time
                &&& a[i].label@ == b[i].label@
                &&& a[i].enabled == b[i].enabled
                &&& a[i].estimated_size_bytes == b[i].estimated_size_bytes
            },
{
}

} // verus!
