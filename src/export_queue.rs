//! The export job queue: FIFO jobs, one running at a time, cancellation and
//! progress accounting.

use vstd::prelude::*;
use vstd::string::{StrSliceExecFns, StringExecFns};
use crate::project::{file_name_of, path_file_name};
use crate::text::{decimal, push_decimal};

verus! {

/// Speed/quality trade-off of a trim.
#[derive(Clone, Copy, Debug, PartialEq, Eq, Structural)]
pub enum TrimMode {
    /// Stream copy, cut at keyframes.
    Lossless,
    /// Fast re-encode, frame-accurate.
    Precise,
    /// Slow, high-quality re-encode.
    HighQuality,
}

impl TrimMode {
    pub fn all() -> (r: Vec<TrimMode>)
        ensures
            r@ == seq![TrimMode::Lossless, TrimMode::Precise, TrimMode::HighQuality],
    {
        vec![TrimMode::Lossless, TrimMode::Precise, TrimMode::HighQuality]
    }

    pub fn name(&self) -> (r: &'static str)
        ensures
            r@ == match self {
                TrimMode::Lossless => "Lossless"@,
                TrimMode::Precise => "Precise"@,
                TrimMode::HighQuality => "High Quality"@,
            },
    {
        match self {
            TrimMode::Lossless => "Lossless",
            TrimMode::Precise => "Precise",
            TrimMode::HighQuality => "High Quality",
        }
    }
}

/// Where a job stands. `Failed` carries the reason.
#[derive(Clone, Debug)]
pub enum JobStatus {
    Pending,
    Running,
    Completed,
    Failed(String),
}

/// What a job does: cut `[start, end]` (ms) out of its input, or join its
/// inputs in order.
#[derive(Clone, Debug)]
pub enum ExportOperation {
    Trim { start: u64, end: u64, mode: TrimMode },
    Concat { inputs: Vec<String> },
}

/// One export job. `progress` is in percent.
#[derive(Clone, Debug)]
pub struct ExportJob {
    pub id: u32,
    pub input: String,
    pub output: String,
    pub operation: ExportOperation,
    pub status: JobStatus,
    pub progress: u8,
    pub segment_label: String,
}

/// The reason given to jobs cancelled before they ran.
pub open spec fn cancelled_reason() -> Seq<char> {
    seq!['C', 'a', 'n', 'c', 'e', 'l', 'l', 'e', 'd']
}

/// A pending trim job as `add_trim` and its variants create it.
pub open spec fn is_new_trim(
    j: ExportJob,
    id: u32,
    input: String,
    output: String,
    start: u64,
    end: u64,
    mode: TrimMode,
    label: Seq<char>,
) -> bool {
    &&& j.id == id
    &&& j.input == input
    &&& j.output == output
    &&& j.operation == (ExportOperation::Trim { start, end, mode })
    &&& j.status is Pending
    &&& j.progress == 0
    &&& j.segment_label@ == label
}

/// Milliseconds in tenths of a second, to the nearest (ties to even).
pub open spec fn tenths(ms: nat) -> nat {
    let q = ms / 100;
    let rem = ms % 100;
    if rem > 50 || (rem == 50 && q % 2 == 1) {
        q + 1
    } else {
        q
    }
}

/// The name of a path's last component, empty when it has none.
pub open spec fn name_or_empty(path: Seq<char>) -> Seq<char> {
    match file_name_of(path) {
        Some(n) => n,
        None => seq![],
    }
}

/// One-line description of a job.
pub open spec fn job_description(j: ExportJob) -> Seq<char> {
    match j.operation {
        ExportOperation::Trim { start, end, mode } => {
            let t = tenths(if end >= start {
                (end - start) as nat
            } else {
                0
            });
            (if j.segment_label@.len() == 0 {
                seq![]
            } else {
                "["@ + j.segment_label@ + "] "@
            }) + name_or_empty(j.input@) + " -> "@ + name_or_empty(j.output@) + " ("@ + decimal(t / 10)
                + "."@ + decimal(t % 10) + "s, "@ + match mode {
                TrimMode::Lossless => "Lossless"@,
                TrimMode::Precise => "Precise"@,
                TrimMode::HighQuality => "High Quality"@,
            } + ")"@
        },
        ExportOperation::Concat { inputs } => "Merge "@ + decimal(inputs@.len()) + " files -> "@ + name_or_empty(
            j.output@,
        ),
    }
}

fn push_name(out: &mut String, path: &str)
    ensures
        final(out)@ == old(out)@ + name_or_empty(path@),
{
    match path_file_name(path) {
        Some(n) => out.append(n.as_str()),
        None => {
            assert(old(out)@ + seq![] =~= old(out)@);
        },
    }
}

impl ExportJob {
    /// `"[label] input -> output (12.3s, mode)"` for a trim (the label part
    /// only when there is a label; a trim ending before it starts shows 0.0s), `"Merge n files -> output"` for a join;
    /// file names only, durations in tenths of a second.
    pub fn description(&self) -> (r: String)
        ensures
            r@ == job_description(*self),
    {
        let mut s = String::new();
        match &self.operation {
            ExportOperation::Trim { start, end, mode } => {
                if self.segment_label.as_str().unicode_len() > 0 {
                    s.append("[");
                    s.append(self.segment_label.as_str());
                    s.append("] ");
                }
                push_name(&mut s, self.input.as_str());
                s.append(" -> ");
                push_name(&mut s, self.output.as_str());
                s.append(" (");
                let ms: u64 = if *end >= *start {
                    *end - *start
                } else {
                    0
                };
                let q = ms / 100;
                let rem = ms % 100;
                let t = if rem > 50 || (rem == 50 && q % 2 == 1) {
                    q + 1
                } else {
                    q
                };
                push_decimal(&mut s, t / 10);
                s.append(".");
                push_decimal(&mut s, t % 10);
                s.append("s, ");
                s.append(mode.name());
                s.append(")");
            },
            ExportOperation::Concat { inputs } => {
                s.append("Merge ");
                push_decimal(&mut s, inputs.len() as u64);
                s.append(" files -> ");
                push_name(&mut s, self.output.as_str());
            },
        }
        assert(s@ =~= job_description(*self));
        s
    }

    pub fn new_trim(id: u32, input: String, output: String, start: u64, end: u64, mode: TrimMode) -> (r:
        ExportJob)
        ensures
            is_new_trim(r, id, input, output, start, end, mode, Seq::empty()),
    {
        ExportJob {
            id,
            input,
            output,
            operation: ExportOperation::Trim { start, end, mode },
            status: JobStatus::Pending,
            progress: 0,
            segment_label: String::new(),
        }
    }

    pub fn new_trim_with_label(
        id: u32,
        input: String,
        output: String,
        start: u64,
        end: u64,
        mode: TrimMode,
        label: String,
    ) -> (r: ExportJob)
        ensures
            is_new_trim(r, id, input, output, start, end, mode, label@),
    {
        ExportJob {
            id,
            input,
            output,
            operation: ExportOperation::Trim { start, end, mode },
            status: JobStatus::Pending,
            progress: 0,
            segment_label: label,
        }
    }

    pub fn status_text(&self) -> (r: &'static str)
        ensures
            r@ == match self.status {
                JobStatus::Pending => "Pending"@,
                JobStatus::Running => "Running..."@,
                JobStatus::Completed => "Done"@,
                JobStatus::Failed(_) => "Failed"@,
            },
    {
        match &self.status {
            JobStatus::Pending => "Pending",
            JobStatus::Running => "Running...",
            JobStatus::Completed => "Done",
            JobStatus::Failed(_) => "Failed",
        }
    }
}

pub open spec fn is_finished(j: ExportJob) -> bool {
    j.status is Completed || j.status is Failed
}

/// Jobs for which `keep` holds, in order.
pub open spec fn keep_active(s: Seq<ExportJob>) -> Seq<ExportJob>
    decreases s.len(),
{
    if s.len() == 0 {
        s
    } else if is_finished(s.last()) {
        keep_active(s.drop_last())
    } else {
        keep_active(s.drop_last()).push(s.last())
    }
}

/// Jobs whose id is not `id`, in order.
pub open spec fn without_id(s: Seq<ExportJob>, id: u32) -> Seq<ExportJob>
    decreases s.len(),
{
    if s.len() == 0 {
        s
    } else if s.last().id == id {
        without_id(s.drop_last(), id)
    } else {
        without_id(s.drop_last(), id).push(s.last())
    }
}

pub open spec fn count_pending(s: Seq<ExportJob>) -> nat
    decreases s.len(),
{
    if s.len() == 0 {
        0
    } else {
        count_pending(s.drop_last()) + if s.last().status is Pending {
            1nat
        } else {
            0nat
        }
    }
}

pub open spec fn count_completed(s: Seq<ExportJob>) -> nat
    decreases s.len(),
{
    if s.len() == 0 {
        0
    } else {
        count_completed(s.drop_last()) + if s.last().status is Completed {
            1nat
        } else {
            0nat
        }
    }
}

pub open spec fn count_finished(s: Seq<ExportJob>) -> nat
    decreases s.len(),
{
    if s.len() == 0 {
        0
    } else {
        count_finished(s.drop_last()) + if is_finished(s.last()) {
            1nat
        } else {
            0nat
        }
    }
}

/// Index of the first pending job among the first `k`.
pub open spec fn first_pending(s: Seq<ExportJob>, k: int) -> Option<int>
    decreases k,
{
    if k <= 0 {
        None
    } else {
        match first_pending(s, k - 1) {
            Some(i) => Some(i),
            None => if s[k - 1].status is Pending {
                Some(k - 1)
            } else {
                None
            },
        }
    }
}

proof fn lemma_first_pending_stable(s: Seq<ExportJob>, k: int, n: int)
    requires
        k <= n,
        first_pending(s, k) is Some,
    ensures
        first_pending(s, n) == first_pending(s, k),
    decreases n - k,
{
    if k < n {
        lemma_first_pending_stable(s, k, n - 1);
    }
}

proof fn lemma_first_pending_found(s: Seq<ExportJob>, k: int)
    requires
        k <= s.len(),
    ensures
        first_pending(s, k) matches Some(i) ==> 0 <= i < k && s[i].status is Pending,
    decreases k,
{
    if k > 0 {
        lemma_first_pending_found(s, k - 1);
    }
}

/// Every job in `t` is a job of `s`.
pub open spec fn drawn_from(t: Seq<ExportJob>, s: Seq<ExportJob>) -> bool {
    forall|i: int| 0 <= i < t.len() ==> exists|k: int| 0 <= k < s.len() && #[trigger] t[i] == s[k]
}

/// Ids are unique.
pub open spec fn unique_ids(s: Seq<ExportJob>) -> bool {
    forall|i: int, j: int| 0 <= i < j < s.len() ==> (#[trigger] s[i]).id != (#[trigger] s[j]).id
}

/// `after` is `before` with every pending job failed with reason
/// "Cancelled", and every other job as it was.
pub open spec fn cancelled_all(before: Seq<ExportJob>, after: Seq<ExportJob>) -> bool {
    &&& after.len() == before.len()
    &&& forall|i: int|
        0 <= i < before.len() ==> if before[i].status is Pending {
            &&& #[trigger] after[i] == with_status(before[i], after[i].status)
            &&& after[i].status matches JobStatus::Failed(reason) && reason@ == cancelled_reason()
        } else {
            after[i] == before[i]
        }
}

/// `after` is `before` with one pending job appended.
pub open spec fn appended_pending(before: Seq<ExportJob>, after: Seq<ExportJob>) -> bool {
    &&& after.len() == before.len() + 1
    &&& after.drop_last() == before
    &&& after.last().status is Pending
}

/// Jobs queued one after another and then cancelled before any of them ran
/// all end failed with reason "Cancelled", and no job is left pending.
pub proof fn lemma_cancel_after_adds(
    j0: Seq<ExportJob>,
    j1: Seq<ExportJob>,
    j2: Seq<ExportJob>,
    j3: Seq<ExportJob>,
    j4: Seq<ExportJob>,
)
    requires
        appended_pending(j0, j1),
        appended_pending(j1, j2),
        appended_pending(j2, j3),
        cancelled_all(j3, j4),
    ensures
        forall|i: int|
            j0.len() <= i < j0.len() + 3 ==> ((#[trigger] j4[i]).status matches JobStatus::Failed(reason)
                && reason@ == cancelled_reason()),
        forall|i: int| 0 <= i < j4.len() ==> !((#[trigger] j4[i]).status is Pending),
{
    assert(j3[j0.len() as int + 2].status is Pending);
    assert(j3.drop_last()[j0.len() as int + 1] == j2[j0.len() as int + 1]);
    assert(j3[j0.len() as int + 1].status is Pending);
    assert(j3.drop_last()[j0.len() as int] == j2[j0.len() as int]);
    assert(j2.drop_last()[j0.len() as int] == j1[j0.len() as int]);
    assert(j3[j0.len() as int].status is Pending);
    assert forall|i: int| 0 <= i < j4.len() implies !((#[trigger] j4[i]).status is Pending) by {
        if j3[i].status is Pending {
        } else {
            assert(j4[i] == j3[i]);
        }
    }
}

/// Some job is running.
pub open spec fn any_running(s: Seq<ExportJob>) -> bool {
    exists|i: int| 0 <= i < s.len() && (#[trigger] s[i]).status is Running
}

/// Ids are unique and below `next_id`; at most one job runs, and while one
/// does `processing` is set.
pub open spec fn jobs_ok(s: Seq<ExportJob>, next_id: u32, processing: bool) -> bool {
    &&& unique_ids(s)
    &&& forall|i: int| 0 <= i < s.len() ==> (#[trigger] s[i]).id < next_id
    &&& forall|i: int, j: int|
        0 <= i < s.len() && 0 <= j < s.len() && (#[trigger] s[i]).status is Running && (#[trigger] s[j]).status is Running ==> i == j
    &&& any_running(s) ==> processing
}

/// `j` with its status replaced.
pub open spec fn with_status(j: ExportJob, status: JobStatus) -> ExportJob {
    ExportJob { status, ..j }
}

proof fn lemma_keep_active(s: Seq<ExportJob>)
    ensures
        drawn_from(keep_active(s), s),
        unique_ids(s) ==> unique_ids(keep_active(s)),
        forall|i: int| 0 <= i < keep_active(s).len() ==> !is_finished(#[trigger] keep_active(s)[i]),
    decreases s.len(),
{
    if s.len() > 0 {
        let p = s.drop_last();
        lemma_keep_active(p);
        let kp = keep_active(p);
        let k = keep_active(s);
        assert forall|i: int| 0 <= i < k.len() implies exists|m: int| 0 <= m < s.len() && #[trigger] k[i] == s[m] by {
            if i < kp.len() {
                assert(k[i] == kp[i]);
                let m = choose|m: int| 0 <= m < p.len() && kp[i] == p[m];
                assert(s[m] == p[m]);
            } else {
                assert(k[i] == s[s.len() - 1]);
            }
        }
        if unique_ids(s) {
            assert(unique_ids(p)) by {
                assert forall|a: int, b: int| 0 <= a < b < p.len() implies (#[trigger] p[a]).id != (#[trigger] p[b]).id by {
                    assert(p[a] == s[a] && p[b] == s[b]);
                }
            }
            assert forall|a: int, b: int| 0 <= a < b < k.len() implies (#[trigger] k[a]).id != (#[trigger] k[b]).id by {
                if b >= kp.len() {
                    assert(k[a] == kp[a]);
                    let m = choose|m: int| 0 <= m < p.len() && kp[a] == p[m];
                    assert(s[m] == p[m]);
                    assert(k[b] == s[s.len() - 1]);
                } else {
                    assert(k[a] == kp[a] && k[b] == kp[b]);
                }
            }
        }
        assert forall|i: int| 0 <= i < k.len() implies !is_finished(#[trigger] k[i]) by {
            if i < kp.len() {
                assert(k[i] == kp[i]);
            }
        }
    }
}

proof fn lemma_without_id(s: Seq<ExportJob>, id: u32)
    ensures
        drawn_from(without_id(s, id), s),
        unique_ids(s) ==> unique_ids(without_id(s, id)),
        forall|i: int| 0 <= i < without_id(s, id).len() ==> (#[trigger] without_id(s, id)[i]).id != id,
        (forall|i: int| 0 <= i < s.len() ==> (#[trigger] s[i]).id != id) ==> without_id(s, id) == s,
    decreases s.len(),
{
    if s.len() > 0 {
        let p = s.drop_last();
        lemma_without_id(p, id);
        let kp = without_id(p, id);
        let k = without_id(s, id);
        assert forall|i: int| 0 <= i < k.len() implies exists|m: int| 0 <= m < s.len() && #[trigger] k[i] == s[m] by {
            if i < kp.len() {
                assert(k[i] == kp[i]);
                let m = choose|m: int| 0 <= m < p.len() && kp[i] == p[m];
                assert(s[m] == p[m]);
            } else {
                assert(k[i] == s[s.len() - 1]);
            }
        }
        if unique_ids(s) {
            assert(unique_ids(p)) by {
                assert forall|a: int, b: int| 0 <= a < b < p.len() implies (#[trigger] p[a]).id != (#[trigger] p[b]).id by {
                    assert(p[a] == s[a] && p[b] == s[b]);
                }
            }
            assert forall|a: int, b: int| 0 <= a < b < k.len() implies (#[trigger] k[a]).id != (#[trigger] k[b]).id by {
                if b >= kp.len() {
                    assert(k[a] == kp[a]);
                    let m = choose|m: int| 0 <= m < p.len() && kp[a] == p[m];
                    assert(s[m] == p[m]);
                    assert(k[b] == s[s.len() - 1]);
                } else {
                    assert(k[a] == kp[a] && k[b] == kp[b]);
                }
            }
        }
        assert forall|i: int| 0 <= i < k.len() implies (#[trigger] k[i]).id != id by {
            if i < kp.len() {
                assert(k[i] == kp[i]);
            }
        }
        if forall|i: int| 0 <= i < s.len() ==> (#[trigger] s[i]).id != id {
            assert(forall|i: int| 0 <= i < p.len() ==> (#[trigger] p[i]).id == s[i].id);
            assert(k =~= s);
        }
    }
}

/// Jobs drawn from a well-formed queue, with unique ids, form a well-formed
/// queue with the same counter and flag.
proof fn lemma_jobs_ok_sub(t: Seq<ExportJob>, s: Seq<ExportJob>, next_id: u32, processing: bool)
    requires
        jobs_ok(s, next_id, processing),
        drawn_from(t, s),
        unique_ids(t),
    ensures
        jobs_ok(t, next_id, processing),
{
    assert forall|i: int| 0 <= i < t.len() implies (#[trigger] t[i]).id < next_id by {
        let m = choose|m: int| 0 <= m < s.len() && t[i] == s[m];
    }
    assert forall|i: int, j: int|
        0 <= i < t.len() && 0 <= j < t.len() && (#[trigger] t[i]).status is Running && (#[trigger] t[j]).status is Running implies i == j by {
        let a = choose|m: int| 0 <= m < s.len() && t[i] == s[m];
        let b = choose|m: int| 0 <= m < s.len() && t[j] == s[m];
        assert(a == b);
        if i < j {
            assert(t[i].id != t[j].id);
        } else if j < i {
            assert(t[j].id != t[i].id);
        }
    }
    if any_running(t) {
        let i = choose|i: int| 0 <= i < t.len() && (#[trigger] t[i]).status is Running;
        let m = choose|m: int| 0 <= m < s.len() && t[i] == s[m];
        assert(s[m].status is Running);
    }
}

/// While a job runs, the queue is marked as processing: a job that has
/// entered `Running` keeps the flag set until it reaches a final status.
pub proof fn lemma_running_job_holds_flag(q: ExportQueue, i: int)
    requires
        q.wf(),
        0 <= i < q.jobs@.len(),
        q.jobs@[i].status is Running,
    ensures
        q.is_processing,
{
}

/// An ordered collection of export jobs with a single-flight processing
/// flag and the next id to hand out.
pub struct ExportQueue {
    pub jobs: Vec<ExportJob>,
    pub next_id: u32,
    pub is_processing: bool,
}

impl ExportQueue {
    /// Ids are unique and below `next_id`; at most one job runs, and while
    /// one does the queue is marked as processing.
    pub open spec fn wf(&self) -> bool {
        jobs_ok(self.jobs@, self.next_id, self.is_processing)
    }

    pub fn new() -> (r: ExportQueue)
        ensures
            r.wf(),
            r.jobs@.len() == 0,
            r.next_id == 0,
            !r.is_processing,
    {
        ExportQueue { jobs: Vec::new(), next_id: 0, is_processing: false }
    }

    fn push_job(&mut self, job: ExportJob) -> (id: u32)
        requires
            old(self).wf(),
            old(self).next_id < u32::MAX,
            job.id == old(self).next_id,
            !(job.status is Running),
        ensures
            final(self).wf(),
            id == old(self).next_id,
            final(self).next_id == old(self).next_id + 1,
            final(self).jobs@ == old(self).jobs@.push(job),
            final(self).is_processing == old(self).is_processing,
    {
        let id = self.next_id;
        self.next_id = self.next_id + 1;
        self.jobs.push(job);
        id
    }

    /// Queues a pending trim job and returns its id.
    pub fn add_trim(&mut self, input: String, output: String, start: u64, end: u64, mode: TrimMode) -> (id:
        u32)
        requires
            old(self).wf(),
            old(self).next_id < u32::MAX,
        ensures
            final(self).wf(),
            id == old(self).next_id,
            final(self).next_id == old(self).next_id + 1,
            final(self).jobs@.len() == old(self).jobs@.len() + 1,
            final(self).jobs@.drop_last() == old(self).jobs@,
            is_new_trim(final(self).jobs@.last(), id, input, output, start, end, mode, Seq::empty()),
            appended_pending(old(self).jobs@, final(self).jobs@),
            final(self).is_processing == old(self).is_processing,
    {
        let job = ExportJob::new_trim(self.next_id, input, output, start, end, mode);
        let id = self.push_job(job);
        assert(final(self).jobs@.drop_last() =~= old(self).jobs@);
        id
    }

    /// Queues a pending trim job with a label and returns its id.
    pub fn add_trim_with_label(
        &mut self,
        input: String,
        output: String,
        start: u64,
        end: u64,
        mode: TrimMode,
        label: String,
    ) -> (id: u32)
        requires
            old(self).wf(),
            old(self).next_id < u32::MAX,
        ensures
            final(self).wf(),
            id == old(self).next_id,
            final(self).next_id == old(self).next_id + 1,
            final(self).jobs@.len() == old(self).jobs@.len() + 1,
            final(self).jobs@.drop_last() == old(self).jobs@,
            is_new_trim(final(self).jobs@.last(), id, input, output, start, end, mode, label@),
            appended_pending(old(self).jobs@, final(self).jobs@),
            final(self).is_processing == old(self).is_processing,
    {
        let job = ExportJob::new_trim_with_label(self.next_id, input, output, start, end, mode, label);
        let id = self.push_job(job);
        assert(final(self).jobs@.drop_last() =~= old(self).jobs@);
        id
    }

    /// Queues a pending job joining `inputs` into `output`; its input is the
    /// first of them (empty when there is none). Returns its id.
    pub fn add_concat(&mut self, inputs: Vec<String>, output: String, label: String) -> (id: u32)
        requires
            old(self).wf(),
            old(self).next_id < u32::MAX,
        ensures
            final(self).wf(),
            id == old(self).next_id,
            final(self).next_id == old(self).next_id + 1,
            final(self).jobs@.len() == old(self).jobs@.len() + 1,
            final(self).jobs@.drop_last() == old(self).jobs@,
            ({
                let j = final(self).jobs@.last();
                &&& j.id == id
                &&& j.output == output
                &&& j.operation == (ExportOperation::Concat { inputs })
                &&& j.input@ == if inputs@.len() > 0 {
                    inputs@[0]@
                } else {
                    Seq::empty()
                }
                &&& j.status is Pending
                &&& j.progress == 0
                &&& j.segment_label == label
            }),
            final(self).is_processing == old(self).is_processing,
    {
        let first_input = if inputs.len() > 0 {
            inputs[0].clone()
        } else {
            String::new()
        };
        let job = ExportJob {
            id: self.next_id,
            input: first_input,
            output,
            operation: ExportOperation::Concat { inputs },
            status: JobStatus::Pending,
            progress: 0,
            segment_label: label,
        };
        let id = self.push_job(job);
        assert(final(self).jobs@.drop_last() =~= old(self).jobs@);
        id
    }

    /// Replaces the status of job `k`.
    fn set_status(&mut self, k: usize, status: JobStatus)
        requires
            k < old(self).jobs@.len(),
        ensures
            final(self).jobs@ == old(self).jobs@.update(k as int, with_status(old(self).jobs@[k as int], status)),
            final(self).next_id == old(self).next_id,
            final(self).is_processing == old(self).is_processing,
    {
        let mut job = ExportJob {
            id: 0,
            input: String::new(),
            output: String::new(),
            operation: ExportOperation::Concat { inputs: Vec::new() },
            status: JobStatus::Pending,
            progress: 0,
            segment_label: String::new(),
        };
        self.jobs.set_and_swap(k, &mut job);
        job.status = status;
        self.jobs.set(k, job);
    }

    /// Marks every pending job as failed with reason "Cancelled". A running
    /// job is left to finish.
    pub fn cancel_all(&mut self)
        requires
            old(self).wf(),
        ensures
            final(self).wf(),
            final(self).next_id == old(self).next_id,
            final(self).is_processing == old(self).is_processing,
            cancelled_all(old(self).jobs@, final(self).jobs@),
    {
        let n = self.jobs.len();
        let mut k: usize = 0;
        proof {
            reveal_strlit("Cancelled");
        }
        while k < n
            invariant
                n == self.jobs@.len(),
                n == old(self).jobs@.len(),
                k <= n,
                self.next_id == old(self).next_id,
                self.is_processing == old(self).is_processing,
                forall|i: int| 0 <= i < n ==> (#[trigger] self.jobs@[i]).id == old(self).jobs@[i].id,
                forall|i: int|
                    0 <= i < n ==> ((#[trigger] self.jobs@[i]).status is Running <==> old(self).jobs@[i].status is Running),
                forall|i: int|
                    0 <= i < k ==> if old(self).jobs@[i].status is Pending {
                        &&& #[trigger] self.jobs@[i] == with_status(old(self).jobs@[i], self.jobs@[i].status)
                        &&& self.jobs@[i].status matches JobStatus::Failed(reason) && reason@ == cancelled_reason()
                    } else {
                        self.jobs@[i] == old(self).jobs@[i]
                    },
                forall|i: int| k <= i < n ==> #[trigger] self.jobs@[i] == old(self).jobs@[i],
            decreases n - k,
        {
            if matches!(self.jobs[k].status, JobStatus::Pending) {
                let reason = String::from_str("Cancelled");
                proof {
                    reveal_strlit("Cancelled");
                    assert("Cancelled"@ =~= cancelled_reason());
                }
                self.set_status(k, JobStatus::Failed(reason));
            }
            k = k + 1;
        }
        proof {
            let s = self.jobs@;
            let o = old(self).jobs@;
            assert forall|a: int, b: int| 0 <= a < b < s.len() implies (#[trigger] s[a]).id != (#[trigger] s[b]).id by {
                assert(s[a].id == o[a].id && s[b].id == o[b].id);
            }
            assert forall|i: int, j: int|
                0 <= i < s.len() && 0 <= j < s.len() && (#[trigger] s[i]).status is Running && (#[trigger] s[j]).status is Running implies i == j by {
                assert(o[i].status is Running && o[j].status is Running);
            }
            if any_running(s) {
                let i = choose|i: int| 0 <= i < s.len() && (#[trigger] s[i]).status is Running;
                assert(o[i].status is Running);
            }
        }
    }

    /// Removes every completed or failed job, keeping the order of the rest.
    pub fn clear_finished(&mut self)
        requires
            old(self).wf(),
        ensures
            final(self).wf(),
            final(self).jobs@ == keep_active(old(self).jobs@),
            final(self).next_id == old(self).next_id,
            final(self).is_processing == old(self).is_processing,
    {
        let ghost o = self.jobs@;
        let n0: usize = self.jobs.len();
        let mut i: usize = 0;
        let mut k: usize = 0;
        while k < self.jobs.len()
            invariant
                i <= o.len(),
                o.len() == n0,
                self.jobs@ == keep_active(o.take(i as int)) + o.skip(i as int),
                k == keep_active(o.take(i as int)).len(),
                self.next_id == old(self).next_id,
                self.is_processing == old(self).is_processing,
            decreases o.len() - i,
        {
            assert(self.jobs@.len() == k + (o.len() - i));
            assert(o.take(i as int + 1).drop_last() =~= o.take(i as int));
            assert(self.jobs@[k as int] == o[i as int]);
            if matches!(self.jobs[k].status, JobStatus::Completed | JobStatus::Failed(_)) {
                self.jobs.remove(k);
                assert(self.jobs@ =~= keep_active(o.take(i as int + 1)) + o.skip(i as int + 1));
            } else {
                k = k + 1;
                assert(self.jobs@ =~= keep_active(o.take(i as int + 1)) + o.skip(i as int + 1));
            }
            i = i + 1;
        }
        proof {
            assert(i == o.len());
            assert(o.take(i as int) =~= o);
            assert(self.jobs@ =~= keep_active(o));
            lemma_keep_active(o);
            lemma_jobs_ok_sub(self.jobs@, o, self.next_id, self.is_processing);
        }
    }

    /// Removes the job with id `id`, if any.
    pub fn remove_job(&mut self, id: u32)
        requires
            old(self).wf(),
        ensures
            final(self).wf(),
            final(self).jobs@ == without_id(old(self).jobs@, id),
            final(self).next_id == old(self).next_id,
            final(self).is_processing == old(self).is_processing,
    {
        let ghost o = self.jobs@;
        let n0: usize = self.jobs.len();
        let mut i: usize = 0;
        let mut k: usize = 0;
        while k < self.jobs.len()
            invariant
                i <= o.len(),
                o.len() == n0,
                self.jobs@ == without_id(o.take(i as int), id) + o.skip(i as int),
                k == without_id(o.take(i as int), id).len(),
                self.next_id == old(self).next_id,
                self.is_processing == old(self).is_processing,
            decreases o.len() - i,
        {
            assert(self.jobs@.len() == k + (o.len() - i));
            assert(o.take(i as int + 1).drop_last() =~= o.take(i as int));
            assert(self.jobs@[k as int] == o[i as int]);
            if self.jobs[k].id == id {
                self.jobs.remove(k);
                assert(self.jobs@ =~= without_id(o.take(i as int + 1), id) + o.skip(i as int + 1));
            } else {
                k = k + 1;
                assert(self.jobs@ =~= without_id(o.take(i as int + 1), id) + o.skip(i as int + 1));
            }
            i = i + 1;
        }
        proof {
            assert(o.take(i as int) =~= o);
            assert(self.jobs@ =~= without_id(o, id));
            lemma_without_id(o, id);
            lemma_jobs_ok_sub(self.jobs@, o, self.next_id, self.is_processing);
        }
    }

    /// Dispatch step of the single-flight discipline: unless a job is being
    /// processed or none is pending, marks the first pending job as running,
    /// sets the processing flag and returns the job's id.
    pub fn start_next(&mut self) -> (r: Option<u32>)
        requires
            old(self).wf(),
        ensures
            final(self).wf(),
            final(self).next_id == old(self).next_id,
            r is None <==> old(self).is_processing || first_pending(old(self).jobs@, old(self).jobs@.len() as int) is None,
            r is None ==> *final(self) == *old(self),
            r matches Some(id) ==> ({
                let i = first_pending(old(self).jobs@, old(self).jobs@.len() as int)->0;
                &&& id == old(self).jobs@[i].id
                &&& final(self).jobs@ == old(self).jobs@.update(i, with_status(old(self).jobs@[i], JobStatus::Running))
                &&& final(self).is_processing
            }),
    {
        if self.is_processing {
            return None;
        }
        match self.next_pending() {
            None => None,
            Some(k) => {
                proof {
                    lemma_first_pending_found(self.jobs@, self.jobs@.len() as int);
                }
                let id = self.jobs[k].id;
                self.set_status(k, JobStatus::Running);
                self.is_processing = true;
                proof {
                    let s = self.jobs@;
                    let o = old(self).jobs@;
                    assert forall|a: int, b: int| 0 <= a < b < s.len() implies (#[trigger] s[a]).id != (#[trigger] s[b]).id by {
                        assert(s[a].id == o[a].id && s[b].id == o[b].id);
                    }
                    assert forall|i: int| 0 <= i < s.len() implies (#[trigger] s[i]).id < self.next_id by {
                        assert(s[i].id == o[i].id);
                    }
                    assert forall|i: int, j: int|
                        0 <= i < s.len() && 0 <= j < s.len() && (#[trigger] s[i]).status is Running && (#[trigger] s[j]).status is Running implies i == j by {
                        if i != k {
                            assert(o[i].status is Running);
                            assert(any_running(o));
                        }
                        if j != k {
                            assert(o[j].status is Running);
                            assert(any_running(o));
                        }
                    }
                }
                Some(id)
            },
        }
    }

    /// Worker report for job `id`: when that job is running it becomes
    /// completed (progress 100) on `Ok`, failed with the message on `Err`.
    /// The processing flag then stays set only while some job still runs.
    pub fn finish_job(&mut self, id: u32, outcome: Result<(), String>)
        requires
            old(self).wf(),
        ensures
            final(self).wf(),
            final(self).next_id == old(self).next_id,
            final(self).is_processing == any_running(final(self).jobs@),
            final(self).jobs@.len() == old(self).jobs@.len(),
            forall|i: int|
                0 <= i < old(self).jobs@.len() ==> #[trigger] final(self).jobs@[i] == if old(self).jobs@[i].id == id
                    && old(self).jobs@[i].status is Running {
                    match outcome {
                        Ok(_) => ExportJob {
                            status: JobStatus::Completed,
                            progress: 100,
                            ..old(self).jobs@[i]
                        },
                        Err(msg) => with_status(old(self).jobs@[i], JobStatus::Failed(msg)),
                    }
                } else {
                    old(self).jobs@[i]
                },
    {
        let found = self.get_job(id);
        match found {
            Some(k) => {
                if matches!(self.jobs[k].status, JobStatus::Running) {
                    let mut job = ExportJob {
                        id: 0,
                        input: String::new(),
                        output: String::new(),
                        operation: ExportOperation::Concat { inputs: Vec::new() },
                        status: JobStatus::Pending,
                        progress: 0,
                        segment_label: String::new(),
                    };
                    self.jobs.set_and_swap(k, &mut job);
                    match outcome {
                        Ok(_) => {
                            job.status = JobStatus::Completed;
                            job.progress = 100;
                        },
                        Err(msg) => {
                            job.status = JobStatus::Failed(msg);
                        },
                    }
                    self.jobs.set(k, job);
                    proof {
                        assert forall|i: int| 0 <= i < old(self).jobs@.len() && i != k implies old(self).jobs@[i].id != id by {
                            if i < k {
                                assert(old(self).jobs@[i].id != old(self).jobs@[k as int].id);
                            } else {
                                assert(old(self).jobs@[k as int].id != old(self).jobs@[i].id);
                            }
                        }
                    }
                }
            },
            None => {},
        }
        let running = self.any_job_running();
        self.is_processing = running;
        proof {
            let s = self.jobs@;
            let o = old(self).jobs@;
            assert forall|a: int, b: int| 0 <= a < b < s.len() implies (#[trigger] s[a]).id != (#[trigger] s[b]).id by {
                assert(s[a].id == o[a].id && s[b].id == o[b].id);
            }
            assert forall|i: int| 0 <= i < s.len() implies (#[trigger] s[i]).id < self.next_id by {
                assert(s[i].id == o[i].id);
            }
            assert forall|i: int, j: int|
                0 <= i < s.len() && 0 <= j < s.len() && (#[trigger] s[i]).status is Running && (#[trigger] s[j]).status is Running implies i == j by {
                assert(o[i].status is Running && o[j].status is Running);
            }
        }
    }

    /// Some job is running.
    fn any_job_running(&self) -> (r: bool)
        ensures
            r == any_running(self.jobs@),
    {
        let mut k: usize = 0;
        while k < self.jobs.len()
            invariant
                k <= self.jobs@.len(),
                forall|i: int| 0 <= i < k ==> !((#[trigger] self.jobs@[i]).status is Running),
            decreases self.jobs@.len() - k,
        {
            if matches!(self.jobs[k].status, JobStatus::Running) {
                return true;
            }
            k = k + 1;
        }
        false
    }

    /// Index of the first pending job, in insertion order.
    pub fn next_pending(&self) -> (r: Option<usize>)
        ensures
            r matches Some(i) ==> first_pending(self.jobs@, self.jobs@.len() as int) == Some(i as int),
            r is None ==> first_pending(self.jobs@, self.jobs@.len() as int) is None,
    {
        let mut k: usize = 0;
        while k < self.jobs.len()
            invariant
                k <= self.jobs@.len(),
                first_pending(self.jobs@, k as int) is None,
            decreases self.jobs@.len() - k,
        {
            if matches!(self.jobs[k].status, JobStatus::Pending) {
                proof {
                    lemma_first_pending_stable(self.jobs@, k as int + 1, self.jobs@.len() as int);
                }
                return Some(k);
            }
            k = k + 1;
        }
        None
    }

    /// Index of the job with id `id`.
    pub fn get_job(&self, id: u32) -> (r: Option<usize>)
        requires
            self.wf(),
        ensures
            r matches Some(i) ==> i < self.jobs@.len() && self.jobs@[i as int].id == id,
            r is None ==> forall|i: int| 0 <= i < self.jobs@.len() ==> (#[trigger] self.jobs@[i]).id != id,
    {
        let mut k: usize = 0;
        while k < self.jobs.len()
            invariant
                k <= self.jobs@.len(),
                forall|i: int| 0 <= i < k ==> (#[trigger] self.jobs@[i]).id != id,
            decreases self.jobs@.len() - k,
        {
            if self.jobs[k].id == id {
                return Some(k);
            }
            k = k + 1;
        }
        None
    }

    /// Number of pending jobs.
    pub fn pending_count(&self) -> (r: usize)
        ensures
            r == count_pending(self.jobs@),
    {
        let mut n: usize = 0;
        let mut k: usize = 0;
        while k < self.jobs.len()
            invariant
                k <= self.jobs@.len(),
                n == count_pending(self.jobs@.take(k as int)),
                n <= k,
            decreases self.jobs@.len() - k,
        {
            assert(self.jobs@.take(k as int + 1).drop_last() =~= self.jobs@.take(k as int));
            if matches!(self.jobs[k].status, JobStatus::Pending) {
                n = n + 1;
            }
            k = k + 1;
        }
        assert(self.jobs@.take(k as int) =~= self.jobs@);
        n
    }

    /// Number of completed jobs.
    pub fn completed_count(&self) -> (r: usize)
        ensures
            r == count_completed(self.jobs@),
    {
        let mut n: usize = 0;
        let mut k: usize = 0;
        while k < self.jobs.len()
            invariant
                k <= self.jobs@.len(),
                n == count_completed(self.jobs@.take(k as int)),
                n <= k,
            decreases self.jobs@.len() - k,
        {
            assert(self.jobs@.take(k as int + 1).drop_last() =~= self.jobs@.take(k as int));
            if matches!(self.jobs[k].status, JobStatus::Completed) {
                n = n + 1;
            }
            k = k + 1;
        }
        assert(self.jobs@.take(k as int) =~= self.jobs@);
        n
    }

    /// Some job is still pending.
    pub fn has_pending(&self) -> (r: bool)
        ensures
            r == exists|i: int| 0 <= i < self.jobs@.len() && (#[trigger] self.jobs@[i]).status is Pending,
    {
        let mut k: usize = 0;
        while k < self.jobs.len()
            invariant
                k <= self.jobs@.len(),
                forall|i: int| 0 <= i < k ==> !((#[trigger] self.jobs@[i]).status is Pending),
            decreases self.jobs@.len() - k,
        {
            if matches!(self.jobs[k].status, JobStatus::Pending) {
                return true;
            }
            k = k + 1;
        }
        false
    }

    /// `(finished, total)`: jobs completed or failed, and all jobs.
    pub fn total_progress(&self) -> (r: (usize, usize))
        ensures
            r.0 == count_finished(self.jobs@),
            r.1 == self.jobs@.len(),
    {
        let mut n: usize = 0;
        let mut k: usize = 0;
        while k < self.jobs.len()
            invariant
                k <= self.jobs@.len(),
                n == count_finished(self.jobs@.take(k as int)),
                n <= k,
            decreases self.jobs@.len() - k,
        {
            assert(self.jobs@.take(k as int + 1).drop_last() =~= self.jobs@.take(k as int));
            if matches!(self.jobs[k].status, JobStatus::Completed | JobStatus::Failed(_)) {
                n = n + 1;
            }
            k = k + 1;
        }
        assert(self.jobs@.take(k as int) =~= self.jobs@);
        (n, self.jobs.len())
    }
}

} // verus!
