//! Per-second cumulative byte curve of a media file.

use vstd::prelude::*;

verus! {

/// Largest media duration handled, in milliseconds (about 31 years).
pub const MAX_DURATION_MS: u64 = 1_000_000_000_000;

/// Number of whole seconds needed to cover `ms` milliseconds.
pub open spec fn ceil_secs(ms: int) -> int {
    (ms + 999) / 1000
}

/// Bucket (second index) of a packet timestamp in a curve of `n` points.
pub open spec fn bucket_of(t_ms: u64, n: int) -> int {
    if (t_ms as int) / 1000 < n - 1 {
        (t_ms as int) / 1000
    } else {
        n - 1
    }
}

/// Sum of the sizes of all packets.
pub open spec fn total_size(ps: Seq<(u64, u64)>) -> int
    decreases ps.len(),
{
    if ps.len() == 0 {
        0
    } else {
        total_size(ps.drop_last()) + ps.last().1
    }
}

/// Bytes of the packets that fall into bucket `j`.
pub open spec fn bytes_in(ps: Seq<(u64, u64)>, n: int, j: int) -> int
    decreases ps.len(),
{
    if ps.len() == 0 {
        0
    } else {
        bytes_in(ps.drop_last(), n, j) + if bucket_of(ps.last().0, n) == j {
            ps.last().1 as int
        } else {
            0
        }
    }
}

/// Bytes of the packets that fall into a bucket before `i`.
pub open spec fn bytes_before(ps: Seq<(u64, u64)>, n: int, i: int) -> int
    decreases ps.len(),
{
    if ps.len() == 0 {
        0
    } else {
        bytes_before(ps.drop_last(), n, i) + if bucket_of(ps.last().0, n) < i {
            ps.last().1 as int
        } else {
            0
        }
    }
}

proof fn lemma_bytes_in_bounded(ps: Seq<(u64, u64)>, n: int, j: int)
    ensures
        0 <= bytes_in(ps, n, j) <= total_size(ps),
    decreases ps.len(),
{
    if ps.len() > 0 {
        lemma_bytes_in_bounded(ps.drop_last(), n, j);
    }
}

proof fn lemma_bytes_before_bounded(ps: Seq<(u64, u64)>, n: int, i: int)
    ensures
        0 <= bytes_before(ps, n, i) <= total_size(ps),
    decreases ps.len(),
{
    if ps.len() > 0 {
        lemma_bytes_before_bounded(ps.drop_last(), n, i);
    }
}

proof fn lemma_bytes_before_step(ps: Seq<(u64, u64)>, n: int, i: int)
    ensures
        bytes_before(ps, n, i + 1) == bytes_before(ps, n, i) + bytes_in(ps, n, i),
    decreases ps.len(),
{
    if ps.len() > 0 {
        lemma_bytes_before_step(ps.drop_last(), n, i);
    }
}

proof fn lemma_bytes_before_zero(ps: Seq<(u64, u64)>, n: int)
    requires
        n >= 1,
    ensures
        bytes_before(ps, n, 0) == 0,
    decreases ps.len(),
{
    if ps.len() > 0 {
        lemma_bytes_before_zero(ps.drop_last(), n);
    }
}

pub proof fn lemma_total_prefix(ps: Seq<(u64, u64)>, k: int)
    requires
        0 <= k <= ps.len(),
    ensures
        total_size(ps.take(k)) <= total_size(ps),
    decreases ps.len() - k,
{
    if k < ps.len() {
        lemma_total_prefix(ps, k + 1);
        assert(ps.take(k + 1).drop_last() =~= ps.take(k));
    } else {
        assert(ps.take(k) =~= ps);
    }
}

pub proof fn lemma_total_nonneg(ps: Seq<(u64, u64)>)
    ensures
        total_size(ps) >= 0,
    decreases ps.len(),
{
    if ps.len() > 0 {
        lemma_total_nonneg(ps.drop_last());
    }
}

/// Cumulative byte count at each whole second of a media file.
///
/// Point `i` holds the bytes from time 0 up to second `i`. An empty curve
/// stands for "no data": callers fall back to an average bitrate.
pub struct BitrateMap {
    pub cumulative_bytes: Vec<u64>,
    pub duration: u64,
}

impl BitrateMap {
    pub open spec fn points(&self) -> Seq<u64> {
        self.cumulative_bytes@
    }

    pub open spec fn duration_ms(&self) -> u64 {
        self.duration
    }

    /// The curve is empty, or starts at 0, does not decrease, and has one
    /// point per started second plus one.
    pub open spec fn wf(&self) -> bool {
        let c = self.points();
        &&& self.duration <= MAX_DURATION_MS
        &&& c.len() == 0 || {
            &&& c.len() == ceil_secs(self.duration as int) + 1
            &&& c[0] == 0
            &&& forall|i: int, j: int| 0 <= i <= j < c.len() ==> c[i] <= c[j]
        }
    }

    /// Index of the point at or below `ms`, clamped to the curve.
    pub open spec fn floor_index(&self, ms: u64) -> int {
        if (ms as int) / 1000 < self.points().len() - 1 {
            (ms as int) / 1000
        } else {
            self.points().len() - 1
        }
    }

    /// Index of the point at or above `ms`, clamped to the curve.
    pub open spec fn ceil_index(&self, ms: u64) -> int {
        if ceil_secs(ms as int) < self.points().len() - 1 {
            ceil_secs(ms as int)
        } else {
            self.points().len() - 1
        }
    }

    /// Bytes between two instants, rounded out to whole seconds.
    pub open spec fn spec_bytes_between(&self, start: u64, end: u64) -> int {
        let a = self.points()[self.floor_index(start)] as int;
        let b = self.points()[self.ceil_index(end)] as int;
        if b >= a {
            b - a
        } else {
            0
        }
    }

    /// Point `i` is at least `target` bytes past point `base`.
    pub open spec fn reaches(&self, base: int, i: int, target: u64) -> bool {
        self.points()[i] - self.points()[base] >= target
    }

    /// Scanning from point `i`: the first point at least `target` bytes past
    /// point `base`, as milliseconds, or the duration when there is none.
    pub open spec fn reach_from(&self, base: int, i: int, target: u64) -> int
        decreases self.points().len() - i,
    {
        if i >= self.points().len() {
            self.duration as int
        } else if self.reaches(base, i, target) {
            i * 1000
        } else {
            self.reach_from(base, i + 1, target)
        }
    }

    /// Where a budget of `target` bytes counted from `start` runs out.
    pub open spec fn spec_time_for_bytes(&self, start: u64, target: u64) -> int {
        self.reach_from(self.floor_index(start), self.floor_index(start) + 1, target)
    }

    /// The curve of a file for which no packet data could be had.
    pub fn unavailable(duration: u64) -> (r: BitrateMap)
        requires
            duration <= MAX_DURATION_MS,
        ensures
            r.wf(),
            r.points().len() == 0,
            r.duration_ms() == duration,
    {
        BitrateMap { cumulative_bytes: Vec::new(), duration }
    }

    /// Builds the curve from `(timestamp_ms, size)` packet readings of the
    /// video and the audio stream. Each packet counts in the second its
    /// timestamp falls in, clamped to the last point.
    pub fn from_packets(duration: u64, video: &Vec<(u64, u64)>, audio: &Vec<(u64, u64)>) -> (r:
        BitrateMap)
        requires
            duration <= MAX_DURATION_MS,
            total_size(video@) + total_size(audio@) <= u64::MAX,
        ensures
            r.wf(),
            r.duration_ms() == duration,
            r.points().len() == ceil_secs(duration as int) + 1,
            forall|i: int|
                0 <= i < r.points().len() ==> #[trigger] r.points()[i] == bytes_before(
                    video@,
                    r.points().len() as int,
                    i,
                ) + bytes_before(audio@, r.points().len() as int, i),
    {
        let n: usize = (duration / 1000 + if duration % 1000 == 0 {
            0
        } else {
            1
        }) as usize + 1;
        assert(n as int == ceil_secs(duration as int) + 1);
        let ghost ni = n as int;
        let mut buckets: Vec<u64> = vec![0u64; n];
        let mut k: usize = 0;
        while k < video.len()
            invariant
                n == ni,
                n >= 1,
                k <= video@.len(),
                buckets@.len() == n,
                total_size(video@) + total_size(audio@) <= u64::MAX,
                forall|j: int| 0 <= j < n ==> #[trigger] buckets@[j] == bytes_in(video@.take(k as int), ni, j),
            decreases video@.len() - k,
        {
            let (t, size) = video[k];
            let b: usize = if t / 1000 < (n - 1) as u64 {
                (t / 1000) as usize
            } else {
                n - 1
            };
            proof {
                assert(video@.take(k as int + 1).drop_last() =~= video@.take(k as int));
                lemma_bytes_in_bounded(video@.take(k as int + 1), ni, b as int);
                lemma_total_prefix(video@, k as int + 1);
                lemma_bytes_before_bounded(audio@, ni, 0);
            }
            buckets.set(b, buckets[b] + size);
            k = k + 1;
        }
        assert(video@.take(video@.len() as int) =~= video@);
        let mut k: usize = 0;
        while k < audio.len()
            invariant
                n == ni,
                n >= 1,
                k <= audio@.len(),
                buckets@.len() == n,
                total_size(video@) + total_size(audio@) <= u64::MAX,
                forall|j: int|
                    0 <= j < n ==> #[trigger] buckets@[j] == bytes_in(video@, ni, j) + bytes_in(
                        audio@.take(k as int),
                        ni,
                        j,
                    ),
            decreases audio@.len() - k,
        {
            let (t, size) = audio[k];
            let b: usize = if t / 1000 < (n - 1) as u64 {
                (t / 1000) as usize
            } else {
                n - 1
            };
            proof {
                assert(audio@.take(k as int + 1).drop_last() =~= audio@.take(k as int));
                lemma_bytes_in_bounded(audio@.take(k as int + 1), ni, b as int);
                lemma_bytes_in_bounded(video@, ni, b as int);
                lemma_total_prefix(audio@, k as int + 1);
            }
            buckets.set(b, buckets[b] + size);
            k = k + 1;
        }
        assert(audio@.take(audio@.len() as int) =~= audio@);
        let mut cumulative: Vec<u64> = vec![0u64; n];
        proof {
            lemma_bytes_before_zero(video@, ni);
            lemma_bytes_before_zero(audio@, ni);
        }
        let mut i: usize = 1;
        while i < n
            invariant
                n == ni,
                1 <= i <= n,
                cumulative@.len() == n,
                buckets@.len() == n,
                total_size(video@) + total_size(audio@) <= u64::MAX,
                forall|j: int|
                    0 <= j < n ==> #[trigger] buckets@[j] == bytes_in(video@, ni, j) + bytes_in(
                        audio@,
                        ni,
                        j,
                    ),
                forall|j: int|
                    0 <= j < i ==> #[trigger] cumulative@[j] == bytes_before(video@, ni, j)
                        + bytes_before(audio@, ni, j),
            decreases n - i,
        {
            proof {
                lemma_bytes_before_step(video@, ni, i - 1);
                lemma_bytes_before_step(audio@, ni, i - 1);
                lemma_bytes_before_bounded(video@, ni, i as int);
                lemma_bytes_before_bounded(audio@, ni, i as int);
            }
            let v = cumulative[i - 1] + buckets[i - 1];
            cumulative.set(i, v);
            i = i + 1;
        }
        let r = BitrateMap { cumulative_bytes: cumulative, duration };
        assert forall|a: int, b: int| 0 <= a <= b < n implies r.points()[a] <= r.points()[b] by {
            lemma_nondecreasing(video@, ni, a, b);
            lemma_nondecreasing(audio@, ni, a, b);
        }
        r
    }

    /// No packet data is available for this file.
    pub fn is_empty(&self) -> (r: bool)
        ensures
            r == (self.points().len() == 0),
    {
        self.cumulative_bytes.len() == 0
    }

    /// Bytes between `start` and `end` (milliseconds): from the second at or
    /// below `start` to the second at or above `end`, clamped to the curve.
    pub fn bytes_between(&self, start: u64, end: u64) -> (r: u64)
        requires
            self.wf(),
            self.points().len() > 0,
        ensures
            r == self.spec_bytes_between(start, end),
    {
        let last: usize = self.cumulative_bytes.len() - 1;
        let start_sec: usize = if start / 1000 < last as u64 {
            (start / 1000) as usize
        } else {
            last
        };
        let end_up: u64 = end / 1000 + if end % 1000 == 0 {
            0
        } else {
            1
        };
        assert(end_up == ceil_secs(end as int));
        let end_sec: usize = if end_up < last as u64 {
            end_up as usize
        } else {
            last
        };
        self.cumulative_bytes[end_sec].saturating_sub(self.cumulative_bytes[start_sec])
    }

    /// First whole second, after the second at or below `start`, at which at
    /// least `target` bytes have been consumed since that second; the map's
    /// duration when the curve never gets that far.
    pub fn time_for_bytes(&self, start: u64, target: u64) -> (r: u64)
        requires
            self.wf(),
            self.points().len() > 0,
        ensures
            r == self.spec_time_for_bytes(start, target),
    {
        let len: usize = self.cumulative_bytes.len();
        let last: usize = len - 1;
        let start_sec: usize = if start / 1000 < last as u64 {
            (start / 1000) as usize
        } else {
            last
        };
        let base_bytes = self.cumulative_bytes[start_sec];
        let mut i: usize = start_sec + 1;
        while i < len
            invariant
                self.wf(),
                len == self.points().len(),
                start_sec == self.floor_index(start),
                start_sec < i <= len,
                base_bytes == self.points()[start_sec as int],
                self.reach_from(start_sec as int, i as int, target) == self.spec_time_for_bytes(
                    start,
                    target,
                ),
            decreases len - i,
        {
            if self.cumulative_bytes[i] - base_bytes >= target {
                assert(i as int * 1000 <= (ceil_secs(self.duration as int)) * 1000);
                return (i as u64) * 1000;
            }
            i = i + 1;
        }
        self.duration
    }
}

proof fn lemma_nondecreasing(ps: Seq<(u64, u64)>, n: int, a: int, b: int)
    requires
        a <= b,
    ensures
        bytes_before(ps, n, a) <= bytes_before(ps, n, b),
    decreases ps.len(),
{
    if ps.len() > 0 {
        lemma_nondecreasing(ps.drop_last(), n, a, b);
    }
}

/// An interval that starts and ends on the same whole second holds no bytes.
pub proof fn lemma_bytes_between_empty(m: BitrateMap, t: u64)
    requires
        m.wf(),
        m.points().len() > 0,
        t % 1000 == 0,
    ensures
        m.spec_bytes_between(t, t) == 0,
{
    assert(ceil_secs(t as int) == (t as int) / 1000);
}

/// Moving the end of an interval later never lowers its byte count.
pub proof fn lemma_bytes_between_monotonic(m: BitrateMap, start: u64, end1: u64, end2: u64)
    requires
        m.wf(),
        m.points().len() > 0,
        end1 <= end2,
    ensures
        m.spec_bytes_between(start, end1) <= m.spec_bytes_between(start, end2),
{
    assert(ceil_secs(end1 as int) <= ceil_secs(end2 as int));
    assert(m.ceil_index(end1) <= m.ceil_index(end2));
}

/// What a scan for a byte budget finds: the first point that reaches it, or
/// the duration when no point does.
pub proof fn lemma_reach_from(m: BitrateMap, base: int, i: int, target: u64)
    requires
        m.wf(),
        0 <= base < i,
    ensures
        ({
            let r = m.reach_from(base, i, target);
            ||| exists|j: int|
                i <= j < m.points().len() && #[trigger] m.reaches(base, j, target) && r == j * 1000
                    && forall|k: int| i <= k < j ==> !#[trigger] m.reaches(base, k, target)
            ||| r == m.duration && forall|k: int|
                i <= k < m.points().len() ==> !#[trigger] m.reaches(base, k, target)
        }),
    decreases m.points().len() - i,
{
    if i < m.points().len() && !m.reaches(base, i, target) {
        lemma_reach_from(m, base, i + 1, target);
    }
}

} // verus!
