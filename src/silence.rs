//! Silence intervals and the search for the silence nearest a cut.

use vstd::prelude::*;

verus! {

/// A stretch of near-silent audio, in milliseconds from the start of the file.
#[derive(Clone, Copy, Debug, PartialEq, Eq)]
pub struct SilenceInterval {
    pub start: u64,
    pub end: u64,
}

impl SilenceInterval {
    /// The instant halfway through the interval, rounded down.
    pub open spec fn mid(&self) -> int {
        (self.start as int + self.end as int) / 2
    }

    pub fn midpoint(&self) -> (r: u64)
        ensures
            r == self.mid(),
    {
        self.start / 2 + self.end / 2 + (self.start % 2 + self.end % 2) / 2
    }
}

/// Distance between two instants.
pub open spec fn dist(a: int, b: int) -> int {
    if a >= b {
        a - b
    } else {
        b - a
    }
}

/// Among the first `k` intervals, the index of the first one whose midpoint
/// lies in `[lo, hi]` and is closest to `target`.
pub open spec fn nearest_in_window(
    sil: Seq<SilenceInterval>,
    k: int,
    lo: int,
    hi: int,
    target: int,
) -> Option<int>
    decreases k,
{
    if k <= 0 {
        None
    } else {
        let prev = nearest_in_window(sil, k - 1, lo, hi, target);
        let m = sil[k - 1].mid();
        if lo <= m <= hi && (prev is None || dist(m, target) < dist(
            sil[prev->0].mid(),
            target,
        )) {
            Some(k - 1)
        } else {
            prev
        }
    }
}

pub proof fn lemma_nearest_in_range(sil: Seq<SilenceInterval>, k: int, lo: int, hi: int, target: int)
    requires
        k <= sil.len(),
    ensures
        nearest_in_window(sil, k, lo, hi, target) matches Some(i) ==> 0 <= i < k && lo <= sil[i].mid() <= hi,
    decreases k,
{
    if k > 0 {
        lemma_nearest_in_range(sil, k - 1, lo, hi, target);
    }
}

/// The silence whose midpoint lies in `[lo, hi]` and is closest to `target`
/// (the first such one on ties).
pub fn nearest_silence(silences: &[SilenceInterval], lo: u64, hi: u64, target: u64) -> (r: Option<
    usize,
>)
    ensures
        r is Some <==> nearest_in_window(silences@, silences@.len() as int, lo as int, hi as int, target as int) is Some,
        r matches Some(i) ==> nearest_in_window(silences@, silences@.len() as int, lo as int, hi as int, target as int)
            == Some(i as int) && i < silences@.len() && lo <= silences@[i as int].mid() <= hi,
{
    let mut best: Option<usize> = None;
    let mut best_dist: u64 = 0;
    let mut k: usize = 0;
    while k < silences.len()
        invariant
            k <= silences@.len(),
            best is Some <==> nearest_in_window(silences@, k as int, lo as int, hi as int, target as int) is Some,
            best matches Some(i) ==> nearest_in_window(silences@, k as int, lo as int, hi as int, target as int)
                == Some(i as int) && i < k && best_dist == dist(silences@[i as int].mid(), target as int),
        decreases silences@.len() - k,
    {
        let m = silences[k].midpoint();
        if lo <= m && m <= hi {
            let d: u64 = if m >= target {
                m - target
            } else {
                target - m
            };
            let better = match best {
                None => true,
                Some(_) => d < best_dist,
            };
            if better {
                best = Some(k);
                best_dist = d;
            }
        }
        k = k + 1;
    }
    proof {
        lemma_nearest_in_range(silences@, silences@.len() as int, lo as int, hi as int, target as int);
    }
    best
}

} // verus!
