//! Playback state and preview sizing.

use vstd::prelude::*;

verus! {

#[derive(Clone, Copy, Debug, PartialEq, Eq, Structural)]
pub enum PlaybackState {
    Stopped,
    Playing,
    Paused,
}

/// Size of the preview of a `width` x `height` video: unchanged when it
/// fits 640 x 360, else scaled down to touch that box, keeping the aspect
/// ratio (rounded down).
pub open spec fn preview_size(width: int, height: int) -> (int, int) {
    if width <= 640 && height <= 360 {
        (width, height)
    } else if width * 9 > height * 16 {
        (640, 640 * height / width)
    } else {
        (360 * width / height, 360)
    }
}

pub fn calculate_preview_size(width: u32, height: u32) -> (r: (u32, u32))
    ensures
        r.0 == preview_size(width as int, height as int).0,
        r.1 == preview_size(width as int, height as int).1,
{
    if width <= 640 && height <= 360 {
        return (width, height);
    }
    let (w, h) = (width as u64, height as u64);
    if w * 9 > h * 16 {
        proof {
            let (wi, hi) = (w as int, h as int);
            assert(640 * hi / wi <= 640) by (nonlinear_arith)
                requires wi * 9 > hi * 16, wi > 0, hi >= 0;
        }
        (640, (640 * h / w) as u32)
    } else {
        proof {
            let (wi, hi) = (w as int, h as int);
            assert(hi > 0);
            assert(360 * wi / hi <= 640) by (nonlinear_arith)
                requires wi * 9 <= hi * 16, hi > 0, wi >= 0;
        }
        ((360 * w / h) as u32, 360)
    }
}

/// Playback position kept against a monotonic clock. Every reading of the
/// clock (`now`, in ms) is handed in by the caller.
#[derive(Clone, Copy, Debug, PartialEq, Eq, Structural)]
pub struct PlaybackClock {
    pub start_time: Option<u64>,
    pub paused_time: u64,
    pub offset: u64,
    pub is_paused: bool,
}

impl PlaybackClock {
    /// Position at `now`: where it was paused, or the offset plus the time
    /// since playback started.
    pub open spec fn spec_time(&self, now: u64) -> int {
        if self.is_paused {
            self.paused_time as int
        } else {
            match self.start_time {
                Some(start) => if now >= start {
                    (now - start) + self.offset
                } else {
                    self.offset as int
                },
                None => 0,
            }
        }
    }

    pub fn new() -> (r: PlaybackClock)
        ensures
            r == (PlaybackClock { start_time: None, paused_time: 0, offset: 0, is_paused: true }),
    {
        PlaybackClock { start_time: None, paused_time: 0, offset: 0, is_paused: true }
    }

    /// Starts or resumes playback at `now`, from where it was paused.
    pub fn resume(&mut self, now: u64)
        ensures
            old(self).is_paused ==> *final(self) == (PlaybackClock {
                start_time: Some(now),
                offset: old(self).paused_time,
                is_paused: false,
                ..*old(self)
            }),
            !old(self).is_paused ==> *final(self) == *old(self),
    {
        if self.is_paused {
            self.start_time = Some(now);
            self.offset = self.paused_time;
            self.is_paused = false;
        }
    }

    /// Pauses at the position reached at `now`.
    pub fn pause(&mut self, now: u64)
        requires
            old(self).spec_time(now) <= u64::MAX,
        ensures
            final(self).is_paused,
            final(self).paused_time == old(self).spec_time(now),
            final(self).spec_time(now) == old(self).spec_time(now),
    {
        if !self.is_paused {
            self.paused_time = self.get_time(now);
            self.is_paused = true;
        }
    }

    /// Back to paused at 0.
    pub fn reset(&mut self)
        ensures
            *final(self) == (PlaybackClock { start_time: None, paused_time: 0, offset: 0, is_paused: true }),
    {
        self.start_time = None;
        self.paused_time = 0;
        self.offset = 0;
        self.is_paused = true;
    }

    /// Seeks to `time` at `now`: the position reads `time` from then on.
    pub fn set_time(&mut self, time: u64, now: u64)
        ensures
            final(self).is_paused == old(self).is_paused,
            final(self).spec_time(now) == time,
    {
        if self.is_paused {
            self.paused_time = time;
        } else {
            self.start_time = Some(now);
            self.offset = time;
        }
    }

    /// The position at `now`, in ms.
    pub fn get_time(&self, now: u64) -> (r: u64)
        requires
            self.spec_time(now) <= u64::MAX,
        ensures
            r == self.spec_time(now),
    {
        if self.is_paused {
            self.paused_time
        } else {
            match self.start_time {
                Some(start) => if now >= start {
                    (now - start) + self.offset
                } else {
                    self.offset
                },
                None => 0,
            }
        }
    }

    pub fn is_paused(&self) -> (r: bool)
        ensures
            r == self.is_paused,
    {
        self.is_paused
    }
}

} // verus!
