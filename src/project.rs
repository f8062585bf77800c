//! The files of a project, what probing told of them, and the timeline
//! they are laid out on.

use vstd::prelude::*;
use vstd::string::StringExecFns;
use crate::bitrate::MAX_DURATION_MS;
use crate::parse::{bounded_millis, chars_of, find_char, millis_in, next_char};
use crate::text::{decimal, owned, push_decimal};
use crate::units::{format_time, time_text};

verus! {

/// What probing a media file told: duration in ms, frame size, codecs,
/// bitrates (bit/s), frame rate in thousandths of a frame per second,
/// audio sampling, container and size in bytes.
#[derive(Clone, Debug)]
pub struct MediaInfo {
    pub duration: u64,
    pub width: u32,
    pub height: u32,
    pub video_codec: Option<String>,
    pub audio_codec: Option<String>,
    pub video_bitrate: Option<u64>,
    pub audio_bitrate: Option<u64>,
    pub framerate: Option<u64>,
    pub sample_rate: Option<u32>,
    pub channels: Option<u32>,
    pub format_name: String,
    pub file_size: u64,
}

/// A frame rate `N/D` or `N`, in thousandths of a frame per second (rounded
/// down); `N` and `D` are decimal numbers and `D` is not 0.
pub open spec fn framerate_millis(s: Seq<char>) -> Option<nat> {
    let slash = next_char(s, 0, s.len() as int, '/');
    if slash == s.len() {
        bounded_millis(s)
    } else {
        match (bounded_millis(s.subrange(0, slash)), bounded_millis(s.subrange(slash + 1, s.len() as int))) {
            (Some(n), Some(d)) => if d > 0 {
                Some(n * 1000 / d)
            } else {
                None
            },
            _ => None,
        }
    }
}

pub fn parse_framerate(text: &str) -> (r: Option<u64>)
    ensures
        r matches Some(v) ==> framerate_millis(text@) == Some(v as nat),
        r is None ==> framerate_millis(text@) is None,
{
    let s = chars_of(text);
    let n = s.len();
    let slash = find_char(&s, 0, n, '/');
    assert(s@.subrange(0, n as int) =~= s@);
    if slash == n {
        return millis_in(&s, 0, n);
    }
    match (millis_in(&s, 0, slash), millis_in(&s, slash + 1, n)) {
        (Some(num), Some(den)) => {
            if den > 0 {
                proof {
                    assert(num as int * 1000 <= MAX_DURATION_MS * 1000);
                }
                Some(num * 1000 / den)
            } else {
                None
            }
        },
        _ => None,
    }
}

/// Name of the last component of a path, as `Path::file_name` gives it.
pub uninterp spec fn file_name_of(path: Seq<char>) -> Option<Seq<char>>;

/// Relies on `std::path::Path::file_name`: the name depends on the path's
/// text alone; it is converted to text lossily.
#[verifier::external_body]
pub(crate) fn path_file_name(path: &str) -> (r: Option<String>)
    ensures
        match r {
            Some(n) => file_name_of(path@) == Some(n@),
            None => file_name_of(path@) is None,
        },
{
    std::path::Path::new(path).file_name().map(|n| n.to_string_lossy().to_string())
}

/// A file of the project and what is known of it.
#[derive(Clone, Debug)]
pub struct MediaFile {
    pub path: String,
    pub info: MediaInfo,
}

impl MediaFile {
    /// The file's name, or `"Unknown"` when the path has none.
    pub fn filename(&self) -> (r: String)
        ensures
            r@ == match file_name_of(self.path@) {
                Some(n) => n,
                None => "Unknown"@,
            },
    {
        match path_file_name(self.path.as_str()) {
            Some(n) => n,
            None => owned("Unknown"),
        }
    }

    pub fn is_video(&self) -> (r: bool)
        ensures
            r == self.info.video_codec is Some,
    {
        self.info.video_codec.is_some()
    }

    pub fn is_audio_only(&self) -> (r: bool)
        ensures
            r == (self.info.audio_codec is Some && self.info.video_codec is None),
    {
        self.info.audio_codec.is_some() && self.info.video_codec.is_none()
    }

    /// `"WxH"`, or `"N/A"` when a dimension is unknown.
    pub fn resolution_string(&self) -> (r: String)
        ensures
            r@ == if self.info.width > 0 && self.info.height > 0 {
                decimal(self.info.width as nat) + "x"@ + decimal(self.info.height as nat)
            } else {
                "N/A"@
            },
    {
        if self.info.width > 0 && self.info.height > 0 {
            let mut s = String::new();
            push_decimal(&mut s, self.info.width as u64);
            s.append("x");
            push_decimal(&mut s, self.info.height as u64);
            s
        } else {
            owned("N/A")
        }
    }

    pub fn duration_string(&self) -> (r: String)
        ensures
            r@ == time_text(self.info.duration as nat),
    {
        format_time(self.info.duration)
    }
}

/// Total of the durations of the files.
pub open spec fn durations_sum(files: Seq<MediaFile>) -> int
    decreases files.len(),
{
    if files.len() == 0 {
        0
    } else {
        durations_sum(files.drop_last()) + files.last().info.duration
    }
}

/// A named set of files.
#[derive(Clone, Debug)]
pub struct Project {
    pub name: String,
    pub files: Vec<MediaFile>,
}

impl Project {
    pub fn new() -> (r: Project)
        ensures
            r.name@ == "Untitled Project"@,
            r.files@.len() == 0,
    {
        Project { name: owned("Untitled Project"), files: Vec::new() }
    }

    pub fn clear(&mut self)
        ensures
            final(self).files@.len() == 0,
            final(self).name == old(self).name,
    {
        self.files.clear();
    }

    /// Sum of the durations of the files, in ms, capped at `u64::MAX`.
    pub fn total_duration(&self) -> (r: u64)
        ensures
            r == if durations_sum(self.files@) <= u64::MAX {
                durations_sum(self.files@)
            } else {
                u64::MAX as int
            },
    {
        let mut sum: u64 = 0;
        let mut k: usize = 0;
        while k < self.files.len()
            invariant
                k <= self.files@.len(),
                sum == durations_sum(self.files@.take(k as int)),
            decreases self.files@.len() - k,
        {
            assert(self.files@.take(k as int + 1).drop_last() =~= self.files@.take(k as int));
            let d = self.files[k].info.duration;
            if d > u64::MAX - sum {
                proof {
                    lemma_sum_prefix(self.files@, k as int + 1);
                }
                return u64::MAX;
            }
            sum = sum + d;
            k = k + 1;
        }
        assert(self.files@.take(k as int) =~= self.files@);
        sum
    }
}

proof fn lemma_sum_prefix(files: Seq<MediaFile>, k: int)
    requires
        0 <= k <= files.len(),
    ensures
        durations_sum(files.take(k)) <= durations_sum(files),
    decreases files.len() - k,
{
    if k < files.len() {
        lemma_sum_prefix(files, k + 1);
        assert(files.take(k + 1).drop_last() =~= files.take(k));
    } else {
        assert(files.take(k) =~= files);
    }
}

/// A file placed on the timeline: its `[start_time, end_time]` (ms) shown
/// from `position` on.
#[derive(Clone, Copy, Debug, PartialEq, Eq, Structural)]
pub struct TimelineClip {
    pub file_index: usize,
    pub start_time: u64,
    pub end_time: u64,
    pub position: u64,
}

impl TimelineClip {
    /// The whole of a file of `duration` ms, at `position`.
    pub fn new(file_index: usize, duration: u64, position: u64) -> (r: TimelineClip)
        ensures
            r == (TimelineClip { file_index, start_time: 0, end_time: duration, position }),
    {
        TimelineClip { file_index, start_time: 0, end_time: duration, position }
    }

    pub fn duration(&self) -> (r: u64)
        requires
            self.start_time <= self.end_time,
        ensures
            r == self.end_time - self.start_time,
    {
        self.end_time - self.start_time
    }
}

/// Where the timeline ends: the latest end of a clip, 0 when empty.
pub open spec fn timeline_end(clips: Seq<TimelineClip>) -> int
    decreases clips.len(),
{
    if clips.len() == 0 {
        0
    } else {
        let c = clips.last();
        let e = c.position + (c.end_time - c.start_time);
        let rest = timeline_end(clips.drop_last());
        if e > rest {
            e
        } else {
            rest
        }
    }
}

/// Clips fit the durations handled.
pub open spec fn clips_ok(clips: Seq<TimelineClip>) -> bool {
    forall|i: int|
        0 <= i < clips.len() ==> (#[trigger] clips[i]).start_time <= clips[i].end_time <= MAX_DURATION_MS
            && clips[i].position <= MAX_DURATION_MS
}

/// Clips laid out one after the other.
#[derive(Clone, Debug)]
pub struct Timeline {
    pub clips: Vec<TimelineClip>,
}

impl Timeline {
    pub fn new() -> (r: Timeline)
        ensures
            r.clips@.len() == 0,
    {
        Timeline { clips: Vec::new() }
    }

    pub fn total_duration(&self) -> (r: u64)
        requires
            clips_ok(self.clips@),
        ensures
            r == timeline_end(self.clips@),
    {
        let mut end: u64 = 0;
        let mut k: usize = 0;
        while k < self.clips.len()
            invariant
                k <= self.clips@.len(),
                clips_ok(self.clips@),
                end == timeline_end(self.clips@.take(k as int)),
                end <= 2 * MAX_DURATION_MS,
            decreases self.clips@.len() - k,
        {
            assert(self.clips@.take(k as int + 1).drop_last() =~= self.clips@.take(k as int));
            let c = self.clips[k];
            let e = c.position + (c.end_time - c.start_time);
            if e > end {
                end = e;
            }
            k = k + 1;
        }
        assert(self.clips@.take(k as int) =~= self.clips@);
        end
    }

    /// Appends the whole of file `file_index` (`duration` ms) at the end of
    /// the timeline.
    pub fn add_clip(&mut self, file_index: usize, duration: u64)
        requires
            clips_ok(old(self).clips@),
            duration <= MAX_DURATION_MS,
            timeline_end(old(self).clips@) <= MAX_DURATION_MS,
        ensures
            final(self).clips@ == old(self).clips@.push(
                TimelineClip { file_index, start_time: 0, end_time: duration, position: timeline_end(old(self).clips@) as u64 },
            ),
    {
        let position = self.total_duration();
        self.clips.push(TimelineClip::new(file_index, duration, position));
    }

    pub fn remove_clip(&mut self, index: usize)
        ensures
            index < old(self).clips@.len() ==> final(self).clips@ == old(self).clips@.remove(index as int),
            index >= old(self).clips@.len() ==> final(self).clips@ == old(self).clips@,
    {
        if index < self.clips.len() {
            self.clips.remove(index);
        }
    }

    pub fn clear(&mut self)
        ensures
            final(self).clips@.len() == 0,
    {
        self.clips.clear();
    }
}

} // verus!
