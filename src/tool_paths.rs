//! Where the transcoding and probing tools are found, and the argument
//! list of a silence-detection run.

use vstd::prelude::*;
use crate::text::{decimal, owned, push_decimal, texts};
use vstd::string::StringExecFns;

verus! {

/// Program names (or paths) of the transcoder and of the prober.
#[derive(Clone, Debug)]
pub struct FFmpegWrapper {
    pub ffmpeg_path: String,
    pub ffprobe_path: String,
}

impl FFmpegWrapper {
    /// The tools as found on the search path: `ffmpeg` and `ffprobe`.
    pub fn new() -> (r: FFmpegWrapper)
        ensures
            r.ffmpeg_path@ == "ffmpeg"@,
            r.ffprobe_path@ == "ffprobe"@,
    {
        FFmpegWrapper { ffmpeg_path: owned("ffmpeg"), ffprobe_path: owned("ffprobe") }
    }

    pub fn with_paths(ffmpeg_path: String, ffprobe_path: String) -> (r: FFmpegWrapper)
        ensures
            r.ffmpeg_path == ffmpeg_path,
            r.ffprobe_path == ffprobe_path,
    {
        FFmpegWrapper { ffmpeg_path, ffprobe_path }
    }
}

/// `-n` or `n`, for a signed integer.
pub open spec fn signed_text(n: int) -> Seq<char> {
    if n < 0 {
        "-"@ + decimal((-n) as nat)
    } else {
        decimal(n as nat)
    }
}

/// Milliseconds as seconds without trailing zeros: `2`, `0.3`, `1.25`.
pub open spec fn short_seconds(ms: nat) -> Seq<char> {
    let frac = ms % 1000;
    if frac == 0 {
        decimal(ms / 1000)
    } else if frac % 100 == 0 {
        decimal(ms / 1000) + "."@ + decimal(frac / 100)
    } else if frac % 10 == 0 {
        decimal(ms / 1000) + "."@ + crate::text::zero_padded(frac / 10, 2)
    } else {
        decimal(ms / 1000) + "."@ + crate::text::zero_padded(frac, 3)
    }
}

pub open spec fn silence_detect_args(input: Seq<char>, noise_db: int, min_ms: nat) -> Seq<Seq<char>> {
    seq![
        "-i"@, input, "-vn"@, "-ac"@, "1"@, "-ar"@, "8000"@, "-af"@,
        "silencedetect=noise="@ + signed_text(noise_db) + "dB:d="@ + short_seconds(min_ms),
        "-f"@, "null"@, "-"@,
    ]
}

/// Arguments running the silence detector on `input` (audio only, mono,
/// 8 kHz): stretches below `noise_db` dB lasting at least `min_duration_ms`
/// are reported on the log; the output is discarded.
pub fn build_silence_detect_args(input: &str, noise_db: i32, min_duration_ms: u64) -> (r: Vec<String>)
    ensures
        texts(r@) == silence_detect_args(input@, noise_db as int, min_duration_ms as nat),
{
    let mut filter = owned("silencedetect=noise=");
    if noise_db < 0 {
        filter.append("-");
        push_decimal(&mut filter, (-(noise_db as i64)) as u64);
    } else {
        push_decimal(&mut filter, noise_db as u64);
    }
    filter.append("dB:d=");
    let frac = min_duration_ms % 1000;
    push_decimal(&mut filter, min_duration_ms / 1000);
    if frac != 0 {
        filter.append(".");
        if frac % 100 == 0 {
            push_decimal(&mut filter, frac / 100);
        } else if frac % 10 == 0 {
            crate::text::push_zero_padded(&mut filter, frac / 10, 2);
        } else {
            crate::text::push_zero_padded(&mut filter, frac, 3);
        }
    }
    assert(filter@ =~= "silencedetect=noise="@ + signed_text(noise_db as int) + "dB:d="@ + short_seconds(min_duration_ms as nat));
    let mut args: Vec<String> = Vec::new();
    args.push(owned("-i"));
    args.push(owned(input));
    args.push(owned("-vn"));
    args.push(owned("-ac"));
    args.push(owned("1"));
    args.push(owned("-ar"));
    args.push(owned("8000"));
    args.push(owned("-af"));
    args.push(filter);
    args.push(owned("-f"));
    args.push(owned("null"));
    args.push(owned("-"));
    assert(texts(args@) =~= silence_detect_args(input@, noise_db as int, min_duration_ms as nat));
    args
}

} // verus!
