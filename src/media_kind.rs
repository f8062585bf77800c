//! Recognising media files by their extension.

use vstd::prelude::*;
use crate::text::{lower_of, lowercase, same_text};

verus! {

/// Extension of a path (after the last dot of its file name), as
/// `Path::extension` gives it.
pub uninterp spec fn extension_of(path: Seq<char>) -> Option<Seq<char>>;

/// Relies on `std::path::Path::extension`: the extension depends on the
/// path's text alone; it is converted to text lossily.
#[verifier::external_body]
fn path_extension(path: &str) -> (r: Option<String>)
    ensures
        match r {
            Some(e) => extension_of(path@) == Some(e@),
            None => extension_of(path@) is None,
        },
{
    std::path::Path::new(path).extension().map(|e| e.to_string_lossy().to_string())
}

pub open spec fn video_extension(e: Seq<char>) -> bool {
    e == "mp4"@ || e == "mkv"@ || e == "avi"@ || e == "mov"@ || e == "webm"@ || e == "wmv"@ || e == "flv"@
        || e == "m4v"@
}

pub open spec fn audio_extension(e: Seq<char>) -> bool {
    e == "mp3"@ || e == "wav"@ || e == "aac"@ || e == "flac"@ || e == "ogg"@ || e == "m4a"@ || e == "wma"@
}

/// `ext` (already in lower case) names a video container.
pub fn is_video_extension(ext: &str) -> (r: bool)
    ensures
        r == video_extension(ext@),
{
    same_text(ext, "mp4") || same_text(ext, "mkv") || same_text(ext, "avi") || same_text(ext, "mov")
        || same_text(ext, "webm") || same_text(ext, "wmv") || same_text(ext, "flv") || same_text(ext, "m4v")
}

/// `ext` (already in lower case) names an audio format.
pub fn is_audio_extension(ext: &str) -> (r: bool)
    ensures
        r == audio_extension(ext@),
{
    same_text(ext, "mp3") || same_text(ext, "wav") || same_text(ext, "aac") || same_text(ext, "flac")
        || same_text(ext, "ogg") || same_text(ext, "m4a") || same_text(ext, "wma")
}

/// The path has an extension and, in lower case, it satisfies `kind`.
pub open spec fn extension_is(path: Seq<char>, video: bool, audio: bool) -> bool {
    match extension_of(path) {
        Some(e) => video && video_extension(lower_of(e)) || audio && audio_extension(lower_of(e)),
        None => false,
    }
}

fn has_extension(path: &str, video: bool, audio: bool) -> (r: bool)
    ensures
        r == extension_is(path@, video, audio),
{
    match path_extension(path) {
        Some(e) => {
            let lower = lowercase(e.as_str());
            video && is_video_extension(lower.as_str()) || audio && is_audio_extension(lower.as_str())
        },
        None => false,
    }
}

/// The path names a video or audio file the tool handles.
pub fn is_supported_media(path: &str) -> (r: bool)
    ensures
        r == extension_is(path@, true, true),
{
    has_extension(path, true, true)
}

/// The path names a video file.
pub fn is_video_file(path: &str) -> (r: bool)
    ensures
        r == extension_is(path@, true, false),
{
    has_extension(path, true, false)
}

/// The path names an audio file.
pub fn is_audio_file(path: &str) -> (r: bool)
    ensures
        r == extension_is(path@, false, true),
{
    has_extension(path, false, true)
}

} // verus!
