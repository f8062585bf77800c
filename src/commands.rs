//! Argument lists for the external transcoding tool, and the default codecs
//! of each container format.

use vstd::prelude::*;
use crate::export_queue::TrimMode;
use crate::settings::ExportSettings;
use vstd::string::{StrSliceExecFns, StringExecFns};
use crate::text::{decimal, lower_of, lowercase, opt_text, owned, push_decimal, push_zero_padded, same_text, texts, zero_padded};

verus! {

/// Default `(video, audio)` codecs of a lower-case format name.
pub open spec fn default_codecs(fmt: Seq<char>) -> (Option<Seq<char>>, Option<Seq<char>>) {
    if fmt == "mp4"@ || fmt == "mkv"@ || fmt == "mov"@ {
        (Some("libx264"@), Some("aac"@))
    } else if fmt == "webm"@ {
        (Some("libvpx-vp9"@), Some("libopus"@))
    } else if fmt == "avi"@ {
        (Some("mpeg4"@), Some("mp3"@))
    } else if fmt == "mp3"@ {
        (None, Some("libmp3lame"@))
    } else if fmt == "aac"@ {
        (None, Some("aac"@))
    } else if fmt == "wav"@ {
        (None, Some("pcm_s16le"@))
    } else if fmt == "flac"@ {
        (None, Some("flac"@))
    } else {
        (None, None)
    }
}

fn some_text(s: &str) -> (r: Option<String>)
    ensures
        opt_text(r) == Some(s@),
{
    Some(owned(s))
}

/// Default codecs of a format name that is already in lower case.
pub fn codecs_for_lowercase_format(fmt: &str) -> (r: (Option<String>, Option<String>))
    ensures
        (opt_text(r.0), opt_text(r.1)) == default_codecs(fmt@),
{
    if same_text(fmt, "mp4") || same_text(fmt, "mkv") || same_text(fmt, "mov") {
        (some_text("libx264"), some_text("aac"))
    } else if same_text(fmt, "webm") {
        (some_text("libvpx-vp9"), some_text("libopus"))
    } else if same_text(fmt, "avi") {
        (some_text("mpeg4"), some_text("mp3"))
    } else if same_text(fmt, "mp3") {
        (None, some_text("libmp3lame"))
    } else if same_text(fmt, "aac") {
        (None, some_text("aac"))
    } else if same_text(fmt, "wav") {
        (None, some_text("pcm_s16le"))
    } else if same_text(fmt, "flac") {
        (None, some_text("flac"))
    } else {
        (None, None)
    }
}

/// Default `(video, audio)` codecs of a format name, in any case.
pub fn get_default_codec_for_format(format: &str) -> (r: (Option<String>, Option<String>))
    ensures
        (opt_text(r.0), opt_text(r.1)) == default_codecs(lower_of(format@)),
{
    let lower = lowercase(format);
    codecs_for_lowercase_format(lower.as_str())
}

/// An optional `flag value` pair.
pub open spec fn opt_flag(flag: Seq<char>, value: Option<Seq<char>>) -> Seq<Seq<char>> {
    match value {
        Some(v) => seq![flag, v],
        None => seq![],
    }
}

/// Arguments converting `input` into `output` with `st`.
pub open spec fn convert_args(input: Seq<char>, output: Seq<char>, st: ExportSettings) -> Seq<Seq<char>> {
    seq!["-y"@, "-i"@, input] + opt_flag("-c:v"@, opt_text(st.video_codec)) + opt_flag(
        "-c:a"@,
        opt_text(st.audio_codec),
    ) + opt_flag(
        "-b:v"@,
        match st.video_bitrate {
            Some(b) => Some(decimal(b as nat) + "k"@),
            None => None,
        },
    ) + opt_flag(
        "-b:a"@,
        match st.audio_bitrate {
            Some(b) => Some(decimal(b as nat) + "k"@),
            None => None,
        },
    ) + opt_flag(
        "-vf"@,
        match st.resolution {
            Some((w, h)) => Some("scale="@ + decimal(w as nat) + ":"@ + decimal(h as nat)),
            None => None,
        },
    ) + opt_flag(
        "-crf"@,
        match st.crf {
            Some(c) => Some(decimal(c as nat)),
            None => None,
        },
    ) + seq![output]
}

fn push_flag(args: &mut Vec<String>, flag: &str, value: String)
    ensures
        texts(final(args)@) == texts(old(args)@) + seq![flag@, value@],
{
    args.push(owned(flag));
    args.push(value);
    assert(texts(final(args)@) =~= texts(old(args)@) + seq![flag@, value@]);
}

fn push_arg(args: &mut Vec<String>, value: String)
    ensures
        texts(final(args)@) == texts(old(args)@).push(value@),
{
    args.push(value);
    assert(texts(final(args)@) =~= texts(old(args)@).push(value@));
}

/// `n` followed by `suffix`.
fn number_with(n: u32, suffix: &str) -> (r: String)
    ensures
        r@ == decimal(n as nat) + suffix@,
{
    let mut s = String::new();
    push_decimal(&mut s, n as u64);
    s.append(suffix);
    s
}

/// Arguments converting `input` into `output` with the codecs, bitrates
/// (kbit/s), resolution and quality of `settings`.
pub fn build_convert_args(input: &str, output: &str, settings: &ExportSettings) -> (r: Vec<String>)
    ensures
        texts(r@) == convert_args(input@, output@, *settings),
{
    let mut args: Vec<String> = Vec::new();
    push_arg(&mut args, owned("-y"));
    push_arg(&mut args, owned("-i"));
    push_arg(&mut args, owned(input));
    assert(texts(args@) =~= seq!["-y"@, "-i"@, input@]);
    let ghost a0 = texts(args@);
    match &settings.video_codec {
        Some(v) => push_flag(&mut args, "-c:v", v.clone()),
        None => {},
    }
    assert(texts(args@) =~= a0 + opt_flag("-c:v"@, opt_text(settings.video_codec)));
    let ghost a1 = texts(args@);
    match &settings.audio_codec {
        Some(v) => push_flag(&mut args, "-c:a", v.clone()),
        None => {},
    }
    assert(texts(args@) =~= a1 + opt_flag("-c:a"@, opt_text(settings.audio_codec)));
    match settings.video_bitrate {
        Some(b) => push_flag(&mut args, "-b:v", number_with(b, "k")),
        None => {},
    }
    match settings.audio_bitrate {
        Some(b) => push_flag(&mut args, "-b:a", number_with(b, "k")),
        None => {},
    }
    match settings.resolution {
        Some((w, h)) => {
            let mut s = owned("scale=");
            push_decimal(&mut s, w as u64);
            s.append(":");
            push_decimal(&mut s, h as u64);
            push_flag(&mut args, "-vf", s);
        },
        None => {},
    }
    match settings.crf {
        Some(c) => push_flag(&mut args, "-crf", decimal_string_u32(c)),
        None => {},
    }
    push_arg(&mut args, owned(output));
    assert(texts(args@) =~= convert_args(input@, output@, *settings));
    args
}

fn decimal_string_u32(n: u32) -> (r: String)
    ensures
        r@ == decimal(n as nat),
{
    crate::text::decimal_string(n as u64)
}

/// Seconds with three decimals, from milliseconds: `"S.mmm"`.
pub open spec fn seconds_text(ms: nat) -> Seq<char> {
    decimal(ms / 1000) + "."@ + zero_padded(ms % 1000, 3)
}

fn seconds_string(ms: u64) -> (r: String)
    ensures
        r@ == seconds_text(ms as nat),
{
    let mut s = String::new();
    push_decimal(&mut s, ms / 1000);
    s.append(".");
    push_zero_padded(&mut s, ms % 1000, 3);
    s
}

/// Arguments cutting `[start, end]` (ms) out of `input` into `output`.
pub open spec fn trim_args(input: Seq<char>, output: Seq<char>, start: nat, end: nat, mode: TrimMode) -> Seq<
    Seq<char>,
> {
    let ss = seconds_text(start);
    let t = seconds_text((end - start) as nat);
    match mode {
        TrimMode::Lossless => seq![
            "-y"@, "-ss"@, ss, "-i"@, input, "-t"@, t, "-c"@, "copy"@,
            "-avoid_negative_ts"@, "make_zero"@, output,
        ],
        TrimMode::Precise => seq![
            "-y"@, "-i"@, input, "-ss"@, ss, "-t"@, t, "-c:v"@, "libx264"@, "-preset"@,
            "ultrafast"@, "-crf"@, "18"@, "-c:a"@, "aac"@, "-b:a"@, "192k"@, output,
        ],
        TrimMode::HighQuality => seq![
            "-y"@, "-i"@, input, "-ss"@, ss, "-t"@, t, "-c:v"@, "libx264"@, "-preset"@,
            "slow"@, "-crf"@, "18"@, "-c:a"@, "aac"@, "-b:a"@, "256k"@, output,
        ],
    }
}

fn strings_of(parts: &[&str]) -> (r: Vec<String>)
    ensures
        r@.len() == parts@.len(),
        forall|i: int| 0 <= i < parts@.len() ==> (#[trigger] r@[i])@ == parts@[i]@,
{
    let mut out: Vec<String> = Vec::new();
    let mut i: usize = 0;
    while i < parts.len()
        invariant
            i <= parts@.len(),
            out@.len() == i,
            forall|k: int| 0 <= k < i ==> (#[trigger] out@[k])@ == parts@[k]@,
        decreases parts@.len() - i,
    {
        out.push(owned(parts[i]));
        i = i + 1;
    }
    out
}

/// Arguments cutting `[start, end]` (ms) out of `input`: a stream copy
/// seeking before the input, or a fast or slow re-encode seeking after it.
pub fn build_trim_args(input: &str, output: &str, start: u64, end: u64, mode: TrimMode) -> (r: Vec<String>)
    requires
        start <= end,
    ensures
        texts(r@) == trim_args(input@, output@, start as nat, end as nat, mode),
{
    let ss = seconds_string(start);
    let t = seconds_string(end - start);
    let args: Vec<&str> = match mode {
        TrimMode::Lossless => vec![
            "-y", "-ss", ss.as_str(), "-i", input, "-t", t.as_str(), "-c", "copy",
            "-avoid_negative_ts", "make_zero", output,
        ],
        TrimMode::Precise => vec![
            "-y", "-i", input, "-ss", ss.as_str(), "-t", t.as_str(), "-c:v", "libx264", "-preset",
            "ultrafast", "-crf", "18", "-c:a", "aac", "-b:a", "192k", output,
        ],
        TrimMode::HighQuality => vec![
            "-y", "-i", input, "-ss", ss.as_str(), "-t", t.as_str(), "-c:v", "libx264", "-preset",
            "slow", "-crf", "18", "-c:a", "aac", "-b:a", "256k", output,
        ],
    };
    let r = strings_of(args.as_slice());
    assert(texts(r@) =~= trim_args(input@, output@, start as nat, end as nat, mode));
    r
}

/// Arguments cropping `input` to the `width` x `height` region at `(x, y)`.
pub open spec fn crop_args(input: Seq<char>, output: Seq<char>, x: nat, y: nat, width: nat, height: nat) -> Seq<
    Seq<char>,
> {
    seq![
        "-y"@, "-i"@, input, "-vf"@,
        "crop="@ + decimal(width) + ":"@ + decimal(height) + ":"@ + decimal(x) + ":"@ + decimal(y),
        output,
    ]
}

pub fn build_crop_args(input: &str, output: &str, x: u32, y: u32, width: u32, height: u32) -> (r: Vec<String>)
    ensures
        texts(r@) == crop_args(input@, output@, x as nat, y as nat, width as nat, height as nat),
{
    let mut filter = owned("crop=");
    push_decimal(&mut filter, width as u64);
    filter.append(":");
    push_decimal(&mut filter, height as u64);
    filter.append(":");
    push_decimal(&mut filter, x as u64);
    filter.append(":");
    push_decimal(&mut filter, y as u64);
    let r = strings_of(vec!["-y", "-i", input, "-vf", filter.as_str(), output].as_slice());
    assert(texts(r@) =~= crop_args(input@, output@, x as nat, y as nat, width as nat, height as nat));
    r
}

/// Arguments joining the files listed in `list_file` into `output` by
/// stream copy. The inputs themselves go into the list file.
pub fn build_concat_args(inputs: &[String], output: &str, list_file: &str) -> (r: Vec<String>)
    ensures
        texts(r@) == seq![
            "-y"@, "-f"@, "concat"@, "-safe"@, "0"@, "-i"@, list_file@, "-c"@, "copy"@, output@,
        ],
{
    let r = strings_of(
        vec!["-y", "-f", "concat", "-safe", "0", "-i", list_file, "-c", "copy", output].as_slice(),
    );
    assert(texts(r@) =~= seq![
        "-y"@, "-f"@, "concat"@, "-safe"@, "0"@, "-i"@, list_file@, "-c"@, "copy"@, output@,
    ]);
    r
}

/// A path as the concat list writes it: `\` becomes `/`, and `'` becomes
/// `'\''` so that it survives inside single quotes.
pub open spec fn escaped_path(p: Seq<char>) -> Seq<char>
    decreases p.len(),
{
    if p.len() == 0 {
        seq![]
    } else {
        escaped_path(p.drop_last()) + if p.last() == '\\' {
            seq!['/']
        } else if p.last() == '\'' {
            seq!['\'', '\\', '\'', '\'']
        } else {
            seq![p.last()]
        }
    }
}

/// The concat list of the inputs: one `file '<path>'` line each.
pub open spec fn concat_list(inputs: Seq<String>) -> Seq<char>
    decreases inputs.len(),
{
    if inputs.len() == 0 {
        seq![]
    } else {
        concat_list(inputs.drop_last()) + "file '"@ + escaped_path(inputs.last()@) + "'\n"@
    }
}

fn push_escaped(out: &mut String, p: &str)
    ensures
        final(out)@ == old(out)@ + escaped_path(p@),
{
    let n = p.unicode_len();
    let mut i: usize = 0;
    proof {
        reveal_strlit("/");
        reveal_strlit("'\\''");
    }
    while i < n
        invariant
            n == p@.len(),
            i <= n,
            out@ == old(out)@ + escaped_path(p@.take(i as int)),
        decreases n - i,
    {
        let c = p.get_char(i);
        assert(p@.take(i as int + 1).drop_last() =~= p@.take(i as int));
        assert(p@.take(i as int + 1).last() == c);
        let ghost before = out@;
        if c == '\\' {
            out.append("/");
            proof {
                reveal_strlit("/");
                assert("/"@ =~= seq!['/']);
            }
        } else if c == '\'' {
            out.append("'\\''");
            proof {
                reveal_strlit("'\\''");
                assert("'\\''"@ =~= seq!['\'', '\\', '\'', '\'']);
            }
        } else {
            let one = p.substring_char(i, i + 1);
            out.append(one);
            assert(one@ =~= seq![c]);
        }
        i = i + 1;
        assert(out@ =~= old(out)@ + escaped_path(p@.take(i as int)));
    }
    assert(p@.take(n as int) =~= p@);
}

/// Text of the list file that the concat demuxer reads.
pub fn concat_list_text(inputs: &Vec<String>) -> (r: String)
    ensures
        r@ == concat_list(inputs@),
{
    let mut s = String::new();
    let mut k: usize = 0;
    proof {
        reveal_strlit("file '");
        reveal_strlit("'\n");
    }
    while k < inputs.len()
        invariant
            k <= inputs@.len(),
            s@ == concat_list(inputs@.take(k as int)),
        decreases inputs@.len() - k,
    {
        assert(inputs@.take(k as int + 1).drop_last() =~= inputs@.take(k as int));
        s.append("file '");
        push_escaped(&mut s, inputs[k].as_str());
        s.append("'\n");
        k = k + 1;
        assert(s@ =~= concat_list(inputs@.take(k as int)));
    }
    assert(inputs@.take(k as int) =~= inputs@);
    s
}

} // verus!
