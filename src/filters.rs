//! Video and audio filters of the filter tool, and their arguments.

use vstd::prelude::*;
use vstd::string::StringExecFns;
use crate::text::{decimal, join_texts, joined, owned, push_decimal, push_zero_padded, texts, zero_padded};

verus! {

/// Filters to apply. `volume` is a gain in percent (100 leaves the level
/// as it is).
#[derive(Clone, Copy, Debug)]
pub struct FilterSettings {
    pub resize: Option<(u32, u32)>,
    pub rotation: Option<u32>,
    pub flip_horizontal: bool,
    pub flip_vertical: bool,
    pub volume: Option<u32>,
    pub normalize_audio: bool,
}

impl Default for FilterSettings {
    /// No filter, volume unchanged.
    fn default() -> (r: FilterSettings)
        ensures
            r == (FilterSettings {
                resize: None,
                rotation: None,
                flip_horizontal: false,
                flip_vertical: false,
                volume: Some(100),
                normalize_audio: false,
            }),
    {
        FilterSettings {
            resize: None,
            rotation: None,
            flip_horizontal: false,
            flip_vertical: false,
            volume: Some(100),
            normalize_audio: false,
        }
    }
}

/// Hundredths as a decimal without trailing zeros: `1.5`, `2`, `0.25`.
pub open spec fn short_hundredths(p: nat) -> Seq<char> {
    if p % 100 == 0 {
        decimal(p / 100)
    } else if p % 10 == 0 {
        decimal(p / 100) + "."@ + decimal((p % 100) / 10)
    } else {
        decimal(p / 100) + "."@ + zero_padded(p % 100, 2)
    }
}

pub open spec fn video_filters(f: FilterSettings) -> Seq<Seq<char>> {
    (match f.resize {
        Some((w, h)) => seq!["scale="@ + decimal(w as nat) + ":"@ + decimal(h as nat)],
        None => seq![],
    }) + (match f.rotation {
        Some(r) => if r == 90 {
            seq!["transpose=1"@]
        } else if r == 180 {
            seq!["transpose=1,transpose=1"@]
        } else if r == 270 {
            seq!["transpose=2"@]
        } else {
            seq![]
        },
        None => seq![],
    }) + (if f.flip_horizontal {
        seq!["hflip"@]
    } else {
        seq![]
    }) + (if f.flip_vertical {
        seq!["vflip"@]
    } else {
        seq![]
    })
}

pub open spec fn audio_filters(f: FilterSettings) -> Seq<Seq<char>> {
    (match f.volume {
        Some(p) => if p > 101 || p < 99 {
            seq!["volume="@ + short_hundredths(p as nat)]
        } else {
            seq![]
        },
        None => seq![],
    }) + (if f.normalize_audio {
        seq!["loudnorm"@]
    } else {
        seq![]
    })
}

pub open spec fn filter_args(input: Seq<char>, output: Seq<char>, f: FilterSettings) -> Seq<Seq<char>> {
    let v = video_filters(f);
    let a = audio_filters(f);
    seq!["-y"@, "-i"@, input] + (if v.len() > 0 {
        seq!["-vf"@, joined(v, ","@)]
    } else {
        seq![]
    }) + (if a.len() > 0 {
        seq!["-af"@, joined(a, ","@)]
    } else {
        seq![]
    }) + seq![output]
}

fn push_text(v: &mut Vec<String>, s: String)
    ensures
        texts(final(v)@) == texts(old(v)@).push(s@),
{
    v.push(s);
    assert(texts(final(v)@) =~= texts(old(v)@).push(s@));
}

fn volume_text(p: u32) -> (r: String)
    ensures
        r@ == "volume="@ + short_hundredths(p as nat),
{
    let mut s = owned("volume=");
    push_decimal(&mut s, (p / 100) as u64);
    if p % 100 != 0 {
        s.append(".");
        if p % 10 == 0 {
            push_decimal(&mut s, ((p % 100) / 10) as u64);
        } else {
            push_zero_padded(&mut s, (p % 100) as u64, 2);
        }
    }
    s
}

/// Arguments applying the filters of `filters` to `input`: resize,
/// rotation by a quarter, half or three quarters of a turn, flips, a volume
/// change of more than 1 %, and loudness normalisation.
pub fn build_filter_args(input: &str, output: &str, filters: &FilterSettings) -> (r: Vec<String>)
    ensures
        texts(r@) == filter_args(input@, output@, *filters),
{
    let mut vf: Vec<String> = Vec::new();
    match filters.resize {
        Some((w, h)) => {
            let mut s = owned("scale=");
            push_decimal(&mut s, w as u64);
            s.append(":");
            push_decimal(&mut s, h as u64);
            push_text(&mut vf, s);
        },
        None => {},
    }
    match filters.rotation {
        Some(r) => {
            if r == 90 {
                push_text(&mut vf, owned("transpose=1"));
            } else if r == 180 {
                push_text(&mut vf, owned("transpose=1,transpose=1"));
            } else if r == 270 {
                push_text(&mut vf, owned("transpose=2"));
            }
        },
        None => {},
    }
    if filters.flip_horizontal {
        push_text(&mut vf, owned("hflip"));
    }
    if filters.flip_vertical {
        push_text(&mut vf, owned("vflip"));
    }
    assert(texts(vf@) =~= video_filters(*filters));
    let mut af: Vec<String> = Vec::new();
    match filters.volume {
        Some(p) => {
            if p > 101 || p < 99 {
                push_text(&mut af, volume_text(p));
            }
        },
        None => {},
    }
    if filters.normalize_audio {
        push_text(&mut af, owned("loudnorm"));
    }
    assert(texts(af@) =~= audio_filters(*filters));
    let mut args: Vec<String> = Vec::new();
    push_text(&mut args, owned("-y"));
    push_text(&mut args, owned("-i"));
    push_text(&mut args, owned(input));
    if vf.len() > 0 {
        push_text(&mut args, owned("-vf"));
        push_text(&mut args, join_texts(&vf, ","));
    }
    if af.len() > 0 {
        push_text(&mut args, owned("-af"));
        push_text(&mut args, join_texts(&af, ","));
    }
    push_text(&mut args, owned(output));
    assert(texts(args@) =~= filter_args(input@, output@, *filters));
    args
}

} // verus!
