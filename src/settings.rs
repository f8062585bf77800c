//! Export settings of the conversion tool and their quality presets.

use vstd::prelude::*;
use crate::commands::{default_codecs, get_default_codec_for_format};
use crate::text::{lower_of, opt_text, owned};

verus! {

/// Quality preset of an export.
#[derive(Clone, Copy, Debug, PartialEq, Eq, Structural)]
pub enum ExportPreset {
    High,
    Medium,
    Low,
    Custom,
}

impl ExportPreset {
    pub fn all() -> (r: Vec<ExportPreset>)
        ensures
            r@ == seq![ExportPreset::High, ExportPreset::Medium, ExportPreset::Low, ExportPreset::Custom],
    {
        vec![ExportPreset::High, ExportPreset::Medium, ExportPreset::Low, ExportPreset::Custom]
    }

    pub fn name(&self) -> (r: &'static str)
        ensures
            r@ == match self {
                ExportPreset::High => "High Quality"@,
                ExportPreset::Medium => "Medium Quality"@,
                ExportPreset::Low => "Low Quality / Fast"@,
                ExportPreset::Custom => "Custom"@,
            },
    {
        match self {
            ExportPreset::High => "High Quality",
            ExportPreset::Medium => "Medium Quality",
            ExportPreset::Low => "Low Quality / Fast",
            ExportPreset::Custom => "Custom",
        }
    }
}

/// Container format, codecs, bitrates (kbit/s), resolution and quality of a
/// conversion.
#[derive(Clone, Debug)]
pub struct ExportSettings {
    pub format: String,
    pub video_codec: Option<String>,
    pub audio_codec: Option<String>,
    pub video_bitrate: Option<u32>,
    pub audio_bitrate: Option<u32>,
    pub resolution: Option<(u32, u32)>,
    pub crf: Option<u32>,
    pub preset: ExportPreset,
}

impl Default for ExportSettings {
    /// MP4 with H.264 and AAC at 192 kbit/s, quality 23, medium preset.
    fn default() -> (r: ExportSettings)
        ensures
            r.format@ == "mp4"@,
            opt_text(r.video_codec) == Some("libx264"@),
            opt_text(r.audio_codec) == Some("aac"@),
            r.video_bitrate is None,
            r.audio_bitrate == Some(192u32),
            r.resolution is None,
            r.crf == Some(23u32),
            r.preset == ExportPreset::Medium,
    {
        ExportSettings {
            format: owned("mp4"),
            video_codec: Some(owned("libx264")),
            audio_codec: Some(owned("aac")),
            video_bitrate: None,
            audio_bitrate: Some(192),
            resolution: None,
            crf: Some(23),
            preset: ExportPreset::Medium,
        }
    }
}

impl ExportSettings {
    /// Records `preset` and sets quality and audio bitrate from it (18 and
    /// 320, 23 and 192, 28 and 128), clearing the video bitrate; a custom
    /// preset keeps the current values.
    pub fn apply_preset(&mut self, preset: ExportPreset)
        ensures
            final(self).preset == preset,
            final(self).format == old(self).format,
            final(self).video_codec == old(self).video_codec,
            final(self).audio_codec == old(self).audio_codec,
            final(self).resolution == old(self).resolution,
            preset == ExportPreset::Custom ==> {
                &&& final(self).crf == old(self).crf
                &&& final(self).video_bitrate == old(self).video_bitrate
                &&& final(self).audio_bitrate == old(self).audio_bitrate
            },
            preset != ExportPreset::Custom ==> final(self).video_bitrate is None,
            preset == ExportPreset::High ==> final(self).crf == Some(18u32) && final(self).audio_bitrate == Some(320u32),
            preset == ExportPreset::Medium ==> final(self).crf == Some(23u32) && final(self).audio_bitrate == Some(192u32),
            preset == ExportPreset::Low ==> final(self).crf == Some(28u32) && final(self).audio_bitrate == Some(128u32),
    {
        self.preset = preset;
        match preset {
            ExportPreset::High => {
                self.crf = Some(18);
                self.video_bitrate = None;
                self.audio_bitrate = Some(320);
            },
            ExportPreset::Medium => {
                self.crf = Some(23);
                self.video_bitrate = None;
                self.audio_bitrate = Some(192);
            },
            ExportPreset::Low => {
                self.crf = Some(28);
                self.video_bitrate = None;
                self.audio_bitrate = Some(128);
            },
            ExportPreset::Custom => {},
        }
    }

    /// Sets the container format and its default codecs.
    pub fn set_format(&mut self, format: &str)
        ensures
            final(self).format@ == format@,
            (opt_text(final(self).video_codec), opt_text(final(self).audio_codec)) == default_codecs(lower_of(format@)),
            final(self).video_bitrate == old(self).video_bitrate,
            final(self).audio_bitrate == old(self).audio_bitrate,
            final(self).resolution == old(self).resolution,
            final(self).crf == old(self).crf,
            final(self).preset == old(self).preset,
    {
        self.format = owned(format);
        let (v, a) = get_default_codec_for_format(format);
        self.video_codec = v;
        self.audio_codec = a;
    }
}

} // verus!
