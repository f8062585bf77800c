use ffcut::commands::{build_concat_args, build_convert_args, build_crop_args, build_trim_args, get_default_codec_for_format};
use ffcut::export_queue::TrimMode;
use ffcut::media_kind::{is_audio_file, is_supported_media, is_video_file};
use ffcut::player::{calculate_preview_size, PlaybackState};
use ffcut::settings::{ExportPreset, ExportSettings};
use ffcut::tool_paths::{build_silence_detect_args, FFmpegWrapper};
use ffcut::tools::{ActiveTool, CropPreset, CropSettings};

#[test]
fn default_codecs_ignore_case() {
    assert_eq!(get_default_codec_for_format("MP4"), (Some("libx264".to_string()), Some("aac".to_string())));
    assert_eq!(get_default_codec_for_format("webm"), (Some("libvpx-vp9".to_string()), Some("libopus".to_string())));
    assert_eq!(get_default_codec_for_format("Wav"), (None, Some("pcm_s16le".to_string())));
    assert_eq!(get_default_codec_for_format("xyz"), (None, None));
}

#[test]
fn convert_args_follow_settings() {
    let mut st = ExportSettings::default();
    st.video_bitrate = Some(2500);
    st.resolution = Some((1280, 720));
    let args = build_convert_args("in.mkv", "out.mp4", &st);
    let expected: Vec<&str> = vec![
        "-y", "-i", "in.mkv", "-c:v", "libx264", "-c:a", "aac", "-b:v", "2500k", "-b:a", "192k", "-vf",
        "scale=1280:720", "-crf", "23", "out.mp4",
    ];
    assert_eq!(args, expected);
}

#[test]
fn trim_args_by_mode() {
    let lossless = build_trim_args("a.mp4", "b.mp4", 1_500, 63_250, TrimMode::Lossless);
    assert_eq!(
        lossless,
        vec!["-y", "-ss", "1.500", "-i", "a.mp4", "-t", "61.750", "-c", "copy", "-avoid_negative_ts", "make_zero", "b.mp4"]
    );
    let precise = build_trim_args("a.mp4", "b.mp4", 0, 5, TrimMode::Precise);
    assert_eq!(precise[4], "0.000");
    assert_eq!(precise[6], "0.005");
    assert_eq!(precise[10], "ultrafast");
    let hq = build_trim_args("a.mp4", "b.mp4", 0, 5, TrimMode::HighQuality);
    assert_eq!(hq[10], "slow");
    assert_eq!(hq[16], "256k");
}

#[test]
fn crop_and_concat_args() {
    assert_eq!(build_crop_args("i", "o", 10, 20, 640, 480), vec!["-y", "-i", "i", "-vf", "crop=640:480:10:20", "o"]);
    assert_eq!(
        build_concat_args(&["x".to_string()], "o", "list.txt"),
        vec!["-y", "-f", "concat", "-safe", "0", "-i", "list.txt", "-c", "copy", "o"]
    );
}

#[test]
fn silence_detect_args_format_values() {
    let args = build_silence_detect_args("in.mp4", -30, 300);
    assert_eq!(args[8], "silencedetect=noise=-30dB:d=0.3");
    assert_eq!(args.len(), 12);
    assert_eq!(build_silence_detect_args("x", 5, 2_050)[8], "silencedetect=noise=5dB:d=2.05");
    assert_eq!(build_silence_detect_args("x", 0, 2_000)[8], "silencedetect=noise=0dB:d=2");
}

#[test]
fn presets_set_quality() {
    let mut st = ExportSettings::default();
    st.apply_preset(ExportPreset::High);
    assert_eq!((st.crf, st.audio_bitrate), (Some(18), Some(320)));
    st.apply_preset(ExportPreset::Low);
    assert_eq!((st.crf, st.audio_bitrate), (Some(28), Some(128)));
    st.video_bitrate = Some(1000);
    st.apply_preset(ExportPreset::Custom);
    assert_eq!((st.crf, st.video_bitrate), (Some(28), Some(1000)));
    assert_eq!(st.preset, ExportPreset::Custom);
    st.set_format("FLAC");
    assert_eq!(st.format, "FLAC");
    assert_eq!(st.video_codec, None);
    assert_eq!(st.audio_codec, Some("flac".to_string()));
    assert_eq!(ExportPreset::all().len(), 4);
    assert_eq!(ExportPreset::Low.name(), "Low Quality / Fast");
}

#[test]
fn crop_presets() {
    let mut c = CropSettings::default();
    c.apply_preset(CropPreset::Ratio1x1, 1920, 1080);
    assert_eq!((c.x, c.y, c.width, c.height), (420, 0, 1080, 1080));
    c.apply_preset(CropPreset::Ratio4x3, 1920, 1080);
    assert_eq!((c.x, c.y, c.width, c.height), (240, 0, 1440, 1080));
    c.apply_preset(CropPreset::Ratio16x9, 1000, 1000);
    assert_eq!((c.x, c.y, c.width, c.height), (0, 219, 1000, 562));
    c.apply_preset(CropPreset::Ratio9x16, 1920, 1080);
    assert_eq!((c.x, c.y, c.width, c.height), (656, 0, 607, 1080));
    c.apply_preset(CropPreset::Free, 10, 10);
    assert_eq!((c.width, c.height, c.preset), (607, 1080, CropPreset::Free));
    assert_eq!(CropPreset::all().len(), 5);
    assert_eq!(CropPreset::Ratio9x16.name(), "9:16");
}

#[test]
fn tool_names() {
    assert_eq!(ActiveTool::all().len(), 5);
    assert_eq!(ActiveTool::Concat.name(), "Concat");
    assert_eq!(ActiveTool::Crop.description(), "Crop video to a region");
    assert_eq!(TrimMode::all().len(), 3);
    assert_eq!(TrimMode::HighQuality.name(), "High Quality");
}

#[test]
fn media_kinds_by_extension() {
    assert!(is_video_file("/clips/Holiday.MKV"));
    assert!(!is_audio_file("/clips/Holiday.MKV"));
    assert!(is_audio_file("song.flac"));
    assert!(is_supported_media("song.m4a"));
    assert!(!is_supported_media("notes.txt"));
    assert!(!is_supported_media("README"));
    assert!(!is_video_file(".mp4"));
}

#[test]
fn preview_fits_the_box() {
    assert_eq!(calculate_preview_size(320, 240), (320, 240));
    assert_eq!(calculate_preview_size(1920, 1080), (360 * 1920 / 1080, 360));
    assert_eq!(calculate_preview_size(2560, 1080), (640, 270));
    assert_eq!(calculate_preview_size(1080, 1920), (202, 360));
}

#[test]
fn wrapper_paths() {
    let w = FFmpegWrapper::new();
    assert_eq!(w.ffmpeg_path, "ffmpeg");
    assert_eq!(w.ffprobe_path, "ffprobe");
    let w = FFmpegWrapper::with_paths("/opt/ff".to_string(), "/opt/fp".to_string());
    assert_eq!(w.ffmpeg_path, "/opt/ff");
    assert_ne!(PlaybackState::Playing, PlaybackState::Paused);
}

use ffcut::player::PlaybackClock;

#[test]
fn test_clock_basic() {
    let mut clock = PlaybackClock::new();
    assert!(clock.is_paused());
    assert_eq!(clock.get_time(5_000), 0);

    clock.resume(5_000);
    // 100 ms later
    let t = clock.get_time(5_100);
    assert!(t >= 90 && t <= 150);

    clock.pause(5_100);
    let t1 = clock.get_time(5_100);
    let t2 = clock.get_time(5_150);
    assert_eq!(t1, t2); // no advance while paused
}

#[test]
fn test_clock_seek() {
    let mut clock = PlaybackClock::new();
    clock.set_time(10_000, 0);
    assert_eq!(clock.get_time(0), 10_000);

    clock.resume(1_000);
    let t = clock.get_time(1_100);
    assert!(t >= 10_090 && t <= 10_150);
    clock.set_time(2_000, 1_200);
    assert_eq!(clock.get_time(1_500), 2_300);
    clock.reset();
    assert_eq!(clock.get_time(9_999), 0);
}
