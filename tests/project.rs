use ffcut::commands::concat_list_text;
use ffcut::export_queue::{ExportQueue, TrimMode};
use ffcut::filters::{build_filter_args, FilterSettings};
use ffcut::project::{parse_framerate, MediaFile, MediaInfo, Project, Timeline, TimelineClip};
use ffcut::task::TaskProgress;

fn info(duration: u64, width: u32, height: u32, video: bool) -> MediaInfo {
    MediaInfo {
        duration,
        width,
        height,
        video_codec: if video { Some("h264".to_string()) } else { None },
        audio_codec: Some("aac".to_string()),
        video_bitrate: None,
        audio_bitrate: None,
        framerate: None,
        sample_rate: None,
        channels: None,
        format_name: "mov,mp4".to_string(),
        file_size: 0,
    }
}

#[test]
fn media_file_text() {
    let f = MediaFile { path: "/videos/trip.mp4".to_string(), info: info(65_500, 1920, 1080, true) };
    assert_eq!(f.filename(), "trip.mp4");
    assert_eq!(f.resolution_string(), "1920x1080");
    assert_eq!(f.duration_string(), "01:05.500");
    assert!(f.is_video());
    assert!(!f.is_audio_only());
    let a = MediaFile { path: "/".to_string(), info: info(0, 0, 0, false) };
    assert_eq!(a.filename(), "Unknown");
    assert_eq!(a.resolution_string(), "N/A");
    assert!(a.is_audio_only());
}

#[test]
fn project_durations_add_up() {
    let mut p = Project::new();
    assert_eq!(p.name, "Untitled Project");
    p.files.push(MediaFile { path: "a.mp4".to_string(), info: info(1_000, 0, 0, true) });
    p.files.push(MediaFile { path: "b.mp4".to_string(), info: info(2_500, 0, 0, true) });
    assert_eq!(p.total_duration(), 3_500);
    p.clear();
    assert_eq!(p.total_duration(), 0);
}

#[test]
fn timeline_places_clips_end_to_end() {
    let mut t = Timeline::new();
    t.add_clip(0, 5_000);
    t.add_clip(1, 3_000);
    assert_eq!(t.clips[1], TimelineClip { file_index: 1, start_time: 0, end_time: 3_000, position: 5_000 });
    assert_eq!(t.total_duration(), 8_000);
    assert_eq!(t.clips[0].duration(), 5_000);
    t.remove_clip(0);
    assert_eq!(t.total_duration(), 8_000);
    t.remove_clip(9);
    assert_eq!(t.clips.len(), 1);
    t.clear();
    assert_eq!(t.total_duration(), 0);
}

#[test]
fn framerates() {
    assert_eq!(parse_framerate("30000/1001"), Some(29_970));
    assert_eq!(parse_framerate("25/1"), Some(25_000));
    assert_eq!(parse_framerate("29.97"), Some(29_970));
    assert_eq!(parse_framerate("0/0"), None);
    assert_eq!(parse_framerate("x/1"), None);
}

#[test]
fn filter_args_combine() {
    let mut f = FilterSettings::default();
    assert_eq!(build_filter_args("i", "o", &f), vec!["-y", "-i", "i", "o"]);
    f.resize = Some((1280, 720));
    f.rotation = Some(180);
    f.flip_vertical = true;
    f.volume = Some(150);
    f.normalize_audio = true;
    assert_eq!(
        build_filter_args("i", "o", &f),
        vec!["-y", "-i", "i", "-vf", "scale=1280:720,transpose=1,transpose=1,vflip", "-af", "volume=1.5,loudnorm", "o"]
    );
    f.volume = Some(101);
    f.normalize_audio = false;
    f.rotation = Some(45);
    assert_eq!(build_filter_args("i", "o", &f), vec!["-y", "-i", "i", "-vf", "scale=1280:720,vflip", "o"]);
    f.volume = Some(25);
    assert_eq!(build_filter_args("i", "o", &f)[6], "volume=0.25");
}

#[test]
fn task_progress_lifecycle() {
    let mut t = TaskProgress::new("Export");
    assert_eq!(t.message, "Export...");
    t.update(1_500, "almost");
    assert_eq!(t.progress, 1_000);
    t.update(400, "going");
    assert_eq!((t.progress, t.message.as_str()), (400, "going"));
    t.fail("disk full");
    assert!(t.is_complete && t.is_error);
    assert_eq!(t.progress, 400);
    let mut u = TaskProgress::new("Probe");
    u.complete("done");
    assert!(u.is_complete && !u.is_error);
    assert_eq!(u.progress, 1_000);
}

#[test]
fn job_descriptions() {
    let mut q = ExportQueue::new();
    q.add_trim_with_label("/in/a.mp4".to_string(), "/out/a_001.mp4".to_string(), 1_000, 13_340, TrimMode::Lossless, "Segment 1".to_string());
    q.add_trim("/in/a.mp4".to_string(), "/out/b.mp4".to_string(), 0, 250, TrimMode::HighQuality);
    q.add_concat(vec!["x.mp4".to_string(), "y.mp4".to_string()], "/out/merged_output.mp4".to_string(), "Merge 2 files".to_string());
    assert_eq!(q.jobs[0].description(), "[Segment 1] a.mp4 -> a_001.mp4 (12.3s, Lossless)");
    assert_eq!(q.jobs[1].description(), "a.mp4 -> b.mp4 (0.2s, High Quality)");
    assert_eq!(q.jobs[2].description(), "Merge 2 files -> merged_output.mp4");
    q.add_trim("a".to_string(), "b".to_string(), 5_000, 1_000, TrimMode::Precise);
    assert_eq!(q.jobs[3].description(), "a -> b (0.0s, Precise)");
}

#[test]
fn concat_list_escapes_paths() {
    let inputs = vec!["C:\\clips\\a.mp4".to_string(), "/tmp/it's.mp4".to_string()];
    assert_eq!(concat_list_text(&inputs), "file 'C:/clips/a.mp4'\nfile '/tmp/it'\\''s.mp4'\n");
}
