use ffcut::parse::{parse_progress_line, parse_silence_output, parse_time, parse_time_string};
use ffcut::units::{format_bitrate, format_size, format_time};

#[test]
fn test_parse_silence_output() {
    let lines = vec![
        "[silencedetect @ 0x1234] silence_start: 10.5".to_string(),
        "[silencedetect @ 0x1234] silence_end: 12.3 | silence_duration: 1.8".to_string(),
        "[silencedetect @ 0x1234] silence_start: 45.0".to_string(),
        "[silencedetect @ 0x1234] silence_end: 46.5 | silence_duration: 1.5".to_string(),
    ];
    let intervals = parse_silence_output(&lines);
    assert_eq!(intervals.len(), 2);
    assert_eq!(intervals[0].start, 10_500);
    assert_eq!(intervals[0].end, 12_300);
    assert_eq!(intervals[1].start, 45_000);
    assert_eq!(intervals[1].end, 46_500);
}

#[test]
fn silence_end_without_start_is_dropped() {
    let lines = vec![
        "silence_end: 3 | silence_duration: 1".to_string(),
        "noise".to_string(),
        "silence_start: 7.25".to_string(),
        "silence_start: 8".to_string(),
        "silence_end: 9.1234".to_string(),
    ];
    let intervals = parse_silence_output(&lines);
    assert_eq!(intervals.len(), 1);
    assert_eq!((intervals[0].start, intervals[0].end), (8_000, 9_123));
}

#[test]
fn malformed_silence_values_are_skipped() {
    let lines = vec!["silence_start: abc".to_string(), "silence_end: 4.0".to_string()];
    assert!(parse_silence_output(&lines).is_empty());
}

#[test]
fn test_parse_progress_line() {
    let line = "frame=  100 fps= 30 q=28.0 size=    1024kB time=00:00:10.00 bitrate= 838.9kbits/s";
    let progress = parse_progress_line(line, 100_000);
    assert!(progress.is_some());
    assert_eq!(progress.unwrap(), 100);
}

#[test]
fn progress_needs_a_time_and_a_total() {
    assert_eq!(parse_progress_line("frame= 1 fps= 2", 100_000), None);
    assert_eq!(parse_progress_line("time=00:00:10.00 x", 0), None);
    assert_eq!(parse_progress_line("time=00:00:10.00", 100_000), None);
}

#[test]
fn test_parse_time_string() {
    assert_eq!(parse_time_string("00:01:30.50"), Some(90_500));
    assert_eq!(parse_time_string("01:00:00.00"), Some(3_600_000));
}

#[test]
fn time_string_needs_three_parts() {
    assert_eq!(parse_time_string("01:30"), None);
    assert_eq!(parse_time_string("1:2:3:4"), None);
}

#[test]
fn test_format_time() {
    assert_eq!(format_time(0), "00:00.000");
    assert_eq!(format_time(65_500), "01:05.500");
    assert_eq!(format_time(3_661_123), "01:01:01.123");
}

#[test]
fn test_parse_time() {
    assert_eq!(parse_time("30"), Some(30_000));
    assert_eq!(parse_time("1:30"), Some(90_000));
    assert_eq!(parse_time("1:01:30"), Some(3_690_000));
}

#[test]
fn parse_time_fractions_and_errors() {
    assert_eq!(parse_time("1.5"), Some(1_500));
    assert_eq!(parse_time(".25"), Some(250));
    assert_eq!(parse_time("2."), Some(2_000));
    assert_eq!(parse_time("0:0.1239"), Some(123));
    assert_eq!(parse_time(""), None);
    assert_eq!(parse_time("."), None);
    assert_eq!(parse_time("a:30"), None);
    assert_eq!(parse_time("1:2:3:4"), None);
    assert_eq!(parse_time("99999999999999"), None);
}

#[test]
fn sizes_are_human_readable() {
    assert_eq!(format_size(512), "512 B");
    assert_eq!(format_size(1024), "1.00 KB");
    assert_eq!(format_size(1536), "1.50 KB");
    assert_eq!(format_size(5 * 1024 * 1024), "5.00 MB");
    assert_eq!(format_size(3 * 1024 * 1024 * 1024 + 512 * 1024 * 1024), "3.50 GB");
}

#[test]
fn bitrates_are_human_readable() {
    assert_eq!(format_bitrate(999), "999 bps");
    assert_eq!(format_bitrate(192_000), "192.00 Kbps");
    assert_eq!(format_bitrate(8_000_000), "8.00 Mbps");
    assert_eq!(format_bitrate(1_234_567), "1.23 Mbps");
    assert_eq!(format_bitrate(1_236_000), "1.24 Mbps");
}
