use ffcut::bitrate::BitrateMap;
use ffcut::segment::{auto_split_segment, compute_bitrate, estimate_segment_size, segments_from_cuts, SplitSegment};

fn seg(start: u64, end: u64, label: &str, size: u64) -> SplitSegment {
    let mut s = SplitSegment::new(start, end, label.to_string());
    s.estimated_size_bytes = size;
    s
}

fn same(a: &SplitSegment, b: &SplitSegment) -> bool {
    a.start_time == b.start_time
        && a.end_time == b.end_time
        && a.label == b.label
        && a.enabled == b.enabled
        && a.estimated_size_bytes == b.estimated_size_bytes
}

#[test]
fn segment_within_budget_is_unchanged() {
    let s = seg(1_000, 5_000, "Segment 1", 900);
    let out = auto_split_segment(&s, 1_000, 8_000, None);
    assert_eq!(out.len(), 1);
    assert!(same(&out[0], &s));
    // splitting the result again changes nothing
    let again = auto_split_segment(&out[0], 1_000, 8_000, None);
    assert_eq!(again.len(), 1);
    assert!(same(&again[0], &s));
}

#[test]
fn zero_budget_keeps_segment() {
    let s = seg(0, 5_000, "A", 1_000_000);
    let out = auto_split_segment(&s, 0, 8_000, None);
    assert_eq!(out.len(), 1);
    assert!(same(&out[0], &s));
}

#[test]
fn uniform_split_without_map() {
    // 10 s at 8000 bps = 1000 B/s, stored estimate 10 000 B, budget 3000 B
    // -> 2940 B usable -> 2.94 s parts -> 4 parts
    let mut s = seg(0, 10_000, "Intro", 10_000);
    s.enabled = false;
    let out = auto_split_segment(&s, 3_000, 8_000, None);
    assert_eq!(out.len(), 4);
    let bounds: Vec<(u64, u64)> = out.iter().map(|p| (p.start_time, p.end_time)).collect();
    assert_eq!(bounds, vec![(0, 2_940), (2_940, 5_880), (5_880, 8_820), (8_820, 10_000)]);
    assert_eq!(out[0].label, "Intro (1/4)");
    assert_eq!(out[3].label, "Intro (4/4)");
    assert_eq!(out[0].estimated_size_bytes, 2_940);
    assert_eq!(out[3].estimated_size_bytes, 1_180);
    assert!(out.iter().all(|p| !p.enabled));
}

#[test]
fn uniform_split_needs_a_bitrate() {
    let s = seg(0, 10_000, "X", 10_000);
    let out = auto_split_segment(&s, 3_000, 0, None);
    assert_eq!(out.len(), 1);
    assert!(same(&out[0], &s));
}

#[test]
fn map_split_walks_the_curve() {
    let video: Vec<(u64, u64)> = (0..10u64).map(|i| (i * 1000, 100)).collect();
    let m = BitrateMap::from_packets(10_000, &video, &Vec::new());
    // the stored estimate is ignored when a curve is available
    let s = seg(0, 10_000, "Part", 1);
    let out = auto_split_segment(&s, 300, 8_000, Some(&m));
    let bounds: Vec<(u64, u64)> = out.iter().map(|p| (p.start_time, p.end_time)).collect();
    assert_eq!(bounds, vec![(0, 3_000), (3_000, 6_000), (6_000, 9_000), (9_000, 10_000)]);
    assert_eq!(out[1].label, "Part (2/4)");
    assert_eq!(out[3].estimated_size_bytes, 100);
    // a remainder under a second joins the last part
    let s = seg(0, 9_500, "Tail", 1);
    let out = auto_split_segment(&s, 300, 8_000, Some(&m));
    let bounds: Vec<(u64, u64)> = out.iter().map(|p| (p.start_time, p.end_time)).collect();
    assert_eq!(bounds, vec![(0, 3_000), (3_000, 6_000), (6_000, 9_500)]);
}

#[test]
fn empty_map_falls_back_to_estimate() {
    let m = BitrateMap::unavailable(10_000);
    let s = seg(0, 10_000, "Y", 900);
    let out = auto_split_segment(&s, 1_000, 8_000, Some(&m));
    assert_eq!(out.len(), 1);
}

#[test]
fn size_and_bitrate_estimates() {
    assert_eq!(estimate_segment_size(8_000_000, 0, 2_000), 2_000_000);
    assert_eq!(estimate_segment_size(1, 0, 1_000), 0);
    assert_eq!(compute_bitrate(Some(5_000), Some(128), 0, 0), 5_128);
    assert_eq!(compute_bitrate(Some(5_000), None, 0, 0), 5_000);
    assert_eq!(compute_bitrate(None, Some(128), 0, 0), 128);
    assert_eq!(compute_bitrate(None, None, 1_000_000, 8_000), 1_000_000);
    assert_eq!(compute_bitrate(None, None, 1_000_000, 0), 0);
    assert_eq!(compute_bitrate(Some(u64::MAX), Some(1), 0, 0), u64::MAX);
}

#[test]
fn segments_are_labelled_and_sized() {
    let cuts = vec![(0, 1_000), (1_000, 3_000)];
    let out = segments_from_cuts(&cuts, 8_000, None);
    assert_eq!(out.len(), 2);
    assert_eq!(out[0].label, "Segment 1");
    assert_eq!(out[1].label, "Segment 2");
    assert_eq!(out[1].estimated_size_bytes, 2_000);
    assert!(out[1].enabled);
    let m = BitrateMap::from_packets(3_000, &vec![(0, 10), (1_500, 20), (2_500, 30)], &Vec::new());
    let out = segments_from_cuts(&cuts, 8_000, Some(&m));
    assert_eq!(out[1].estimated_size_bytes, 50);
}
