use ffcut::bitrate::BitrateMap;
use ffcut::planner::{compute_cut_points, compute_cut_points_accurate, plan_file};
use ffcut::silence::SilenceInterval;

fn assert_contiguous(segments: &[(u64, u64)], duration: u64) {
    assert!(!segments.is_empty());
    assert_eq!(segments[0].0, 0);
    for i in 1..segments.len() {
        assert_eq!(segments[i].0, segments[i - 1].1);
    }
    for s in segments {
        assert!(s.0 < s.1 || duration == 0);
    }
    assert_eq!(segments.last().unwrap().1, duration);
}

#[test]
fn test_compute_cut_points_single_segment() {
    // 100 seconds at 1 Mbps = 12.5 MB, max = 100 MB => single segment
    let segments = compute_cut_points(100_000, 1_000_000, 100_000_000, 30_000, &[]);
    assert_eq!(segments.len(), 1);
    assert_eq!(segments[0].0, 0);
    assert_eq!(segments[0].1, 100_000);
}

#[test]
fn test_compute_cut_points_multiple_segments() {
    // 600 s at 8 Mbps = 600 MB, max = 200 MB: about 196 s per segment
    let silences = vec![
        SilenceInterval { start: 195_000, end: 197_000 },
        SilenceInterval { start: 390_000, end: 392_000 },
    ];
    let segments = compute_cut_points(600_000, 8_000_000, 200_000_000, 30_000, &silences);
    assert!(segments.len() >= 3);
    for i in 1..segments.len() {
        assert_eq!(segments[i].0, segments[i - 1].1);
    }
    assert_eq!(segments.last().unwrap().1, 600_000);
}

#[test]
fn test_compute_cut_points_no_silences() {
    let segments = compute_cut_points(600_000, 8_000_000, 200_000_000, 30_000, &[]);
    assert!(segments.len() >= 3);
    for i in 1..segments.len() {
        assert_eq!(segments[i].0, segments[i - 1].1);
    }
}

#[test]
fn cuts_land_on_silence_midpoints() {
    let silences = vec![
        SilenceInterval { start: 195_000, end: 197_000 },
        SilenceInterval { start: 390_000, end: 392_000 },
    ];
    let segments = compute_cut_points(600_000, 8_000_000, 200_000_000, 30_000, &silences);
    // 196 s of budget per segment: first ideal cut at 196 s, silence mid at 196 s;
    // next ideal at 392 s, silence mid at 391 s; then 587 s; then the end.
    assert_eq!(segments, vec![(0, 196_000), (196_000, 391_000), (391_000, 587_000), (587_000, 600_000)]);
}

#[test]
fn uniform_cuts_without_silence_are_even() {
    let segments = compute_cut_points(600_000, 8_000_000, 200_000_000, 30_000, &[]);
    assert_eq!(segments, vec![(0, 196_000), (196_000, 392_000), (392_000, 588_000), (588_000, 600_000)]);
}

#[test]
fn degenerate_inputs_give_one_segment() {
    assert_eq!(compute_cut_points(0, 8_000_000, 1000, 30_000, &[]), vec![(0, 0)]);
    assert_eq!(compute_cut_points(5000, 0, 1000, 30_000, &[]), vec![(0, 5000)]);
    assert_eq!(compute_cut_points(5000, 8_000_000, 0, 30_000, &[]), vec![(0, 5000)]);
}

#[test]
fn file_that_fits_exactly_is_one_segment() {
    // 98 bytes of budget at 8 bits per second last 98 s.
    assert_eq!(compute_cut_points(98_000, 8, 100, 0, &[]), vec![(0, 98_000)]);
    // 98.5 s at 8 bps is 98.5 bytes, under 98 % of 101 bytes (98.98)
    assert_eq!(compute_cut_points(98_500, 8, 101, 0, &[]), vec![(0, 98_500)]);
    // 99 s is 99 bytes, over it
    assert_eq!(compute_cut_points(99_000, 8, 101, 0, &[]).len(), 2);
    // within 0.1 s of the end the last segment just closes
    assert_eq!(compute_cut_points(98_100, 8, 100, 0, &[]), vec![(0, 98_100)]);
    let two = compute_cut_points(98_200, 8, 100, 0, &[]);
    assert_eq!(two, vec![(0, 98_000), (98_000, 98_200)]);
}

#[test]
fn silence_too_far_for_budget_is_ignored() {
    // Budget lasts 10 s; a silence at 10.5 s is in the window but past the budget.
    let silences = vec![SilenceInterval { start: 10_000, end: 11_000 }];
    let segments = compute_cut_points(30_000, 8, 11, 5_000, &silences);
    // eff = 10 bytes => 10 s per segment
    assert_eq!(segments[0], (0, 10_000));
    assert_contiguous(&segments, 30_000);
}

#[test]
fn silence_just_before_the_end_still_covers_duration() {
    let silences = vec![SilenceInterval { start: 19_940, end: 19_960 }];
    let segments = compute_cut_points(20_000, 8, 11, 5_000, &silences);
    assert_contiguous(&segments, 20_000);
}

fn map_of(duration: u64, per_second: &[u64]) -> BitrateMap {
    let video: Vec<(u64, u64)> = per_second.iter().enumerate().map(|(i, b)| (i as u64 * 1000, *b)).collect();
    BitrateMap::from_packets(duration, &video, &Vec::new())
}

#[test]
fn accurate_plan_follows_the_curve() {
    // 10 s, 100 bytes in each second; budget 300 -> eff 294 bytes.
    let m = map_of(10_000, &[100; 10]);
    let segments = compute_cut_points_accurate(10_000, 300, 0, &[], &m);
    assert_eq!(segments, vec![(0, 3_000), (3_000, 6_000), (6_000, 9_000), (9_000, 10_000)]);
    for (s, e) in &segments[..segments.len() - 1] {
        // over the budget only within the last second
        assert!(m.bytes_between(*s, *e - 1000) < 294);
    }
}

#[test]
fn accurate_plan_prefers_silence_within_budget() {
    let m = map_of(10_000, &[100; 10]);
    // midpoint 2.0 s: 200 bytes, within budget
    let silences = vec![SilenceInterval { start: 1_900, end: 2_100 }];
    let segments = compute_cut_points_accurate(10_000, 300, 1_500, &silences, &m);
    assert_eq!(segments[0], (0, 2_000));
    assert_contiguous(&segments, 10_000);
    assert!(m.bytes_between(0, 2_000) <= 294);
    // midpoint 2.2 s: counted up to 3 s, 300 bytes, over budget
    let late = vec![SilenceInterval { start: 2_000, end: 2_400 }];
    let segments = compute_cut_points_accurate(10_000, 300, 1_500, &late, &m);
    assert_eq!(segments[0], (0, 3_000));
}

#[test]
fn accurate_plan_single_when_file_fits() {
    let m = map_of(10_000, &[10; 10]);
    assert_eq!(compute_cut_points_accurate(10_000, 300, 1_500, &[], &m), vec![(0, 10_000)]);
    let empty = BitrateMap::unavailable(10_000);
    assert_eq!(compute_cut_points_accurate(10_000, 300, 1_500, &[], &empty), vec![(0, 10_000)]);
}

#[test]
fn accurate_plan_advances_at_least_a_second() {
    // A single second holds more than the whole budget.
    let m = map_of(5_000, &[1000, 1000, 1000, 1000, 1000]);
    let segments = compute_cut_points_accurate(5_000, 100, 0, &[], &m);
    assert_contiguous(&segments, 5_000);
    for (s, e) in &segments {
        assert!(e - s >= 1000);
    }
}

#[test]
fn plan_file_picks_strategy_by_map() {
    let m = map_of(10_000, &[100; 10]);
    let with_map = plan_file(10_000, 8, 300, &[], Some(&m));
    assert_eq!(with_map, compute_cut_points_accurate(10_000, 300, 30_000, &[], &m));
    let without = plan_file(10_000, 8_000, 300, &[], None);
    assert_eq!(without, compute_cut_points(10_000, 8_000, 300, 30_000, &[]));
    let empty = BitrateMap::unavailable(10_000);
    assert_eq!(plan_file(10_000, 8_000, 300, &[], Some(&empty)), without);
}
