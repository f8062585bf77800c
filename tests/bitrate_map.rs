use ffcut::bitrate::BitrateMap;

fn sample() -> BitrateMap {
    // 3.5 s: packets at 0.2 s (100), 1.9 s (50), 2.0 s (30), 9 s (5, clamped
    // into the last point, which no interval reaches past)
    let video = vec![(200, 100), (1_900, 50), (2_000, 30), (9_000, 5)];
    let audio = vec![(500, 10), (3_400, 7)];
    BitrateMap::from_packets(3_500, &video, &audio)
}

#[test]
fn cumulative_curve_from_packets() {
    let m = sample();
    assert_eq!(m.cumulative_bytes, vec![0, 110, 160, 190, 197]);
    assert_eq!(m.duration, 3_500);
    assert!(!m.is_empty());
}

#[test]
fn unavailable_map_is_empty() {
    let m = BitrateMap::unavailable(10_000);
    assert!(m.is_empty());
}

#[test]
fn bytes_between_rounds_outward() {
    let m = sample();
    assert_eq!(m.bytes_between(0, 1_000), 110);
    assert_eq!(m.bytes_between(500, 1_500), 160);
    assert_eq!(m.bytes_between(1_000, 1_000), 0);
    assert_eq!(m.bytes_between(2_000, 2_000), 0);
    assert_eq!(m.bytes_between(0, 99_000), 197);
}

#[test]
fn bytes_between_grows_with_end() {
    let m = sample();
    let mut last = 0;
    for end in (0..5_000).step_by(250) {
        let b = m.bytes_between(700, end);
        assert!(b >= last);
        last = b;
    }
}

#[test]
fn time_for_bytes_finds_first_second() {
    let m = sample();
    assert_eq!(m.time_for_bytes(0, 110), 1_000);
    assert_eq!(m.time_for_bytes(0, 111), 2_000);
    assert_eq!(m.time_for_bytes(1_200, 60), 3_000);
    assert_eq!(m.time_for_bytes(0, 1_000), 3_500);
}
