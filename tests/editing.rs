use ffcut::bitrate::BitrateMap;
use ffcut::editing::{add_segment, recalculate_sizes, remove_segment, split_segment_at, EditError};
use ffcut::export_plan::{batch_job_label, export_file_name, export_parts};
use ffcut::merge::{merge_move_down, merge_move_up, sync_merge_order};
use ffcut::packets::{bitrate_map_from_lines, packets_from_lines, parse_packet_line};
use ffcut::segment::SplitSegment;

fn three() -> Vec<SplitSegment> {
    let mut segs = Vec::new();
    add_segment(&mut segs, 0, 1_000, 8_000).unwrap();
    add_segment(&mut segs, 1_000, 3_000, 8_000).unwrap();
    add_segment(&mut segs, 3_000, 6_000, 8_000).unwrap();
    segs
}

#[test]
fn add_segment_needs_a_valid_range() {
    let mut segs = three();
    assert_eq!(segs[2].label, "Segment 3");
    assert_eq!(segs[1].estimated_size_bytes, 2_000);
    assert_eq!(add_segment(&mut segs, 5_000, 5_000, 8_000), Err(EditError::InvalidRange));
    assert_eq!(segs.len(), 3);
}

#[test]
fn remove_relabels_and_fixes_selection() {
    let mut segs = three();
    let sel = remove_segment(&mut segs, Some(2), 0);
    assert_eq!(sel, Some(1));
    assert_eq!(segs.len(), 2);
    assert_eq!(segs[0].label, "Segment 1");
    assert_eq!(segs[0].start_time, 1_000);
    assert_eq!(remove_segment(&mut segs, Some(0), 7), Some(0));
    remove_segment(&mut segs, Some(0), 0);
    assert_eq!(remove_segment(&mut segs, Some(0), 0), None);
    assert!(segs.is_empty());
}

#[test]
fn split_inside_a_segment() {
    let mut segs = three();
    assert_eq!(split_segment_at(&mut segs, 1, 1_000, 8_000, None), Err(EditError::OutsideSegment));
    assert_eq!(split_segment_at(&mut segs, 5, 1_500, 8_000, None), Err(EditError::NoSuchSegment));
    assert_eq!(split_segment_at(&mut segs, 1, 2_500, 8_000, None), Ok(()));
    let bounds: Vec<(u64, u64)> = segs.iter().map(|s| (s.start_time, s.end_time)).collect();
    assert_eq!(bounds, vec![(0, 1_000), (1_000, 2_500), (2_500, 3_000), (3_000, 6_000)]);
    assert_eq!(segs[3].label, "Segment 4");
    assert_eq!(segs[1].estimated_size_bytes, 1_500);
}

#[test]
fn sizes_follow_the_curve_when_known() {
    let mut segs = three();
    let video: Vec<(u64, u64)> = (0..6u64).map(|i| (i * 1000, 10 * (i + 1))).collect();
    let m = BitrateMap::from_packets(6_000, &video, &Vec::new());
    recalculate_sizes(&mut segs, 8_000, Some(&m));
    assert_eq!(segs[0].estimated_size_bytes, 10);
    assert_eq!(segs[2].estimated_size_bytes, 40 + 50 + 60);
}

#[test]
fn packet_lines_parse() {
    assert_eq!(parse_packet_line("1.234,5678"), Some((1_234, 5_678)));
    assert_eq!(parse_packet_line(" 2.5 , 10 ,extra"), Some((2_500, 10)));
    assert_eq!(parse_packet_line("-0.021,99"), Some((0, 99)));
    assert_eq!(parse_packet_line("N/A,99"), None);
    assert_eq!(parse_packet_line("1.0"), None);
    assert_eq!(parse_packet_line("1.0,-5"), None);
    assert_eq!(parse_packet_line("1.0,18446744073709551615"), Some((1_000, u64::MAX)));
    assert_eq!(parse_packet_line("1.0,18446744073709551616"), None);
    let lines = vec!["0.5,100".to_string(), "bad".to_string(), "1.5,50".to_string()];
    assert_eq!(packets_from_lines(&lines), vec![(500, 100), (1_500, 50)]);
}

#[test]
fn bitrate_map_from_listings() {
    let video = vec!["0.5,100".to_string(), "1.5,50".to_string()];
    let audio = vec!["0.1,5".to_string()];
    let m = bitrate_map_from_lines(2_000, &video, &audio);
    assert_eq!(m.cumulative_bytes, vec![0, 105, 155]);
    let huge = vec![format!("0.1,{}", 5_000_000_000_000u64)];
    assert_eq!(bitrate_map_from_lines(2_000, &huge, &Vec::new()).cumulative_bytes, vec![0, 5_000_000_000_000, 5_000_000_000_000]);
    // no video row: no curve
    assert!(bitrate_map_from_lines(2_000, &Vec::new(), &audio).is_empty());
    assert!(bitrate_map_from_lines(2_000, &vec!["garbage".to_string()], &audio).is_empty());
    // sizes that overflow when added: no curve
    let over = vec![format!("0.1,{}", u64::MAX), "0.2,1".to_string()];
    assert!(bitrate_map_from_lines(2_000, &over, &Vec::new()).is_empty());
}

#[test]
fn export_parts_split_enabled_segments() {
    let mut segs = three();
    segs[0].enabled = false;
    // 1000 B/s, budget 1500 B -> 1470 B -> 1.47 s parts
    let parts = export_parts(&segs, 1_500, 8_000, None);
    let bounds: Vec<(u64, u64)> = parts.iter().map(|p| (p.start_time, p.end_time)).collect();
    assert_eq!(
        bounds,
        vec![(1_000, 2_470), (2_470, 3_000), (3_000, 4_470), (4_470, 5_940), (5_940, 6_000)]
    );
    assert_eq!(parts[0].label, "Segment 2 (1/2)");
    assert_eq!(parts[4].label, "Segment 3 (3/3)");
    let whole = export_parts(&segs, 0, 8_000, None);
    assert_eq!(whole.len(), 2);
}

#[test]
fn export_names() {
    assert_eq!(export_file_name("clip", 7, "mp4"), "clip_007.mp4");
    assert_eq!(export_file_name("clip", 1234, "mkv"), "clip_1234.mkv");
    assert_eq!(batch_job_label("clip", "Segment 2"), "clip - Segment 2");
}

#[test]
fn merge_order_tracks_files() {
    let mut order = vec![3, 0, 5, 1];
    sync_merge_order(&mut order, 4);
    assert_eq!(order, vec![3, 0, 1, 2]);
    merge_move_up(&mut order, 1);
    assert_eq!(order, vec![0, 3, 1, 2]);
    merge_move_up(&mut order, 0);
    assert_eq!(order, vec![0, 3, 1, 2]);
    merge_move_down(&mut order, 3);
    assert_eq!(order, vec![0, 3, 1, 2]);
    merge_move_down(&mut order, 2);
    assert_eq!(order, vec![0, 3, 2, 1]);
}
