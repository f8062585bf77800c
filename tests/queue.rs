use ffcut::batch::{plan_batch, AutoCutRun, AutoCutWait, BatchFile, BatchRun, BatchStartError};
use ffcut::bitrate::BitrateMap;
use ffcut::export_queue::{ExportOperation, ExportQueue, JobStatus, TrimMode};
use ffcut::silence::SilenceInterval;

fn queue_with_three() -> (ExportQueue, Vec<u32>) {
    let mut q = ExportQueue::new();
    let mut ids = Vec::new();
    for i in 0..3u64 {
        ids.push(q.add_trim(
            "in.mp4".to_string(),
            format!("out_{}.mp4", i),
            i * 1000,
            i * 1000 + 500,
            TrimMode::Lossless,
        ));
    }
    (q, ids)
}

#[test]
fn ids_are_assigned_in_order() {
    let (q, ids) = queue_with_three();
    assert_eq!(ids, vec![0, 1, 2]);
    assert_eq!(q.pending_count(), 3);
    assert!(q.has_pending());
    assert_eq!(q.total_progress(), (0, 3));
}

#[test]
fn cancel_all_fails_pending_jobs() {
    let (mut q, _) = queue_with_three();
    q.cancel_all();
    for job in &q.jobs {
        assert!(matches!(&job.status, JobStatus::Failed(r) if r == "Cancelled"));
    }
    assert!(!q.has_pending());
    assert_eq!(q.total_progress(), (3, 3));
}

#[test]
fn running_job_survives_cancel_and_holds_the_flag() {
    let (mut q, ids) = queue_with_three();
    assert_eq!(q.start_next(), Some(ids[0]));
    assert!(q.is_processing);
    // single flight: nothing else starts
    assert_eq!(q.start_next(), None);
    q.cancel_all();
    assert!(matches!(q.jobs[0].status, JobStatus::Running));
    assert!(q.is_processing);
    q.finish_job(ids[0], Ok(()));
    assert!(matches!(q.jobs[0].status, JobStatus::Completed));
    assert_eq!(q.jobs[0].progress, 100);
    assert!(!q.is_processing);
    assert_eq!(q.completed_count(), 1);
}

#[test]
fn jobs_run_first_in_first_out() {
    let (mut q, ids) = queue_with_three();
    assert_eq!(q.next_pending(), Some(0));
    assert_eq!(q.start_next(), Some(ids[0]));
    q.finish_job(ids[0], Err("codec error".to_string()));
    assert!(matches!(&q.jobs[0].status, JobStatus::Failed(r) if r == "codec error"));
    assert_eq!(q.next_pending(), Some(1));
    assert_eq!(q.start_next(), Some(ids[1]));
    assert_eq!(q.get_job(ids[1]), Some(1));
    assert_eq!(q.jobs[1].status_text(), "Running...");
}

#[test]
fn clear_finished_keeps_active_jobs() {
    let (mut q, ids) = queue_with_three();
    q.start_next();
    q.finish_job(ids[0], Ok(()));
    q.start_next();
    q.clear_finished();
    let left: Vec<u32> = q.jobs.iter().map(|j| j.id).collect();
    assert_eq!(left, vec![1, 2]);
    q.remove_job(2);
    assert_eq!(q.jobs.len(), 1);
    assert_eq!(q.get_job(2), None);
    // ids are never reused
    let id = q.add_concat(vec!["a.mp4".to_string(), "b.mp4".to_string()], "m.mp4".to_string(), "Merge".to_string());
    assert_eq!(id, 3);
    assert_eq!(q.jobs[1].input, "a.mp4");
    assert!(matches!(&q.jobs[1].operation, ExportOperation::Concat { inputs } if inputs.len() == 2));
}

#[test]
fn labelled_trim_keeps_label() {
    let mut q = ExportQueue::new();
    let id = q.add_trim_with_label("i".to_string(), "o".to_string(), 0, 10, TrimMode::Precise, "clip - Segment 1".to_string());
    assert_eq!(q.jobs[0].id, id);
    assert_eq!(q.jobs[0].segment_label, "clip - Segment 1");
    assert!(matches!(q.jobs[0].operation, ExportOperation::Trim { start: 0, end: 10, mode: TrimMode::Precise }));
    assert_eq!(q.jobs[0].status_text(), "Pending");
}

#[test]
fn batch_waits_for_every_file() {
    let mut b = BatchRun::new();
    assert_eq!(b.start(3, 1_000, true), Ok(()));
    b.record(1, vec![SilenceInterval { start: 1_000, end: 2_000 }]);
    assert!(b.poll().is_none());
    b.record(0, vec![]);
    assert!(b.poll().is_none());
    assert_eq!(b.completed(), 2);
    b.record(2, vec![]);
    let outcome = b.poll().expect("all results are in");
    assert_eq!(outcome.results.len(), 3);
    assert_eq!(outcome.results[0].0, 1);
    assert!(outcome.export_now);
    // handed over once
    assert!(b.poll().is_none());
    assert!(!b.running);
}

#[test]
fn batch_refuses_to_start_without_work() {
    let mut b = BatchRun::new();
    assert_eq!(b.start(0, 1_000, false), Err(BatchStartError::NoFiles));
    assert_eq!(b.start(2, 0, false), Err(BatchStartError::NoBudget));
    assert!(!b.running);
}

#[test]
fn auto_cut_waits_for_both_results() {
    let mut run = AutoCutRun::new();
    assert_eq!(run.waiting_for(), AutoCutWait::Idle);
    assert_eq!(run.start(false, 1_000), Err(BatchStartError::NoFiles));
    assert_eq!(run.start(true, 0), Err(BatchStartError::NoBudget));
    assert!(!run.running);
    assert_eq!(run.waiting_for(), AutoCutWait::Idle);
    assert_eq!(run.start(true, 1_000), Ok(()));
    assert_eq!(run.waiting_for(), AutoCutWait::Both);
    run.set_bitrate_map(BitrateMap::unavailable(1_000));
    assert_eq!(run.waiting_for(), AutoCutWait::Silence);
    assert!(run.poll().is_none());
    run.set_silences(vec![SilenceInterval { start: 1, end: 3 }]);
    run.set_silences(vec![SilenceInterval { start: 5, end: 9 }]);
    let (silences, map) = run.poll().expect("both results are in");
    assert_eq!(silences, vec![SilenceInterval { start: 5, end: 9 }]);
    assert!(map.is_empty());
    assert!(run.poll().is_none());
    assert!(!run.running);
}

fn batch_files() -> Vec<BatchFile> {
    let video: Vec<(u64, u64)> = (0..10u64).map(|i| (i * 1000, 100)).collect();
    vec![
        BatchFile { duration: 600_000, bitrate_bps: 8_000_000, bitrate_map: BitrateMap::unavailable(600_000) },
        BatchFile { duration: 10_000, bitrate_bps: 0, bitrate_map: BitrateMap::from_packets(10_000, &video, &Vec::new()) },
        BatchFile { duration: 100_000, bitrate_bps: 1_000_000, bitrate_map: BitrateMap::unavailable(100_000) },
    ]
}

#[test]
fn batch_plans_each_file_whatever_the_order() {
    let files = batch_files();
    let s0 = vec![SilenceInterval { start: 195_000, end: 197_000 }];
    let arrived = vec![(1, vec![]), (0, s0.clone()), (2, vec![]), (7, vec![])];
    let planned = plan_batch(&arrived, &files, 200_000_000);
    // the result naming no file is skipped
    assert_eq!(planned.iter().map(|p| p.0).collect::<Vec<_>>(), vec![1, 0, 2]);
    let other = vec![(2, vec![]), (0, s0), (1, vec![])];
    let again = plan_batch(&other, &files, 200_000_000);
    for (idx, segs) in &planned {
        let (_, same) = again.iter().find(|p| p.0 == *idx).unwrap();
        let a: Vec<(u64, u64, String, u64)> = segs.iter().map(|s| (s.start_time, s.end_time, s.label.clone(), s.estimated_size_bytes)).collect();
        let b: Vec<(u64, u64, String, u64)> = same.iter().map(|s| (s.start_time, s.end_time, s.label.clone(), s.estimated_size_bytes)).collect();
        assert_eq!(a, b);
    }
    let file0 = &planned.iter().find(|p| p.0 == 0).unwrap().1;
    assert_eq!(file0[0].end_time, 196_000);
    assert_eq!(file0[1].label, "Segment 2");
    // file 1 has a curve: 300-byte budget on 100 B/s
    let file1 = &planned.iter().find(|p| p.0 == 1).unwrap().1;
    assert_eq!(planned.len(), 3);
    assert_eq!(plan_batch(&vec![(1, vec![])], &files, 300)[0].1.len(), 4);
    assert_eq!(file1.len(), 1);
    // file 2 fits whole
    let file2 = &planned.iter().find(|p| p.0 == 2).unwrap().1;
    assert_eq!((file2[0].start_time, file2[0].end_time), (0, 100_000));
}
