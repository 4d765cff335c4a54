use audio_pipeline::processor::MultiPartSession;
use audio_pipeline::records::PartStat;
use audio_pipeline::records::ProcessingRecord;
use audio_pipeline::records::RecordTable;
use audio_pipeline::text::manifest_text;

fn stat(total: usize, ok: usize) -> PartStat {
    PartStat { total_segments: total, successful_segments: ok, output_file: None }
}

#[test]
fn resumed_run_dispatches_only_the_pending_part() {
    let mut record = ProcessingRecord::with_parts(String::from("t0"), 3);
    record.mark_part_complete(0, stat(10, 10), String::from("t1"));
    record.mark_part_complete(1, stat(10, 9), String::from("t2"));
    assert!(!record.completed);
    assert_eq!(record.pending_parts(), vec![2]);

    let mut session = MultiPartSession::begin(Some(record), 3, String::from("t3"));
    assert_eq!(session.next_part(false), Some(2));
    assert!(!session.is_finished());
    session.complete_part(2, stat(10, 10), String::from("t4"));
    // completed becomes true only once the last part is checkpointed
    assert!(session.is_finished());
    assert_eq!(session.next_part(false), None);
}

#[test]
fn completed_record_causes_zero_new_dispatches_and_same_manifest() {
    let mut record = ProcessingRecord::with_parts(String::from("t0"), 2);
    record.mark_part_complete(0, stat(5, 5), String::from("t1"));
    record.mark_part_complete(1, stat(5, 5), String::from("t2"));
    assert!(record.completed);
    assert_eq!(record.pending_parts(), Vec::<usize>::new());

    let base = String::from("talk");
    let first = manifest_text(&base, record.total_parts);
    let mut session = MultiPartSession::begin(Some(record), 2, String::from("t3"));
    assert_eq!(session.next_part(false), None);
    assert!(session.is_finished());
    let again = manifest_text(&base, session.into_record().total_parts);
    assert_eq!(first, again);
}

#[test]
fn marking_a_part_twice_keeps_the_set() {
    let mut record = ProcessingRecord::with_parts(String::from("t0"), 3);
    record.mark_part_complete(1, stat(4, 4), String::from("t1"));
    record.mark_part_complete(1, stat(4, 3), String::from("t2"));
    assert_eq!(record.processed_parts, vec![1]);
    assert!(!record.completed);
    let st = record.stat_for_part(1).unwrap();
    assert_eq!(st.successful_segments, 3);
}

#[test]
fn parts_complete_in_any_order() {
    let mut record = ProcessingRecord::with_parts(String::from("t0"), 3);
    record.mark_part_complete(2, stat(1, 1), String::from("t1"));
    record.mark_part_complete(0, stat(1, 1), String::from("t2"));
    assert_eq!(record.processed_parts, vec![0, 2]);
    assert_eq!(record.pending_parts(), vec![1]);
    record.mark_part_complete(1, stat(1, 0), String::from("t3"));
    assert!(record.completed);
}

#[test]
fn session_interrupt_leaves_parts_pending() {
    let record = ProcessingRecord::with_parts(String::from("t0"), 3);
    let mut session = MultiPartSession::begin(Some(record), 3, String::from("t1"));
    assert_eq!(session.next_part(false), Some(0));
    session.complete_part(0, stat(2, 2), String::from("t2"));
    // the interrupt is polled before the next part is handed out
    assert_eq!(session.next_part(true), None);
    let record = session.into_record();
    assert!(!record.completed);
    assert_eq!(record.pending_parts(), vec![1, 2]);
}

#[test]
fn session_with_changed_part_count_starts_fresh() {
    let mut record = ProcessingRecord::with_parts(String::from("t0"), 2);
    record.mark_part_complete(0, stat(1, 1), String::from("t1"));
    let session = MultiPartSession::begin(Some(record), 4, String::from("t2"));
    assert_eq!(session.record.total_parts, 4);
    assert_eq!(session.record.processed_parts, Vec::<usize>::new());
    assert_eq!(session.pending, vec![0, 1, 2, 3]);
}

#[test]
fn record_table_keys_paths_uniquely() {
    let mut table = RecordTable::new();
    assert_eq!(table.len(), 0);
    let path = String::from("/media/a.mp3");
    assert!(!table.contains_path(&path));
    table.put(path.clone(), ProcessingRecord::with_parts(String::from("t0"), 2));
    assert!(table.contains_path(&path));
    assert_eq!(table.len(), 1);
    table.put(path.clone(), ProcessingRecord::with_parts(String::from("t1"), 3));
    assert_eq!(table.len(), 1);
    assert_eq!(table.get(&path).unwrap().total_parts, 3);
    let taken = table.take(&path).unwrap();
    assert_eq!(taken.last_processed_time, "t1");
    assert!(!table.contains_path(&path));
}

#[test]
fn default_record_is_empty_and_incomplete() {
    let record = ProcessingRecord::default();
    assert_eq!(record.total_parts, 0);
    assert!(record.processed_parts.is_empty());
    assert!(!record.completed);
}

#[test]
fn saved_record_loads_back_identically() {
    let mut record = ProcessingRecord::with_parts(String::from("t0"), 3);
    record.mark_part_complete(2, stat(4, 4), String::from("t1"));
    record.mark_part_complete(0, stat(4, 2), String::from("t2"));
    let reloaded = ProcessingRecord::from_saved(
        record.last_processed_time.clone(),
        record.total_parts,
        &record.processed_parts,
        &record.part_stats,
    );
    assert_eq!(reloaded.processed_parts, record.processed_parts);
    assert_eq!(reloaded.total_parts, record.total_parts);
    assert_eq!(reloaded.completed, record.completed);
    assert_eq!(reloaded.pending_parts(), record.pending_parts());
    assert_eq!(reloaded.stat_for_part(0).unwrap().successful_segments, 2);
}

#[test]
fn loading_drops_out_of_range_and_duplicate_parts() {
    let parts = vec![0, 5, 0];
    let record = ProcessingRecord::from_saved(String::from("t"), 2, &parts, &Vec::new());
    assert_eq!(record.processed_parts, vec![0]);
    assert!(!record.completed);
    assert_eq!(record.pending_parts(), vec![1]);
}

#[test]
fn reloaded_statistics_match_the_saved_ones() {
    let parts = vec![0, 2];
    let stats = vec![
        (0, PartStat {
            total_segments: 7,
            successful_segments: 6,
            output_file: Some(String::from("talk_part1.txt")),
        }),
    ];
    let record = ProcessingRecord::from_saved(String::from("t"), 3, &parts, &stats);
    let restored = record.stat_for_part(0).unwrap();
    assert_eq!(restored.total_segments, 7);
    assert_eq!(restored.successful_segments, 6);
    assert_eq!(restored.output_file.as_deref(), Some("talk_part1.txt"));
    // a kept part without saved statistics gets empty ones
    let empty = record.stat_for_part(2).unwrap();
    assert_eq!(empty.total_segments, 0);
    assert_eq!(empty.successful_segments, 0);
    assert!(empty.output_file.is_none());
    // a part that was never completed has no statistics entry
    assert!(record.stat_for_part(1).is_none());
}
