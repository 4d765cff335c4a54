use audio_pipeline::segments::SegmentResults;
use audio_pipeline::segments::TranscriptionPool;
use audio_pipeline::text::assemble_text;
use audio_pipeline::text::manifest_text;
use audio_pipeline::text::output_name;

#[test]
fn assembly_is_in_index_order_whatever_the_completion_order() {
    let mut results = SegmentResults::new(3);
    results.set_result(2, String::from("c"));
    results.set_result(0, String::from("a"));
    results.set_result(1, String::from("b"));
    let text = assemble_text(&results, false, 30);
    assert_eq!(text, "a\nb\nc\n");
}

#[test]
fn assembly_skips_failed_and_empty_segments() {
    let mut results = SegmentResults::new(4);
    results.set_result(0, String::from("first"));
    results.set_result(2, String::from(""));
    results.set_result(3, String::from("last"));
    let text = assemble_text(&results, false, 30);
    assert_eq!(text, "first\nlast\n");
}

#[test]
fn timestamps_prefix_each_segment_with_its_start() {
    let mut results = SegmentResults::new(3);
    results.set_result(0, String::from("one"));
    results.set_result(1, String::from("two"));
    results.set_result(2, String::from("three"));
    let text = assemble_text(&results, true, 30);
    assert_eq!(text, "[0s] one\n[30s] two\n[60s] three\n");
}

#[test]
fn output_names_are_deterministic() {
    let base = String::from("lecture");
    assert_eq!(output_name(&base, None), "lecture.txt");
    assert_eq!(output_name(&base, Some(0)), "lecture_part1.txt");
    assert_eq!(output_name(&base, Some(11)), "lecture_part12.txt");
}

#[test]
fn manifest_lists_every_part_in_order() {
    let base = String::from("lecture");
    let manifest = manifest_text(&base, 3);
    assert_eq!(manifest, "lecture_part1.txt\nlecture_part2.txt\nlecture_part3.txt\n");
    assert_eq!(manifest_text(&base, 0), "");
}

#[test]
fn pool_records_outcomes_and_plans_the_complement() {
    let pool = TranscriptionPool::new(4, 3);
    let mut results = SegmentResults::new(5);
    let outcomes = vec![(3, String::from("d")), (0, String::from("a"))];
    pool.record_outcomes(&mut results, &outcomes);
    assert_eq!(results.success_count(), 2);
    assert_eq!(results.pending_segments(), vec![1, 2, 4]);
    // the second pass retries exactly the complement
    assert_eq!(pool.dispatch_plan(&results), vec![1, 2, 4]);
}

#[test]
fn interrupted_pool_dispatches_nothing_and_keeps_partial_results() {
    let mut pool = TranscriptionPool::new(4, 3);
    let mut results = SegmentResults::new(3);
    pool.record_outcomes(&mut results, &vec![(1, String::from("kept"))]);
    pool.set_interrupt_flag(true);
    assert_eq!(pool.dispatch_plan(&results), Vec::<usize>::new());
    assert_eq!(results.get(1), Some(&String::from("kept")));
}
