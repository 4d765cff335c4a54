use audio_pipeline::media::AudioExtractor;
use audio_pipeline::parts::PartManager;

#[test]
fn part_count_exact_multiple_has_no_trailing_empty_part() {
    let pm = PartManager::new(String::from("out"), 600, 30);
    assert_eq!(pm.part_count(3600), 6);
    // the last part ends exactly at the duration
    assert_eq!(pm.part_time_range(5, 3600), (3000, 3600));
}

#[test]
fn part_ranges_are_contiguous_and_cover_the_track() {
    let pm = PartManager::new(String::from("out"), 600, 30);
    let d = 3700u64;
    let count = pm.part_count(d);
    assert_eq!(count, 7);
    let mut expected_start = 0u64;
    for i in 0..count {
        let (start, end) = pm.part_time_range(i, d);
        assert_eq!(start, expected_start);
        assert!(start < end);
        expected_start = end;
    }
    assert_eq!(expected_start, d);
}

#[test]
fn one_second_track_is_one_part() {
    let pm = PartManager::new(String::from("out"), 600, 30);
    assert_eq!(pm.part_count(1), 1);
    assert_eq!(pm.part_time_range(0, 1), (0, 1));
}

#[test]
fn track_shorter_than_one_part_is_one_part() {
    let pm = PartManager::new(String::from("out"), 600, 30);
    assert_eq!(pm.part_count(599), 1);
    assert_eq!(pm.part_time_range(0, 599), (0, 599));
}

#[test]
fn segments_for_part_selects_by_start_offset() {
    let extractor = AudioExtractor::new(String::from("tmp"));
    let segments = extractor.segment_audio(3700, 30).unwrap();
    assert_eq!(segments.len(), 124);
    let pm = PartManager::new(String::from("out"), 600, 30);
    let first = pm.segments_for_part(0, 3700, &segments);
    let expected: Vec<usize> = (0..20).collect();
    assert_eq!(first, expected);
    let last = pm.segments_for_part(6, 3700, &segments);
    // part 6 covers [3600, 3700): segments starting at 3600, 3630, 3660, 3690
    assert_eq!(last, vec![120, 121, 122, 123]);
}

#[test]
fn segment_plan_covers_the_track() {
    let extractor = AudioExtractor::new(String::from("tmp"));
    let segments = extractor.segment_audio(100, 30).unwrap();
    assert_eq!(segments.len(), 4);
    assert_eq!(segments[0].path, "tmp/segment_0.mp3");
    assert_eq!(segments[3].path, "tmp/segment_3.mp3");
    assert_eq!(segments[0].start_secs, 0);
    assert_eq!(segments[0].duration_secs, 30);
    assert_eq!(segments[3].start_secs, 90);
    assert_eq!(segments[3].duration_secs, 10);
    for (i, s) in segments.iter().enumerate() {
        assert_eq!(s.index, i);
    }
}

#[test]
fn segment_plan_rejects_zero_length() {
    let extractor = AudioExtractor::new(String::from("tmp"));
    assert!(extractor.segment_audio(0, 30).is_err());
    assert!(extractor.segment_audio(100, 0).is_err());
}
