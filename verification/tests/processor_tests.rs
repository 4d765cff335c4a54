use audio_pipeline::errors::AudioProcessorError;
use audio_pipeline::errors::AudioToolsError;
use audio_pipeline::media::AudioExtractor;
use audio_pipeline::processor::FileProcessor;
use audio_pipeline::processor::FileRoute;
use audio_pipeline::records::ProcessingRecord;
use audio_pipeline::records::RecordTable;
use audio_pipeline::stats::ProcessingStats;

fn processor(process_video: bool) -> FileProcessor {
    FileProcessor::new(
        String::from("/media"),
        String::from("/out"),
        String::from("/tmp/segments"),
        process_video,
        false,
        true,
        true,
        30,
        3,
        RecordTable::new(),
    )
}

#[test]
fn files_route_by_ledger_then_extension() {
    let mut p = processor(true);
    let canonical = String::from("/out/talk.mp3");
    assert_eq!(p.route_file(&canonical, &String::from("talk.mp3")), FileRoute::Audio);
    assert_eq!(p.route_file(&canonical, &String::from("clip.MP4")), FileRoute::Video);
    assert_eq!(p.route_file(&canonical, &String::from("clip.mov")), FileRoute::Video);
    assert_eq!(p.route_file(&canonical, &String::from("notes.doc")), FileRoute::Unsupported);
    assert_eq!(p.route_file(&canonical, &String::from("no_extension")), FileRoute::Unsupported);

    p.record_file_processed(&canonical, String::from("t0"));
    assert_eq!(p.route_file(&canonical, &String::from("talk.mp3")), FileRoute::AlreadyProcessed);
}

#[test]
fn videos_are_unsupported_when_video_processing_is_off() {
    let p = processor(false);
    let canonical = String::from("/out/clip.mp3");
    assert_eq!(p.route_file(&canonical, &String::from("clip.mp4")), FileRoute::Unsupported);
}

#[test]
fn multipart_starts_strictly_above_the_limit() {
    let p = processor(true);
    assert!(!p.needs_multipart(1800));
    assert!(p.needs_multipart(1801));
    assert!(!p.needs_multipart(0));
}

#[test]
fn booking_a_file_creates_or_refreshes_its_record() {
    let mut p = processor(true);
    let canonical = String::from("/out/a.mp3");
    p.record_file_processed(&canonical, String::from("t0"));
    assert_eq!(p.records.get(&canonical).unwrap().last_processed_time, "t0");
    p.record_file_processed(&canonical, String::from("t1"));
    let rec = p.records.get(&canonical).unwrap();
    assert_eq!(rec.last_processed_time, "t1");
    assert_eq!(rec.total_parts, 0);
}

#[test]
fn storing_a_record_keeps_other_entries() {
    let mut p = processor(true);
    let a = String::from("/out/a.mp3");
    let b = String::from("/out/b.mp3");
    p.record_file_processed(&a, String::from("t0"));
    p.store_record(&b, ProcessingRecord::with_parts(String::from("t1"), 2));
    assert!(p.is_recognized_file(&a));
    assert!(p.is_recognized_file(&b));
    assert_eq!(p.records.get(&b).unwrap().total_parts, 2);
}

#[test]
fn interrupt_flag_toggles() {
    let mut p = processor(true);
    assert!(!p.interrupt_flag);
    p.set_interrupt_flag(true);
    assert!(p.interrupt_flag);
    p.set_interrupt_flag(false);
    assert!(!p.interrupt_flag);
}

#[test]
fn extraction_requests_are_validated() {
    let extractor = AudioExtractor::new(String::from("/tmp/segments"));
    assert!(extractor.extract_audio(&String::from("clip.mp4"), &String::from("clip.mp3")).is_ok());
    assert!(extractor.extract_audio(&String::from("no_extension"), &String::from("out.mp3")).is_err());
    assert!(extractor.extract_audio(&String::from("clip.mp4"), &String::new()).is_err());
}

#[test]
fn error_messages_name_their_kind() {
    assert_eq!(
        AudioToolsError::ConfigError(String::from("bad folder")).message(),
        "config error: bad folder"
    );
    assert_eq!(
        AudioToolsError::AsrServiceError(String::from("no backend available")).message(),
        "asr service error: no backend available"
    );
    assert_eq!(AudioProcessorError::Interrupted.message(), "interrupted by user");
    assert_eq!(
        AudioProcessorError::ExternalProgramNotFound(String::from("ffmpeg")).message(),
        "external program not found: ffmpeg"
    );
}

#[test]
fn stats_fold_per_file_outcomes() {
    let mut stats = ProcessingStats::new();
    stats.update_stats(true, 10, 9);
    stats.update_stats(false, 5, 0);
    assert_eq!(stats.processed_files, 2);
    assert_eq!(stats.successful_files, 1);
    assert_eq!(stats.failed_files, 1);
    assert_eq!(stats.total_segments, 15);
    assert_eq!(stats.successful_segments, 9);
    assert_eq!(stats.failed_segments, 6);
    assert_eq!(stats.segment_success_percent(), 60);
    assert_eq!(ProcessingStats::new().segment_success_percent(), 0);
}

#[test]
fn every_error_kind_has_a_named_message() {
    assert_eq!(
        AudioToolsError::IoError(String::from("denied")).message(),
        "io error: denied"
    );
    assert_eq!(
        AudioToolsError::FileProcessingError(String::from("bad file")).message(),
        "file processing error: bad file"
    );
    assert_eq!(
        AudioToolsError::AuthenticationError(String::from("expired")).message(),
        "authentication error: expired"
    );
    assert_eq!(
        AudioToolsError::NetworkError(String::from("reset")).message(),
        "network error: reset"
    );
    assert_eq!(AudioToolsError::General(String::from("oops")).message(), "error: oops");
    assert_eq!(
        AudioProcessorError::HttpError(String::from("503")).message(),
        "http error: 503"
    );
    assert_eq!(
        AudioProcessorError::DependencyCheckFailed(String::from("ffmpeg")).message(),
        "dependency check failed: ffmpeg"
    );
}
