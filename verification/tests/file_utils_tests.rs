use audio_pipeline::file_utils::eq_ignore_ascii_case;
use audio_pipeline::file_utils::format_time_duration;
use audio_pipeline::file_utils::get_file_extension;
use audio_pipeline::file_utils::u64_to_string;

#[test]
fn extension_is_what_follows_the_last_dot() {
    assert_eq!(get_file_extension("song.mp3"), Some("mp3"));
    assert_eq!(get_file_extension("archive.tar.gz"), Some("gz"));
    assert_eq!(get_file_extension("no_extension"), None);
    assert_eq!(get_file_extension("trailing."), None);
    assert_eq!(get_file_extension(".hidden"), Some("hidden"));
    assert_eq!(get_file_extension(""), None);
}

#[test]
fn case_insensitive_comparison_folds_ascii_only() {
    assert!(eq_ignore_ascii_case("MP3", "mp3"));
    assert!(eq_ignore_ascii_case("FlAc", "fLaC"));
    assert!(!eq_ignore_ascii_case("mp3", "mp4"));
    assert!(!eq_ignore_ascii_case("mp3", "mp33"));
    assert!(eq_ignore_ascii_case("", ""));
}

#[test]
fn numbers_render_in_decimal() {
    assert_eq!(u64_to_string(0), "0");
    assert_eq!(u64_to_string(7), "7");
    assert_eq!(u64_to_string(12345), "12345");
    assert_eq!(u64_to_string(u64::MAX), "18446744073709551615");
}

#[test]
fn durations_render_with_the_largest_applicable_unit() {
    assert_eq!(format_time_duration(3661, 5), "1小时 1分钟 1秒");
    assert_eq!(format_time_duration(61, 0), "1分钟 1秒");
    assert_eq!(format_time_duration(5, 250), "5秒 250毫秒");
    assert_eq!(format_time_duration(0, 42), "42毫秒");
    assert_eq!(format_time_duration(0, 250), "250毫秒");
    assert_eq!(format_time_duration(0, 0), "0毫秒");
    assert_eq!(format_time_duration(7200, 0), "2小时 0分钟 0秒");
}
