use audio_pipeline::watcher::FileWatcher;
use audio_pipeline::watcher::TimerAction;
use audio_pipeline::watcher::WatchAction;

fn media_extensions() -> Vec<String> {
    vec![
        String::from("mp3"),
        String::from("wav"),
        String::from("m4a"),
        String::from("flac"),
        String::from("ogg"),
        String::from("aac"),
    ]
}

#[test]
fn burst_of_three_events_yields_one_dispatch_from_the_last() {
    let mut watcher = FileWatcher::new(5, 2, media_extensions());
    let path = String::from("in/song.mp3");

    // three events inside one debounce window
    match watcher.on_event(&path, 0) {
        WatchAction::Schedule { check_at } => assert_eq!(check_at, 5),
        WatchAction::Ignore => panic!("first event must schedule a check"),
    }
    match watcher.on_event(&path, 1) {
        WatchAction::Schedule { check_at } => assert_eq!(check_at, 6),
        WatchAction::Ignore => panic!("second event must re-schedule"),
    }
    match watcher.on_event(&path, 2) {
        WatchAction::Schedule { check_at } => assert_eq!(check_at, 7),
        WatchAction::Ignore => panic!("third event must re-schedule"),
    }

    // the checks for the superseded events are stale; only the last fires
    assert!(matches!(watcher.on_timer(&path, 0), TimerAction::Stale));
    assert!(matches!(watcher.on_timer(&path, 1), TimerAction::Stale));
    assert!(matches!(watcher.on_timer(&path, 2), TimerAction::Dispatch));

    // exactly one dispatch: the same check cannot fire twice
    assert!(matches!(watcher.on_timer(&path, 2), TimerAction::Stale));
}

#[test]
fn in_flight_paths_ignore_new_events_until_done() {
    let mut watcher = FileWatcher::new(5, 2, media_extensions());
    let path = String::from("in/talk.wav");
    assert!(matches!(watcher.on_event(&path, 10), WatchAction::Schedule { .. }));
    assert!(matches!(watcher.on_timer(&path, 10), TimerAction::Dispatch));
    // while the file is being processed its events are ignored
    assert!(matches!(watcher.on_event(&path, 20), WatchAction::Ignore));
    watcher.on_done(&path);
    // afterwards the path is watched again
    assert!(matches!(watcher.on_event(&path, 30), WatchAction::Schedule { .. }));
}

#[test]
fn distinct_paths_do_not_interfere() {
    let mut watcher = FileWatcher::new(5, 2, media_extensions());
    let a = String::from("in/a.mp3");
    let b = String::from("in/b.mp3");
    assert!(matches!(watcher.on_event(&a, 0), WatchAction::Schedule { .. }));
    assert!(matches!(watcher.on_event(&b, 1), WatchAction::Schedule { .. }));
    // a later event on `b` does not make `a`'s check stale
    assert!(matches!(watcher.on_event(&b, 3), WatchAction::Schedule { .. }));
    assert!(matches!(watcher.on_timer(&a, 0), TimerAction::Dispatch));
    assert!(matches!(watcher.on_timer(&b, 1), TimerAction::Stale));
    assert!(matches!(watcher.on_timer(&b, 3), TimerAction::Dispatch));
}

#[test]
fn media_files_are_recognized_by_extension_case_insensitively() {
    let watcher = FileWatcher::new(5, 2, media_extensions());
    assert!(watcher.is_media_file(&String::from("song.mp3")));
    assert!(watcher.is_media_file(&String::from("SONG.MP3")));
    assert!(watcher.is_media_file(&String::from("x.FlAc")));
    assert!(!watcher.is_media_file(&String::from("notes.txt")));
    assert!(!watcher.is_media_file(&String::from("no_extension")));
}
