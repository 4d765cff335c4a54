use audio_pipeline::backends::AsrManager;
use audio_pipeline::backends::BackendKind;

#[test]
fn failover_routes_to_the_next_backend_after_the_threshold() {
    // A = Jianying (priority 1), B = Bcut (priority 2)
    let mut manager = AsrManager::from_flags(true, false, true, 3);
    assert_eq!(manager.backends.len(), 2);
    assert_eq!(manager.backends[0].kind, BackendKind::Jianying);
    assert_eq!(manager.backends[1].kind, BackendKind::Bcut);

    // every call to A fails until it crosses the disable threshold
    for _ in 0..3 {
        assert_eq!(manager.select_backend(), Some(0));
        manager.record_result(0, false);
    }
    assert!(!manager.backends[0].available);

    // subsequent calls route to B
    assert_eq!(manager.select_backend(), Some(1));
    manager.record_result(1, true);

    // statistics reflect call counts for both
    let stats = manager.get_service_stats();
    assert_eq!(stats[0].call_count, 3);
    assert_eq!(stats[0].success_count, 0);
    assert!(!stats[0].available);
    assert_eq!(stats[1].call_count, 1);
    assert_eq!(stats[1].success_count, 1);
    assert!(stats[1].available);
}

#[test]
fn a_success_resets_the_failure_streak() {
    let mut manager = AsrManager::from_flags(false, false, true, 2);
    manager.record_result(0, false);
    manager.record_result(0, true);
    manager.record_result(0, false);
    // never two failures in a row, so the backend stays available
    assert!(manager.backends[0].available);
    assert_eq!(manager.backends[0].call_count, 3);
    assert_eq!(manager.backends[0].success_count, 1);
}

#[test]
fn no_backend_available_when_all_are_disabled() {
    let mut manager = AsrManager::from_flags(false, false, true, 1);
    assert_eq!(manager.select_backend(), Some(0));
    manager.record_result(0, false);
    assert_eq!(manager.select_backend(), None);
}

#[test]
fn flags_pick_the_backends_in_priority_order() {
    let manager = AsrManager::from_flags(true, true, true, 3);
    let kinds: Vec<BackendKind> = manager.backends.iter().map(|b| b.kind).collect();
    assert_eq!(kinds, vec![BackendKind::Jianying, BackendKind::Bcut, BackendKind::Kuaishou]);
    for (i, b) in manager.backends.iter().enumerate() {
        assert_eq!(b.priority as usize, i + 1);
    }
    let none = AsrManager::from_flags(false, false, false, 3);
    assert!(none.backends.is_empty());
    assert_eq!(none.select_backend(), None);
}
