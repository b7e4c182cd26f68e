use dust::sqlite_workers::directory::WorkerDirectory;

#[test]
fn a_worker_whose_heartbeats_stopped_is_no_longer_picked() {
    let mut directory = WorkerDirectory::new();
    directory.register_or_refresh("pod-0", 10_000);
    assert_eq!(directory.pick_live_worker(10_500).map(|w| w.pod_name().to_string()), Some("pod-0".to_string()));
    assert_eq!(directory.pick_live_worker(12_999).map(|w| w.pod_name().to_string()), Some("pod-0".to_string()));
    assert!(directory.pick_live_worker(13_000).is_none());
    assert!(directory.pick_live_worker(13_100).is_none());
}

#[test]
fn a_heartbeat_refreshes_the_entry() {
    let mut directory = WorkerDirectory::new();
    directory.register_or_refresh("pod-0", 10_000);
    directory.register_or_refresh("pod-0", 12_000);
    assert_eq!(directory.last_heartbeat_of("pod-0"), Some(12_000));
    assert!(directory.pick_live_worker(14_999).is_some());
    assert!(directory.pick_live_worker(15_000).is_none());
}

#[test]
fn a_deregistered_worker_is_gone_at_once() {
    let mut directory = WorkerDirectory::new();
    directory.register_or_refresh("pod-0", 10_000);
    directory.register_or_refresh("pod-1", 10_000);
    assert!(directory.deregister("pod-0"));
    assert!(!directory.deregister("pod-0"));
    assert_eq!(directory.last_heartbeat_of("pod-0"), None);
    assert_eq!(directory.pick_live_worker(10_001).map(|w| w.pod_name().to_string()), Some("pod-1".to_string()));
    assert!(directory.deregister("pod-1"));
    assert!(directory.pick_live_worker(10_001).is_none());
}

#[test]
fn only_a_live_worker_is_picked_among_several() {
    let mut directory = WorkerDirectory::new();
    directory.register_or_refresh("stale", 1_000);
    directory.register_or_refresh("live", 9_000);
    let picked = directory.pick_live_worker(10_000).unwrap();
    assert_eq!(picked.pod_name(), "live");
    assert_eq!(picked.last_heartbeat(), 9_000);
}

#[test]
fn an_empty_directory_routes_to_nobody() {
    let directory = WorkerDirectory::new();
    assert!(directory.pick_live_worker(0).is_none());
    assert_eq!(directory.last_heartbeat_of("pod-0"), None);
}

#[test]
fn a_worker_that_misses_one_heartbeat_is_still_picked() {
    let mut directory = WorkerDirectory::new();
    directory.register_or_refresh("pod-0", 10_000);
    assert!(directory.pick_live_worker(10_000 + 2 * 1024).is_some());
    assert!(directory.pick_live_worker(10_000 + 3 * 1024).is_none());
}
