use ssh_agent_mux::clock::Timestamp;
use ssh_agent_mux::control::SocketSource;
use ssh_agent_mux::socket_manager::SocketManager;

fn paths(items: &[&str]) -> Vec<String> {
    items.iter().map(|s| s.to_string()).collect()
}

#[test]
fn test_new_socket_manager() {
    let configured = paths(&["/tmp/agent1.sock", "/tmp/agent2.sock"]);
    let manager = SocketManager::new(configured.clone());
    assert_eq!(manager.configured_count(), 2);
    assert_eq!(manager.watched_count(), 0);
    assert_eq!(manager.get_ordered_sockets(), configured);
}

#[test]
fn test_add_watched_socket() {
    let configured = paths(&["/tmp/configured.sock"]);
    let mut manager = SocketManager::new(configured);

    let watched = "/tmp/watched.sock".to_string();
    assert!(manager.add_watched(watched.clone()));
    assert_eq!(manager.watched_count(), 1);
    assert!(manager.is_watched(&watched));

    // Adding same socket again should return false
    assert!(!manager.add_watched(watched));
    assert_eq!(manager.watched_count(), 1);
}

#[test]
fn test_remove_watched_socket() {
    let mut manager = SocketManager::new(vec![]);
    let watched = "/tmp/watched.sock".to_string();

    manager.add_watched(watched.clone());
    assert_eq!(manager.watched_count(), 1);

    assert!(manager.remove_watched(&watched));
    assert_eq!(manager.watched_count(), 0);

    // Removing non-existent socket should return false
    assert!(!manager.remove_watched(&watched));
}

#[test]
fn test_ordering_watched_first() {
    let configured = paths(&["/tmp/configured1.sock", "/tmp/configured2.sock"]);
    let mut manager = SocketManager::new(configured.clone());

    let watched1 = "/tmp/watched1.sock".to_string();
    let watched2 = "/tmp/watched2.sock".to_string();

    manager.add_watched_at(watched1.clone(), Timestamp { secs: 1_700_000_000, nanos: 0 });
    manager.add_watched_at(watched2.clone(), Timestamp { secs: 1_700_000_000, nanos: 10_000_000 });

    let ordered = manager.get_ordered_sockets();

    // Should be: watched2 (newest), watched1, configured1, configured2
    assert_eq!(ordered.len(), 4);
    assert_eq!(ordered[0], watched2);
    assert_eq!(ordered[1], watched1);
    assert_eq!(ordered[2], configured[0]);
    assert_eq!(ordered[3], configured[1]);
}

#[test]
fn test_update_configured() {
    let initial = paths(&["/tmp/initial.sock"]);
    let mut manager = SocketManager::new(initial);
    assert_eq!(manager.configured_count(), 1);

    let updated = paths(&["/tmp/updated1.sock", "/tmp/updated2.sock"]);
    manager.update_configured(updated.clone());
    assert_eq!(manager.configured_count(), 2);
    assert_eq!(manager.get_ordered_sockets(), updated);
}

#[test]
fn test_validate_and_cleanup_nonexistent() {
    let temp_dir = tempfile::TempDir::new().unwrap();
    let file = tempfile::NamedTempFile::new_in(temp_dir.path()).unwrap();
    let temp_path = file.path().to_str().unwrap().to_string();

    let mut manager = SocketManager::new(vec![]);
    manager.add_watched(temp_path.clone());
    assert_eq!(manager.watched_count(), 1);

    // File exists, should not be removed
    let removed = manager.validate_and_cleanup();
    assert_eq!(removed.len(), 0);
    assert_eq!(manager.watched_count(), 1);

    // Delete the file
    file.close().unwrap();

    // Now it should be removed
    let removed = manager.validate_and_cleanup();
    assert_eq!(removed.len(), 1);
    assert_eq!(removed[0], temp_path);
    assert_eq!(manager.watched_count(), 0);
}

#[test]
fn test_uptime() {
    let manager = SocketManager::new(vec![]);
    // Uptime should be very small (< 1 second typically)
    assert!(manager.uptime_secs() < 2);
}

#[test]
fn test_total_count() {
    let configured = paths(&["/tmp/c1.sock", "/tmp/c2.sock"]);
    let mut manager = SocketManager::new(configured);
    assert_eq!(manager.total_count(), 2);

    manager.add_watched("/tmp/w1.sock".to_string());
    assert_eq!(manager.total_count(), 3);
}

#[test]
fn test_get_socket_info() {
    let temp_dir = tempfile::TempDir::new().unwrap();
    let configured_file = tempfile::NamedTempFile::new_in(temp_dir.path()).unwrap();
    let watched_file = tempfile::NamedTempFile::new_in(temp_dir.path()).unwrap();
    let configured_path = configured_file.path().to_str().unwrap().to_string();
    let watched_path = watched_file.path().to_str().unwrap().to_string();

    let mut manager = SocketManager::new(vec![configured_path.clone()]);
    manager.add_watched(watched_path.clone());

    let info = manager.get_socket_info();
    assert_eq!(info.len(), 2);

    // Watched should be first
    assert_eq!(info[0].source, SocketSource::Watched);
    assert_eq!(info[0].order, 1);
    assert!(info[0].added_at.is_some());
    assert!(info[0].healthy);

    // Configured should be second
    assert_eq!(info[1].source, SocketSource::Configured);
    assert_eq!(info[1].order, 2);
    assert!(info[1].added_at.is_none());
    assert!(info[1].healthy);
}

#[test]
fn test_update_socket_health() {
    let mut manager = SocketManager::new(vec![]);
    let path = "/tmp/test.sock".to_string();
    // A socket is healthy only while its path exists: put a file there,
    // unless one is there already
    let _file =
        tempfile::Builder::new().prefix("test").suffix(".sock").rand_bytes(0).tempfile_in("/tmp");

    manager.add_watched(path.clone());

    // Initially no health check
    let info = manager.get_socket_info();
    assert!(info[0].last_health_check.is_none());
    assert!(info[0].key_count.is_none());

    // Update health
    manager.update_socket_health(&path, true, Some(3));

    let info = manager.get_socket_info();
    assert!(info[0].last_health_check.is_some());
    assert_eq!(info[0].key_count, Some(3));
    assert!(info[0].healthy);
}

#[test]
fn test_is_configured() {
    let path = "/tmp/test.sock".to_string();
    let manager = SocketManager::new(vec![path.clone()]);

    assert!(manager.is_configured(&path));
    assert!(!manager.is_configured("/tmp/other.sock"));
}

fn at(secs: u64, nanos: u32) -> Timestamp {
    Timestamp { secs, nanos }
}

#[test]
fn empty_registry_has_an_empty_ordered_view() {
    let manager = SocketManager::new(vec![]);
    assert!(manager.get_ordered_sockets().is_empty());
    assert!(manager.get_socket_info().is_empty());
    assert_eq!(manager.total_count(), 0);
    assert_eq!(manager.last_health_check(), None);
    assert_eq!(
        manager.log_state("Initialized socket manager"),
        "Initialized socket manager: no active agent sockets (watched: 0, configured: 0)"
    );
}

#[test]
fn watched_sockets_are_ordered_newest_first() {
    let mut manager = SocketManager::new_at(paths(&["/c1", "/c2"]), at(50, 0));
    assert_eq!(manager.daemon_start_time(), at(50, 0));
    assert!(manager.add_watched_at("/b".to_string(), at(200, 0)));
    assert!(manager.add_watched_at("/a".to_string(), at(100, 0)));
    assert!(manager.add_watched_at("/d".to_string(), at(200, 1)));
    assert!(manager.add_watched_at("/c".to_string(), at(150, 999_999_999)));
    // Added at the same instant as /b: stays behind it
    assert!(manager.add_watched_at("/b2".to_string(), at(200, 0)));
    // A path that is watched already keeps its place and its instant
    assert!(!manager.add_watched_at("/a".to_string(), at(900, 0)));
    assert_eq!(
        manager.get_ordered_sockets(),
        paths(&["/d", "/b", "/b2", "/c", "/a", "/c1", "/c2"])
    );
    assert!(manager.remove_watched("/b"));
    assert_eq!(manager.get_ordered_sockets(), paths(&["/d", "/b2", "/c", "/a", "/c1", "/c2"]));
    manager.update_configured(paths(&["/z", "/z", "/a"]));
    assert_eq!(manager.get_ordered_sockets(), paths(&["/d", "/b2", "/c", "/a", "/z", "/z", "/a"]));
    assert_eq!(manager.configured_sockets().to_vec(), paths(&["/z", "/z", "/a"]));
    assert_eq!(manager.total_count(), 7);
    assert_eq!(
        manager.log_state("Active sockets after configuration update"),
        "Active sockets after configuration update: 7 active agent sockets \
         (watched: 4, configured: 3); order: [/d, /b2, /c, /a, /z, /z, /a]"
    );
    let copy = manager.clone();
    assert_eq!(copy.get_ordered_sockets(), manager.get_ordered_sockets());
}

#[test]
fn add_watched_does_not_look_at_the_configured_sockets() {
    let mut manager = SocketManager::new(paths(&["/both"]));
    assert!(manager.add_watched("/both".to_string()));
    assert!(manager.is_watched("/both") && manager.is_configured("/both"));
    assert_eq!(manager.get_ordered_sockets(), paths(&["/both", "/both"]));
    // Removing the watched socket leaves the configured one
    assert!(manager.remove_watched("/both"));
    assert!(!manager.is_watched("/both") && manager.is_configured("/both"));
}

#[test]
fn cleanup_keeps_the_sockets_marked_present() {
    let mut manager = SocketManager::new(paths(&["/c"]));
    manager.add_watched_at("/1".to_string(), at(1, 0));
    manager.add_watched_at("/2".to_string(), at(2, 0));
    manager.add_watched_at("/3".to_string(), at(3, 0));
    manager.add_watched_at("/4".to_string(), at(4, 0));
    let removed = manager.retain_present(&vec![true, false, false, true]);
    assert_eq!(removed, paths(&["/3", "/2"]));
    assert_eq!(manager.get_ordered_sockets(), paths(&["/4", "/1", "/c"]));
    assert_eq!(manager.retain_present(&vec![true, true]), Vec::<String>::new());
    assert_eq!(manager.retain_present(&vec![false, false]), paths(&["/4", "/1"]));
    assert_eq!(manager.get_ordered_sockets(), paths(&["/c"]));
    assert_eq!(manager.retain_present(&vec![]), Vec::<String>::new());
}

#[test]
fn cleanup_probes_the_disk() {
    let mut manager = SocketManager::new(paths(&["/nonexistent/configured"]));
    manager.add_watched("/".to_string());
    manager.add_watched("/nonexistent/watched".to_string());
    assert_eq!(manager.validate_and_cleanup(), paths(&["/nonexistent/watched"]));
    assert_eq!(manager.get_ordered_sockets(), paths(&["/", "/nonexistent/configured"]));
}

#[test]
fn socket_info_in_full() {
    let mut manager = SocketManager::new(paths(&["/c"]));
    manager.add_watched_at("/w1".to_string(), at(1_733_405_290, 0));
    manager.add_watched_at("/w2".to_string(), at(1_733_405_291, 500_000_000));
    manager.update_socket_health_at("/w1", false, Some(0), at(1_733_405_300, 0));
    assert_eq!(manager.last_health_check(), Some(at(1_733_405_300, 0)));
    // Not watched: nothing happens
    manager.update_socket_health_at("/c", false, Some(9), at(1_733_409_999, 0));
    manager.update_socket_health_at("/nope", true, None, at(1_733_409_999, 0));
    assert_eq!(manager.last_health_check(), Some(at(1_733_405_300, 0)));

    let info = manager.socket_info_with(&vec![true, true, false]);
    assert_eq!(info.len(), 3);
    assert_eq!(info[0].path, "/w2");
    assert_eq!(info[0].source, SocketSource::Watched);
    assert_eq!(info[0].added_at, Some("2024-12-05T13:28:11.500+00:00".to_string()));
    assert!(info[0].healthy);
    assert_eq!(info[0].last_health_check, None);
    assert_eq!(info[0].key_count, None);
    assert_eq!(info[0].order, 1);

    assert_eq!(info[1].path, "/w1");
    assert_eq!(info[1].added_at, Some("2024-12-05T13:28:10+00:00".to_string()));
    // The last probe counts for more than the file being there
    assert!(!info[1].healthy);
    assert_eq!(info[1].last_health_check, Some("2024-12-05T13:28:20+00:00".to_string()));
    assert_eq!(info[1].key_count, Some(0));
    assert_eq!(info[1].order, 2);

    assert_eq!(info[2].path, "/c");
    assert_eq!(info[2].source, SocketSource::Configured);
    assert_eq!(info[2].added_at, None);
    assert!(!info[2].healthy);
    assert_eq!(info[2].last_health_check, None);
    assert_eq!(info[2].key_count, None);
    assert_eq!(info[2].order, 3);

    let info = manager.socket_info_with(&vec![false, false, true]);
    assert!(!info[0].healthy);
    assert!(!info[1].healthy);
    assert!(info[2].healthy);

    // A probe that succeeded counts only while the path is still there
    manager.update_socket_health_at("/w2", true, Some(1), at(1_733_405_400, 0));
    let info = manager.socket_info_with(&vec![true, true, true]);
    assert!(info[0].healthy);
    assert!(!info[1].healthy);
    let info = manager.socket_info_with(&vec![false, true, true]);
    assert!(!info[0].healthy);
    assert_eq!(info[0].key_count, Some(1));
}

#[test]
fn a_probed_socket_whose_path_is_gone_is_unhealthy() {
    let mut manager = SocketManager::new(vec![]);
    manager.add_watched("/nonexistent/agent.sock".to_string());
    manager.update_socket_health("/nonexistent/agent.sock", true, Some(2));
    let info = manager.get_socket_info();
    assert!(!info[0].healthy);
    assert!(info[0].added_at.is_some());
    assert!(info[0].last_health_check.is_some());
}

#[test]
fn uptime_in_whole_seconds() {
    let manager = SocketManager::new_at(vec![], at(1_000, 600_000_000));
    assert_eq!(manager.uptime_secs_at(&at(1_000, 600_000_000)), 0);
    assert_eq!(manager.uptime_secs_at(&at(1_001, 599_999_999)), 0);
    assert_eq!(manager.uptime_secs_at(&at(1_001, 600_000_000)), 1);
    assert_eq!(manager.uptime_secs_at(&at(4_600, 700_000_000)), 3_600);
    // A clock that went backwards gives no uptime
    assert_eq!(manager.uptime_secs_at(&at(999, 0)), 0);
}
