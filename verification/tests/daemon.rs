use ssh_agent_mux::clock::Timestamp;
use ssh_agent_mux::control::WatcherStatus;
use ssh_agent_mux::daemon::{
    apply_watch_event, apply_watch_event_at, health_interval, initial_watcher_status,
    watcher_status_for, Interval,
};
use ssh_agent_mux::mux::{
    dispatch_of, merge_identities, Dispatch, Identity, RequestKind, SignDispatch, SignOutcome,
    SignStep,
};
use ssh_agent_mux::socket_manager::SocketManager;
use ssh_agent_mux::watcher::{
    scan_existing_agents, start_watching, FsEventKind, ScannedDir, ScannedEntry, SmartWatcher,
    WatchEvent, WatchMode, WatchResult,
};

#[test]
fn watcher_status_to_report() {
    assert_eq!(initial_watcher_status(true), WatcherStatus::Active);
    assert_eq!(initial_watcher_status(false), WatcherStatus::Disabled);
    assert_eq!(watcher_status_for(&start_watching(Ok(SmartWatcher::new()))), WatcherStatus::Active);
    assert_eq!(
        watcher_status_for(&start_watching(Err("no inotify".to_string()))),
        WatcherStatus::PollingFallback("no inotify".to_string())
    );
    let bare = WatchResult { mode: WatchMode::Polling, fallback_reason: None };
    assert_eq!(watcher_status_for(&bare), WatcherStatus::PollingFallback("Unknown error".to_string()));
}

#[test]
fn interval_between_health_checks() {
    // Half the watchdog timeout wins
    assert_eq!(health_interval(Some(30_000_000), 60), Some(Interval { secs: 15, nanos: 0 }));
    assert_eq!(health_interval(Some(3_000_001), 0), Some(Interval { secs: 1, nanos: 500_000_000 }));
    assert_eq!(health_interval(Some(1), 60), Some(Interval { secs: 0, nanos: 0 }));
    assert_eq!(
        health_interval(Some(u64::MAX), 60),
        Some(Interval { secs: 9_223_372_036_854, nanos: 775_807_000 })
    );
    // Otherwise the configured seconds, unless zero
    assert_eq!(health_interval(None, 60), Some(Interval { secs: 60, nanos: 0 }));
    assert_eq!(health_interval(None, 0), None);
}

#[test]
fn discovery_events_change_the_registry() {
    let mut manager = SocketManager::new(vec!["/c".to_string()]);
    let added = WatchEvent::Added("/tmp/ssh-a/agent.1".to_string());
    let removed = WatchEvent::Removed("/tmp/ssh-a/agent.1".to_string());
    assert!(!apply_watch_event(&mut manager, &removed));
    assert!(apply_watch_event(&mut manager, &added));
    assert!(!apply_watch_event(&mut manager, &added));
    assert_eq!(manager.get_ordered_sockets(), vec!["/tmp/ssh-a/agent.1".to_string(), "/c".to_string()]);
    assert!(apply_watch_event(&mut manager, &removed));
    assert!(!apply_watch_event(&mut manager, &removed));
    assert_eq!(manager.get_ordered_sockets(), vec!["/c".to_string()]);
    let at = Timestamp { secs: 9, nanos: 0 };
    assert!(apply_watch_event_at(&mut manager, &added, at));
    assert!(apply_watch_event_at(&mut manager, &removed, at));
}

#[test]
fn the_clock_runs() {
    let first = SocketManager::new(vec![]).daemon_start_time();
    let second = SocketManager::new(vec![]).daemon_start_time();
    assert!(first.nanos < 1_000_000_000);
    assert!(second.nanos < 1_000_000_000);
    // Well after the year 2020
    assert!(first.secs > 1_577_836_800);
}

fn identity(comment: &str) -> Identity {
    Identity { key_blob: comment.as_bytes().to_vec(), comment: comment.to_string() }
}

/// Stands for the upstream agents: what each socket would list.
fn ask(ordered: &[String], agents: &[(&str, Option<Vec<Identity>>)]) -> Vec<Option<Vec<Identity>>> {
    ordered
        .iter()
        .map(|socket| {
            agents.iter().find(|(path, _)| *path == socket.as_str()).and_then(|(_, ids)| ids.clone())
        })
        .collect()
}

fn comments(identities: &[Identity]) -> Vec<&str> {
    identities.iter().map(|i| i.comment.as_str()).collect()
}

fn forwarded_socket() -> (tempfile::TempDir, tempfile::NamedTempFile, String) {
    let dir = tempfile::Builder::new().prefix("ssh-").tempdir_in("/tmp").unwrap();
    let file = tempfile::Builder::new().prefix("agent.").tempfile_in(dir.path()).unwrap();
    let path = file.path().to_str().unwrap().to_string();
    (dir, file, path)
}

#[test]
fn detect_forwarded_socket_added() {
    let mut manager = SocketManager::new(vec![]);
    let mut watcher = SmartWatcher::new();
    assert!(merge_identities(&ask(&manager.get_ordered_sockets(), &[])).is_empty());

    let (dir, _file, path) = forwarded_socket();
    assert!(watcher.try_watch_directory(dir.path().to_str().unwrap(), true));
    let outcome = watcher.handle_smart_event(FsEventKind::Create, &vec![path.clone()]);
    assert_eq!(outcome.events, vec![WatchEvent::Added(path.clone())]);
    for event in &outcome.events {
        assert!(apply_watch_event(&mut manager, event));
    }

    let agents = [(path.as_str(), Some(vec![identity("integration-test-ed25519")]))];
    let keys = merge_identities(&ask(&manager.get_ordered_sockets(), &agents));
    assert_eq!(comments(&keys), vec!["integration-test-ed25519"]);
}

#[test]
fn detect_forwarded_socket_removed() {
    let (dir, file, path) = forwarded_socket();
    let listing = vec![ScannedDir {
        path: dir.path().to_str().unwrap().to_string(),
        is_dir: true,
        entries: vec![ScannedEntry { path: path.clone(), exists: true }],
    }];
    let mut manager = SocketManager::new(vec![]);
    for agent in scan_existing_agents(&listing) {
        manager.add_watched(agent);
    }
    let agents = [(path.as_str(), Some(vec![identity("integration-test-ed25519")]))];
    assert_eq!(merge_identities(&ask(&manager.get_ordered_sockets(), &agents)).len(), 1);

    file.close().unwrap();
    let mut watcher = SmartWatcher::new();
    let outcome = watcher.handle_smart_event(FsEventKind::Remove, &vec![path.clone()]);
    assert_eq!(outcome.events, vec![WatchEvent::Removed(path.clone())]);
    for event in &outcome.events {
        assert!(apply_watch_event(&mut manager, event));
    }
    assert!(merge_identities(&ask(&manager.get_ordered_sockets(), &agents)).is_empty());
}

#[test]
fn forwarded_socket_priority() {
    let mut manager = SocketManager::new(vec!["/run/configured.sock".to_string()]);
    let agents = [
        ("/run/configured.sock", Some(vec![identity("integration-test-rsa")])),
        ("/tmp/ssh-p/agent.1", Some(vec![identity("integration-test-ed25519")])),
    ];
    let keys = merge_identities(&ask(&manager.get_ordered_sockets(), &agents));
    assert_eq!(comments(&keys), vec!["integration-test-rsa"]);

    assert!(apply_watch_event(&mut manager, &WatchEvent::Added("/tmp/ssh-p/agent.1".to_string())));
    let keys = merge_identities(&ask(&manager.get_ordered_sockets(), &agents));
    assert_eq!(comments(&keys), vec!["integration-test-ed25519", "integration-test-rsa"]);
}

#[test]
fn multiple_forwarded_sockets_ordering() {
    let mut manager = SocketManager::new(vec![]);
    let agents = [
        ("/tmp/ssh-m1/agent.1", Some(vec![identity("integration-test-rsa")])),
        ("/tmp/ssh-m2/agent.2", Some(vec![identity("integration-test-ecdsa")])),
    ];
    let first = WatchEvent::Added("/tmp/ssh-m1/agent.1".to_string());
    let second = WatchEvent::Added("/tmp/ssh-m2/agent.2".to_string());
    assert!(apply_watch_event_at(&mut manager, &first, Timestamp { secs: 100, nanos: 0 }));
    let keys = merge_identities(&ask(&manager.get_ordered_sockets(), &agents));
    assert_eq!(comments(&keys), vec!["integration-test-rsa"]);
    assert!(apply_watch_event_at(&mut manager, &second, Timestamp { secs: 100, nanos: 800_000_000 }));
    let keys = merge_identities(&ask(&manager.get_ordered_sockets(), &agents));
    assert_eq!(comments(&keys), vec!["integration-test-ecdsa", "integration-test-rsa"]);
}

#[test]
fn cleanup_invalid_forwarded_sockets() {
    let (_dir, file, path) = forwarded_socket();
    let mut manager = SocketManager::new(vec![]);
    manager.add_watched(path.clone());
    assert!(manager.validate_and_cleanup().is_empty());
    file.close().unwrap();
    assert_eq!(manager.validate_and_cleanup(), vec![path]);
    assert_eq!(manager.watched_count(), 0);
}

#[test]
fn watcher_preserves_configured_sockets() {
    let mut manager = SocketManager::new(vec!["/run/configured.sock".to_string()]);
    for i in 0..3 {
        let path = format!("/tmp/ssh-preserve{}/agent.{}", i, i);
        assert!(apply_watch_event(&mut manager, &WatchEvent::Added(path.clone())));
        assert!(apply_watch_event(&mut manager, &WatchEvent::Removed(path)));
    }
    manager.validate_and_cleanup();
    assert_eq!(manager.get_ordered_sockets(), vec!["/run/configured.sock".to_string()]);
    assert!(manager.is_configured("/run/configured.sock"));
}

#[test]
fn no_detection_without_watch_flag() {
    // With watching disabled nothing is scanned and no event is applied: the
    // registry holds what the configuration gave it, which is nothing.
    let (_dir, _file, path) = forwarded_socket();
    let manager = SocketManager::new(vec![]);
    assert_eq!(initial_watcher_status(false), WatcherStatus::Disabled);
    let agents = [(path.as_str(), Some(vec![identity("integration-test-ed25519")]))];
    assert!(merge_identities(&ask(&manager.get_ordered_sockets(), &agents)).is_empty());
}

#[test]
fn debouncing_rapid_events() {
    let mut manager = SocketManager::new(vec![]);
    for _ in 0..5 {
        let path = "/tmp/ssh-debounce/agent.1".to_string();
        apply_watch_event(&mut manager, &WatchEvent::Added(path.clone()));
        apply_watch_event(&mut manager, &WatchEvent::Added(path.clone()));
        apply_watch_event(&mut manager, &WatchEvent::Removed(path));
    }
    assert!(manager.get_ordered_sockets().is_empty());
}

#[test]
fn listing_skips_upstreams_that_failed() {
    let replies = vec![
        None,
        Some(vec![identity("a"), identity("b")]),
        Some(vec![]),
        None,
        Some(vec![identity("a")]),
    ];
    assert_eq!(comments(&merge_identities(&replies)), vec!["a", "b", "a"]);
    assert!(merge_identities(&vec![None, None]).is_empty());
    assert!(merge_identities(&vec![]).is_empty());
}

#[test]
fn only_listing_and_signing_are_served() {
    assert_eq!(dispatch_of(RequestKind::RequestIdentities), Dispatch::ListAll);
    assert_eq!(dispatch_of(RequestKind::SignRequest), Dispatch::SignFirst);
    for kind in [
        RequestKind::AddIdentity,
        RequestKind::RemoveIdentity,
        RequestKind::RemoveAllIdentities,
        RequestKind::AddIdConstrained,
        RequestKind::AddSmartcardKey,
        RequestKind::RemoveSmartcardKey,
        RequestKind::Lock,
        RequestKind::Unlock,
        RequestKind::AddSmartcardKeyConstrained,
        RequestKind::Extension,
    ] {
        assert_eq!(dispatch_of(kind), Dispatch::Reject);
    }
}

#[test]
fn signing_tries_the_upstreams_in_order() {
    let snapshot = vec!["/a".to_string(), "/b".to_string(), "/c".to_string()];
    let (mut dispatch, step) = SignDispatch::start(snapshot.clone());
    assert_eq!(step, SignStep::Try("/a".to_string()));
    assert_eq!(dispatch.advance(SignOutcome::Refused), SignStep::Try("/b".to_string()));
    assert_eq!(dispatch.advance(SignOutcome::Signed(vec![1, 2, 3])), SignStep::Done(vec![1, 2, 3]));

    let (mut dispatch, _) = SignDispatch::start(snapshot);
    assert_eq!(dispatch.advance(SignOutcome::Unreachable), SignStep::Try("/b".to_string()));
    assert_eq!(dispatch.advance(SignOutcome::Refused), SignStep::Try("/c".to_string()));
    assert_eq!(dispatch.advance(SignOutcome::Unreachable), SignStep::Failed);
    assert_eq!(dispatch.advance(SignOutcome::Refused), SignStep::Failed);

    let (mut dispatch, step) = SignDispatch::start(vec![]);
    assert_eq!(step, SignStep::Failed);
    assert_eq!(dispatch.advance(SignOutcome::Refused), SignStep::Failed);
}
