use ssh_agent_mux::clock::Timestamp;
use ssh_agent_mux::control::server::{
    absorb_agents, add_socket, check_socket_health, finish_health_check, finish_list_keys,
    finish_reload, handle_line, handle_request, health_check_result, reload_response,
    remove_socket, response_line, status_info, validate_sockets, validation_response, AgentKey,
    ProbeOutcome, UpstreamKeys,
};
use ssh_agent_mux::control::{
    ControlRequest, ControlResponse, ControlServerState, ControlStep, KeyInfo, LineStep,
    SocketHealthInfo, SocketHealthStatus, SocketSource, WatcherStatus,
};
use ssh_agent_mux::socket_manager::SocketManager;

fn state(watch_enabled: bool) -> ControlServerState {
    ControlServerState {
        listen_path: "/test/listen.sock".to_string(),
        control_path: "/test/control.ctl".to_string(),
        watch_enabled,
        watcher_status: if watch_enabled { WatcherStatus::Active } else { WatcherStatus::Disabled },
        version: "1.0.0".to_string(),
        git_commit: "abc123".to_string(),
        pid: 12345,
    }
}

fn reply(step: ControlStep) -> ControlResponse {
    match step {
        ControlStep::Reply(response) => response,
        other => panic!("Expected a reply, got {:?}", other),
    }
}

fn at(secs: u64) -> Timestamp {
    Timestamp { secs, nanos: 0 }
}

#[test]
fn test_control_server_ping() {
    let mut manager = SocketManager::new(vec![]);
    let line = ControlRequest::Ping.to_json().unwrap();
    match handle_line(&line, &state(false), &mut manager) {
        LineStep::Send(answer) => {
            let parsed = ControlResponse::from_json(answer.trim()).unwrap();
            assert_eq!(parsed, ControlResponse::Pong);
        }
        other => panic!("Expected a line to send, got {:?}", other),
    }
}

#[test]
fn test_handle_status_request() {
    let mut manager = SocketManager::new(vec![]);
    let response = reply(handle_request(ControlRequest::Status, &state(true), &mut manager));

    match response {
        ControlResponse::Status(info) => {
            assert_eq!(info.version, "1.0.0");
            assert_eq!(info.git_commit, "abc123");
            assert_eq!(info.pid, 12345);
            assert!(info.watch_enabled);
            assert_eq!(info.watcher_status, WatcherStatus::Active);
        }
        _ => panic!("Expected Status response"),
    }
}

#[test]
fn test_handle_list_sockets_request() {
    let mut manager = SocketManager::new(vec!["/tmp/configured.sock".to_string()]);
    manager.add_watched("/tmp/watched.sock".to_string());

    let response = reply(handle_request(ControlRequest::ListSockets, &state(false), &mut manager));

    match response {
        ControlResponse::Sockets { sockets } => {
            assert_eq!(sockets.len(), 2);
            // Watched should be first
            assert_eq!(sockets[0].source, SocketSource::Watched);
            assert_eq!(sockets[1].source, SocketSource::Configured);
        }
        _ => panic!("Expected Sockets response"),
    }
}

#[test]
fn test_handle_add_remove_socket() {
    let temp_dir = tempfile::TempDir::new().unwrap();
    let file = tempfile::NamedTempFile::new_in(temp_dir.path()).unwrap();
    let socket_path = file.path().to_str().unwrap().to_string();
    let state = state(false);
    let mut manager = SocketManager::new(vec![]);

    // Add socket
    let response = reply(handle_request(
        ControlRequest::AddSocket { path: socket_path.clone() },
        &state,
        &mut manager,
    ));

    match response {
        ControlResponse::Success { message } => {
            assert!(message.unwrap().contains("Added socket"));
        }
        _ => panic!("Expected Success response"),
    }

    // Verify it was added
    assert!(manager.is_watched(&socket_path));

    // Try to add again (should fail)
    let response = reply(handle_request(
        ControlRequest::AddSocket { path: socket_path.clone() },
        &state,
        &mut manager,
    ));

    match response {
        ControlResponse::Error { error } => {
            assert!(error.contains("already tracked"));
        }
        _ => panic!("Expected Error response"),
    }

    // Remove socket
    let response = reply(handle_request(
        ControlRequest::RemoveSocket { path: socket_path.clone() },
        &state,
        &mut manager,
    ));

    match response {
        ControlResponse::Success { message } => {
            assert!(message.unwrap().contains("Removed socket"));
        }
        _ => panic!("Expected Success response"),
    }

    // Verify it was removed
    assert!(!manager.is_watched(&socket_path));
}

#[test]
fn control_protocol() {
    let configured = "/run/configured.sock".to_string();
    let mut manager = SocketManager::new(vec![configured.clone()]);
    let state = state(true);

    match handle_line("{\"type\":\"Ping\"}\n", &state, &mut manager) {
        LineStep::Send(answer) => assert_eq!(answer, "{\"type\":\"Pong\"}\n"),
        other => panic!("Expected a line to send, got {:?}", other),
    }

    match handle_line("{\"type\":\"AddSocket\",\"data\":{\"path\":\"/nonexistent\"}}", &state, &mut manager)
    {
        LineStep::Send(answer) => {
            assert!(answer.ends_with('\n'));
            match ControlResponse::from_json(&answer).unwrap() {
                ControlResponse::Error { error } => assert!(error.contains("does not exist")),
                other => panic!("Expected Error response, got {:?}", other),
            }
        }
        other => panic!("Expected a line to send, got {:?}", other),
    }

    let line = ControlRequest::RemoveSocket { path: configured.clone() }.to_json().unwrap();
    match handle_line(&line, &state, &mut manager) {
        LineStep::Send(answer) => match ControlResponse::from_json(&answer).unwrap() {
            ControlResponse::Error { error } => assert!(error.contains("configured")),
            other => panic!("Expected Error response, got {:?}", other),
        },
        other => panic!("Expected a line to send, got {:?}", other),
    }
    assert!(manager.is_configured(&configured));
}

#[test]
fn invalid_lines_are_answered_and_change_nothing() {
    let mut manager = SocketManager::new(vec![]);
    manager.add_watched_at("/w".to_string(), at(5));
    for line in ["", "not json", "{\"type\":\"Nope\"}", "{\"type\":\"AddSocket\"}", "[]"] {
        match handle_line(line, &state(true), &mut manager) {
            LineStep::Send(answer) => match ControlResponse::from_json(&answer).unwrap() {
                ControlResponse::Error { error } => {
                    assert!(error.starts_with("Invalid request: "), "{}", error)
                }
                other => panic!("Expected Error response, got {:?}", other),
            },
            other => panic!("Expected a line to send, got {:?}", other),
        }
        assert_eq!(manager.get_ordered_sockets(), vec!["/w".to_string()]);
    }
}

#[test]
fn requests_that_need_the_caller() {
    let mut manager = SocketManager::new(vec!["/c".to_string()]);
    manager.add_watched_at("/w".to_string(), at(5));
    let ordered = vec!["/w".to_string(), "/c".to_string()];

    assert!(matches!(
        handle_request(ControlRequest::Reload, &state(true), &mut manager),
        ControlStep::Scan
    ));
    assert_eq!(
        reply(handle_request(ControlRequest::Reload, &state(false), &mut manager)),
        ControlResponse::Error { error: "SSH forwarding watch is not enabled".to_string() }
    );
    match handle_request(ControlRequest::HealthCheck, &state(false), &mut manager) {
        ControlStep::Probe(sockets) => assert_eq!(sockets, ordered),
        other => panic!("Expected Probe, got {:?}", other),
    }
    match handle_request(ControlRequest::ListKeys, &state(false), &mut manager) {
        ControlStep::QueryKeys(sockets) => assert_eq!(sockets, ordered),
        other => panic!("Expected QueryKeys, got {:?}", other),
    }
    assert!(matches!(
        handle_line("{\"type\":\"Reload\"}", &state(true), &mut manager),
        LineStep::Scan
    ));
    match handle_line("{\"type\":\"HealthCheck\"}", &state(true), &mut manager) {
        LineStep::Probe(sockets) => assert_eq!(sockets, ordered),
        other => panic!("Expected Probe, got {:?}", other),
    }
    match handle_line("{\"type\":\"ListKeys\"}", &state(true), &mut manager) {
        LineStep::QueryKeys(sockets) => assert_eq!(sockets, ordered),
        other => panic!("Expected QueryKeys, got {:?}", other),
    }
    assert_eq!(manager.get_ordered_sockets(), ordered);
}

#[test]
fn status_at_an_instant() {
    let mut manager = SocketManager::new_at(vec!["/c".to_string()], at(1_000));
    manager.add_watched_at("/w".to_string(), at(1_001));
    let info = status_info(&state(true), &manager, &Timestamp { secs: 4_600, nanos: 999 });
    assert_eq!(info.uptime_secs, 3_600);
    assert_eq!(info.socket_count, 2);
    assert_eq!(info.key_count, None);
    assert_eq!(info.listening_on, "/test/listen.sock");
    assert_eq!(info.control_socket, "/test/control.ctl");
}

#[test]
fn adding_a_socket() {
    let mut manager = SocketManager::new(vec!["/c".to_string()]);
    assert_eq!(
        add_socket(&mut manager, "/x".to_string(), false, at(1)),
        ControlResponse::Error { error: "Socket does not exist: /x".to_string() }
    );
    assert_eq!(manager.watched_count(), 0);
    assert_eq!(
        add_socket(&mut manager, "/c".to_string(), true, at(1)),
        ControlResponse::Error { error: "Socket already tracked: /c".to_string() }
    );
    assert!(!manager.is_watched("/c"));
    assert_eq!(
        add_socket(&mut manager, "/x".to_string(), true, at(1)),
        ControlResponse::Success { message: Some("Added socket: /x".to_string()) }
    );
    assert!(manager.is_watched("/x"));
    // A second time the socket is tracked already
    assert_eq!(
        add_socket(&mut manager, "/x".to_string(), true, at(2)),
        ControlResponse::Error { error: "Socket already tracked: /x".to_string() }
    );
    assert_eq!(manager.watched_count(), 1);
}

#[test]
fn removing_a_socket() {
    let mut manager = SocketManager::new(vec!["/c".to_string()]);
    manager.add_watched_at("/w".to_string(), at(1));
    assert_eq!(
        remove_socket(&mut manager, "/c"),
        ControlResponse::Error {
            error: "Cannot remove configured socket: /c (edit config file instead)".to_string()
        }
    );
    assert_eq!(
        remove_socket(&mut manager, "/nope"),
        ControlResponse::Error { error: "Socket not found in watched list: /nope".to_string() }
    );
    assert_eq!(
        remove_socket(&mut manager, "/w"),
        ControlResponse::Success { message: Some("Removed socket: /w".to_string()) }
    );
    assert_eq!(manager.get_ordered_sockets(), vec!["/c".to_string()]);
}

#[test]
fn validation() {
    assert_eq!(
        validation_response(&vec![]),
        ControlResponse::Success { message: Some("All sockets healthy".to_string()) }
    );
    assert_eq!(
        validation_response(&vec!["/a".to_string(), "/b".to_string()]),
        ControlResponse::Success { message: Some("Removed 2 stale socket(s): /a, /b".to_string()) }
    );
    let mut manager = SocketManager::new(vec!["/c".to_string()]);
    manager.add_watched_at("/old".to_string(), at(1));
    manager.add_watched_at("/mid".to_string(), at(2));
    manager.add_watched_at("/new".to_string(), at(3));
    assert_eq!(
        validate_sockets(&mut manager, &vec![false, true, false]),
        ControlResponse::Success {
            message: Some("Removed 2 stale socket(s): /new, /old".to_string())
        }
    );
    assert_eq!(manager.get_ordered_sockets(), vec!["/mid".to_string(), "/c".to_string()]);
    assert_eq!(
        reply(handle_request(ControlRequest::ValidateSockets, &state(false), &mut manager)),
        ControlResponse::Success { message: Some("Removed 1 stale socket(s): /mid".to_string()) }
    );
}

#[test]
fn reloading() {
    assert_eq!(
        reload_response(2, 11),
        ControlResponse::Success { message: Some("Reload complete: 2 added, 11 removed".to_string()) }
    );
    let mut manager = SocketManager::new(vec![]);
    assert_eq!(
        finish_reload(&mut manager, Err("permission denied".to_string())),
        ControlResponse::Error { error: "Failed to scan for agents: permission denied".to_string() }
    );
    let here = tempfile::NamedTempFile::new().unwrap();
    let here = here.path().to_str().unwrap().to_string();
    manager.add_watched("/nonexistent/old".to_string());
    let found = vec![here.clone(), "/nonexistent/new".to_string(), here.clone()];
    assert_eq!(
        finish_reload(&mut manager, Ok(found)),
        ControlResponse::Success { message: Some("Reload complete: 2 added, 2 removed".to_string()) }
    );
    assert_eq!(manager.get_ordered_sockets(), vec![here.clone()]);
    assert_eq!(absorb_agents(&mut manager, &vec![here, "/other".to_string()]), 1);
}

#[test]
fn health_of_a_socket() {
    let info = check_socket_health("/s", &ProbeOutcome::Missing);
    assert_eq!(
        info,
        SocketHealthInfo {
            path: "/s".to_string(),
            status: SocketHealthStatus::Missing,
            key_count: None,
            error: Some("Socket file does not exist".to_string()),
        }
    );
    let info = check_socket_health("/s", &ProbeOutcome::ConnectionFailed("refused".to_string()));
    assert_eq!(info.status, SocketHealthStatus::ConnectionFailed);
    assert_eq!(info.error, Some("Connection failed: refused".to_string()));
    let info = check_socket_health("/s", &ProbeOutcome::ProtocolError("garbage".to_string()));
    assert_eq!(info.status, SocketHealthStatus::ProtocolError);
    assert_eq!(info.error, Some("Protocol error: garbage".to_string()));
    let info = check_socket_health("/s", &ProbeOutcome::QueryFailed("timeout".to_string()));
    assert_eq!(info.status, SocketHealthStatus::QueryFailed);
    assert_eq!(info.error, Some("Query failed: timeout".to_string()));
    let info = check_socket_health("/s", &ProbeOutcome::Healthy(Some(4)));
    assert_eq!(info.status, SocketHealthStatus::Healthy);
    assert_eq!(info.key_count, Some(4));
    assert_eq!(info.error, None);
}

#[test]
fn health_check_counts() {
    let sockets = vec![
        check_socket_health("/a", &ProbeOutcome::Healthy(None)),
        check_socket_health("/b", &ProbeOutcome::Missing),
        check_socket_health("/c", &ProbeOutcome::Healthy(Some(1))),
        check_socket_health("/d", &ProbeOutcome::QueryFailed("x".to_string())),
        check_socket_health("/e", &ProbeOutcome::ProtocolError("y".to_string())),
    ];
    let result = health_check_result(sockets.clone(), vec!["/b".to_string()]);
    assert_eq!(result.healthy_count, 2);
    assert_eq!(result.unhealthy_count, 3);
    assert_eq!(result.sockets, sockets);
    assert_eq!(result.removed, vec!["/b".to_string()]);

    let mut manager = SocketManager::new(vec!["/nonexistent/configured".to_string()]);
    manager.add_watched("/nonexistent/watched".to_string());
    match finish_health_check(&mut manager, sockets) {
        ControlResponse::HealthCheck(result) => {
            assert_eq!(result.healthy_count, 2);
            assert_eq!(result.unhealthy_count, 3);
            assert_eq!(result.removed, vec!["/nonexistent/watched".to_string()]);
        }
        other => panic!("Expected HealthCheck response, got {:?}", other),
    }
    // A configured socket stays whatever its health
    assert_eq!(manager.get_ordered_sockets(), vec!["/nonexistent/configured".to_string()]);
}

fn key(fingerprint: &str, comment: &str) -> AgentKey {
    AgentKey {
        fingerprint: fingerprint.to_string(),
        key_type: "ed25519".to_string(),
        bits: None,
        comment: comment.to_string(),
    }
}

fn listed(fingerprint: &str, comment: &str, socket: &str) -> KeyInfo {
    KeyInfo {
        fingerprint: fingerprint.to_string(),
        key_type: "ed25519".to_string(),
        bits: None,
        comment: comment.to_string(),
        source_socket: socket.to_string(),
    }
}

#[test]
fn keys_are_tagged_with_their_socket() {
    let replies = vec![
        UpstreamKeys { socket: "/w".to_string(), keys: Some(vec![key("SHA256:a", "one"), key("SHA256:b", "two")]) },
        UpstreamKeys { socket: "/dead".to_string(), keys: None },
        UpstreamKeys { socket: "/empty".to_string(), keys: Some(vec![]) },
        UpstreamKeys { socket: "/c".to_string(), keys: Some(vec![key("SHA256:a", "one")]) },
    ];
    assert_eq!(
        finish_list_keys(&replies),
        ControlResponse::Keys {
            keys: vec![
                listed("SHA256:a", "one", "/w"),
                listed("SHA256:b", "two", "/w"),
                listed("SHA256:a", "one", "/c"),
            ]
        }
    );
    assert_eq!(finish_list_keys(&vec![]), ControlResponse::Keys { keys: vec![] });
}

#[test]
fn response_lines() {
    assert_eq!(response_line(&ControlResponse::Pong).unwrap(), "{\"type\":\"Pong\"}\n");
}
