use ssh_agent_mux::control::codec::{
    decode_health_check_result, decode_key_info, decode_socket_info, decode_source,
    decode_watcher_status, encode_health_check_result, encode_health_status, encode_key_info,
    encode_socket_info, encode_source, encode_status_info, encode_watcher_status, decode_status_info,
    decode_health_status,
};
use ssh_agent_mux::control::json::{
    read_document, same_tree, write_checked, write_document, Json, WireError,
};
use ssh_agent_mux::control::{
    ControlRequest, ControlResponse, HealthCheckResult, KeyInfo, SocketHealthInfo,
    SocketHealthStatus, SocketInfo, SocketSource, StatusInfo, WatcherStatus,
};

fn text_of(tree: &Json) -> String {
    write_document(tree).unwrap()
}

fn tree_of(text: &str) -> Json {
    read_document(text).unwrap()
}

#[test]
fn test_request_serialization_status() {
    let req = ControlRequest::Status;
    let json = req.to_json().unwrap();
    assert_eq!(json, r#"{"type":"Status"}"#);

    let parsed = ControlRequest::from_json(&json).unwrap();
    assert_eq!(parsed, req);
}

#[test]
fn test_request_serialization_ping() {
    let req = ControlRequest::Ping;
    let json = req.to_json().unwrap();
    assert_eq!(json, r#"{"type":"Ping"}"#);

    let parsed = ControlRequest::from_json(&json).unwrap();
    assert_eq!(parsed, req);
}

#[test]
fn test_request_serialization_add_socket() {
    let req = ControlRequest::AddSocket { path: "/tmp/test.sock".to_string() };
    let json = req.to_json().unwrap();
    assert_eq!(json, r#"{"type":"AddSocket","data":{"path":"/tmp/test.sock"}}"#);

    let parsed = ControlRequest::from_json(&json).unwrap();
    assert_eq!(parsed, req);
}

#[test]
fn test_request_serialization_remove_socket() {
    let req = ControlRequest::RemoveSocket { path: "/tmp/ssh-abc/agent.123".to_string() };
    let json = req.to_json().unwrap();
    assert!(json.contains("RemoveSocket"));
    assert!(json.contains("/tmp/ssh-abc/agent.123"));

    let parsed = ControlRequest::from_json(&json).unwrap();
    assert_eq!(parsed, req);
}

#[test]
fn test_response_serialization_pong() {
    let resp = ControlResponse::Pong;
    let json = resp.to_json().unwrap();
    assert_eq!(json, r#"{"type":"Pong"}"#);

    let parsed = ControlResponse::from_json(&json).unwrap();
    assert_eq!(parsed, resp);
}

#[test]
fn test_response_serialization_error() {
    let resp = ControlResponse::Error { error: "Something went wrong".to_string() };
    let json = resp.to_json().unwrap();
    assert!(json.contains("Error"));
    assert!(json.contains("Something went wrong"));

    let parsed = ControlResponse::from_json(&json).unwrap();
    assert_eq!(parsed, resp);
}

#[test]
fn test_response_serialization_success() {
    let resp = ControlResponse::Success { message: Some("Operation completed".to_string()) };
    let json = resp.to_json().unwrap();
    assert!(json.contains("Success"));
    assert!(json.contains("Operation completed"));

    let parsed = ControlResponse::from_json(&json).unwrap();
    assert_eq!(parsed, resp);
}

#[test]
fn test_response_serialization_success_no_message() {
    let resp = ControlResponse::Success { message: None };
    let json = resp.to_json().unwrap();

    let parsed = ControlResponse::from_json(&json).unwrap();
    assert_eq!(parsed, resp);
}

#[test]
fn test_status_info_serialization() {
    let status = StatusInfo {
        version: "0.2.0".to_string(),
        git_commit: "abc1234".to_string(),
        uptime_secs: 3600,
        pid: 12345,
        listening_on: "/home/user/.ssh/ssh-agent-mux.sock".to_string(),
        control_socket: "/home/user/.ssh/ssh-agent-mux.ctl".to_string(),
        watch_enabled: true,
        watcher_status: WatcherStatus::Active,
        socket_count: 2,
        key_count: Some(3),
    };

    let resp = ControlResponse::Status(status.clone());
    let json = resp.to_json().unwrap();

    let parsed = ControlResponse::from_json(&json).unwrap();
    assert_eq!(parsed, resp);
}

#[test]
fn test_watcher_status_serialization() {
    // Active
    let status = WatcherStatus::Active;
    let json = text_of(&encode_watcher_status(&status));
    assert_eq!(json, r#"{"status":"Active"}"#);

    // Disabled
    let status = WatcherStatus::Disabled;
    let json = text_of(&encode_watcher_status(&status));
    assert_eq!(json, r#"{"status":"Disabled"}"#);

    // PollingFallback
    let status = WatcherStatus::PollingFallback("Permission denied".to_string());
    let json = text_of(&encode_watcher_status(&status));
    assert!(json.contains("PollingFallback"));
    assert!(json.contains("Permission denied"));
}

#[test]
fn test_socket_info_serialization() {
    let socket = SocketInfo {
        path: "/tmp/auth-agent123/listener.sock".to_string(),
        source: SocketSource::Watched,
        added_at: Some("2024-12-05T13:28:10Z".to_string()),
        healthy: true,
        last_health_check: Some("2024-12-05T14:00:00Z".to_string()),
        key_count: Some(2),
        order: 1,
    };

    let json = text_of(&encode_socket_info(&socket));
    let parsed = decode_socket_info(&tree_of(&json)).unwrap();
    assert_eq!(parsed, socket);
}

#[test]
fn test_socket_source_lowercase() {
    let configured = SocketSource::Configured;
    let json = text_of(&encode_source(&configured));
    assert_eq!(json, r#""configured""#);

    let watched = SocketSource::Watched;
    let json = text_of(&encode_source(&watched));
    assert_eq!(json, r#""watched""#);
}

#[test]
fn test_key_info_serialization() {
    let key = KeyInfo {
        fingerprint: "SHA256:abc123def456".to_string(),
        key_type: "ed25519".to_string(),
        bits: None,
        comment: "user@laptop".to_string(),
        source_socket: "/tmp/auth-agent123/listener.sock".to_string(),
    };

    let json = text_of(&encode_key_info(&key));
    let parsed = decode_key_info(&tree_of(&json)).unwrap();
    assert_eq!(parsed, key);
}

#[test]
fn test_health_check_result_serialization() {
    let result = HealthCheckResult {
        sockets: vec![
            SocketHealthInfo {
                path: "/tmp/agent1.sock".to_string(),
                status: SocketHealthStatus::Healthy,
                key_count: Some(2),
                error: None,
            },
            SocketHealthInfo {
                path: "/tmp/agent2.sock".to_string(),
                status: SocketHealthStatus::ConnectionFailed,
                key_count: None,
                error: Some("Connection refused".to_string()),
            },
        ],
        healthy_count: 1,
        unhealthy_count: 1,
        removed: vec![],
    };

    let resp = ControlResponse::HealthCheck(result.clone());
    let json = resp.to_json().unwrap();
    let parsed = ControlResponse::from_json(&json).unwrap();
    assert_eq!(parsed, resp);
}

#[test]
fn test_socket_health_status_snake_case() {
    let healthy = SocketHealthStatus::Healthy;
    let json = text_of(&encode_health_status(&healthy));
    assert_eq!(json, r#""healthy""#);

    let connection_failed = SocketHealthStatus::ConnectionFailed;
    let json = text_of(&encode_health_status(&connection_failed));
    assert_eq!(json, r#""connection_failed""#);

    let protocol_error = SocketHealthStatus::ProtocolError;
    let json = text_of(&encode_health_status(&protocol_error));
    assert_eq!(json, r#""protocol_error""#);
}

#[test]
fn test_sockets_response() {
    let resp = ControlResponse::Sockets {
        sockets: vec![
            SocketInfo {
                path: "/tmp/sock1".to_string(),
                source: SocketSource::Watched,
                added_at: Some("2024-12-05T10:00:00Z".to_string()),
                healthy: true,
                last_health_check: None,
                key_count: Some(1),
                order: 1,
            },
            SocketInfo {
                path: "/home/user/.agent.sock".to_string(),
                source: SocketSource::Configured,
                added_at: None,
                healthy: true,
                last_health_check: None,
                key_count: Some(2),
                order: 2,
            },
        ],
    };

    let json = resp.to_json().unwrap();
    let parsed = ControlResponse::from_json(&json).unwrap();
    assert_eq!(parsed, resp);
}

#[test]
fn test_keys_response() {
    let resp = ControlResponse::Keys {
        keys: vec![
            KeyInfo {
                fingerprint: "SHA256:abc".to_string(),
                key_type: "ed25519".to_string(),
                bits: None,
                comment: "key1".to_string(),
                source_socket: "/tmp/sock1".to_string(),
            },
            KeyInfo {
                fingerprint: "SHA256:def".to_string(),
                key_type: "rsa".to_string(),
                bits: Some(4096),
                comment: "key2".to_string(),
                source_socket: "/tmp/sock2".to_string(),
            },
        ],
    };

    let json = resp.to_json().unwrap();
    let parsed = ControlResponse::from_json(&json).unwrap();
    assert_eq!(parsed, resp);
}

#[test]
fn test_all_requests_roundtrip() {
    let requests = vec![
        ControlRequest::Status,
        ControlRequest::ListSockets,
        ControlRequest::ListKeys,
        ControlRequest::Reload,
        ControlRequest::ValidateSockets,
        ControlRequest::RemoveSocket { path: "/test".to_string() },
        ControlRequest::AddSocket { path: "/test".to_string() },
        ControlRequest::HealthCheck,
        ControlRequest::Ping,
    ];

    for req in requests {
        let json = req.to_json().unwrap();
        let parsed = ControlRequest::from_json(&json).unwrap();
        assert_eq!(parsed, req, "Failed roundtrip for {:?}", req);
    }
}

#[test]
fn all_responses_round_trip() {
    let status = StatusInfo {
        version: "1.2.3".to_string(),
        git_commit: "v1.2.3-4-gdeadbee".to_string(),
        uptime_secs: u64::MAX,
        pid: u32::MAX,
        listening_on: "/run/user/1000/mux.sock".to_string(),
        control_socket: "/run/user/1000/mux.ctl".to_string(),
        watch_enabled: false,
        watcher_status: WatcherStatus::PollingFallback("inotify limit \"reached\"\n".to_string()),
        socket_count: 0,
        key_count: None,
    };
    let responses = vec![
        ControlResponse::Status(status),
        ControlResponse::Sockets { sockets: vec![] },
        ControlResponse::Keys { keys: vec![] },
        ControlResponse::HealthCheck(HealthCheckResult {
            sockets: vec![SocketHealthInfo {
                path: "/tmp/ssh-a/agent.1".to_string(),
                status: SocketHealthStatus::QueryFailed,
                key_count: None,
                error: Some("timed out".to_string()),
            }],
            healthy_count: 0,
            unhealthy_count: 1,
            removed: vec!["/tmp/ssh-b/agent.2".to_string(), "/tmp/\u{e9}t\u{e9}".to_string()],
        }),
        ControlResponse::Success { message: Some(String::new()) },
        ControlResponse::Success { message: None },
        ControlResponse::Error { error: "tab\there \\ and \u{1F511}".to_string() },
        ControlResponse::Pong,
    ];
    for resp in responses {
        let json = resp.to_json().unwrap();
        let parsed = ControlResponse::from_json(&json).unwrap();
        assert_eq!(parsed, resp, "failed round trip through {}", json);
    }
}

#[test]
fn wire_form_of_responses() {
    assert_eq!(
        ControlResponse::Success { message: None }.to_json().unwrap(),
        r#"{"type":"Success","data":{"message":null}}"#
    );
    assert_eq!(
        ControlResponse::Error { error: "no".to_string() }.to_json().unwrap(),
        r#"{"type":"Error","data":{"error":"no"}}"#
    );
    assert_eq!(
        ControlResponse::Sockets { sockets: vec![] }.to_json().unwrap(),
        r#"{"type":"Sockets","data":{"sockets":[]}}"#
    );
    let socket = SocketInfo {
        path: "/a".to_string(),
        source: SocketSource::Configured,
        added_at: None,
        healthy: false,
        last_health_check: None,
        key_count: None,
        order: 7,
    };
    assert_eq!(
        text_of(&encode_socket_info(&socket)),
        r#"{"path":"/a","source":"configured","added_at":null,"healthy":false,"last_health_check":null,"key_count":null,"order":7}"#
    );
    let status = WatcherStatus::PollingFallback("denied".to_string());
    assert_eq!(
        text_of(&encode_watcher_status(&status)),
        r#"{"status":"PollingFallback","reason":"denied"}"#
    );
}

#[test]
fn requests_are_read_whatever_the_order_and_spacing() {
    let parsed = ControlRequest::from_json(
        " { \"data\" : { \"extra\": [1, 2.5, -3], \"path\" : \"/x\" }, \"type\" : \"AddSocket\" }\n",
    )
    .unwrap();
    assert_eq!(parsed, ControlRequest::AddSocket { path: "/x".to_string() });
    let parsed = ControlRequest::from_json("{\"type\":\"Ping\",\"data\":null}").unwrap();
    assert_eq!(parsed, ControlRequest::Ping);
}

#[test]
fn text_that_is_no_request_is_refused() {
    assert!(matches!(ControlRequest::from_json("{\"type\":"), Err(WireError::Syntax(_))));
    assert!(matches!(ControlRequest::from_json(""), Err(WireError::Syntax(_))));
    assert_eq!(ControlRequest::from_json("{\"type\":\"Dance\"}"), Err(WireError::Shape));
    assert_eq!(ControlRequest::from_json("{\"type\":\"AddSocket\"}"), Err(WireError::Shape));
    assert_eq!(
        ControlRequest::from_json("{\"type\":\"AddSocket\",\"data\":{\"path\":5}}"),
        Err(WireError::Shape)
    );
    assert_eq!(ControlRequest::from_json("[\"Ping\"]"), Err(WireError::Shape));
    assert_eq!(ControlRequest::from_json("{\"type\":\"ping\"}"), Err(WireError::Shape));
    assert_eq!(ControlResponse::from_json("{\"type\":\"Ping\"}"), Err(WireError::Shape));
    assert_eq!(
        ControlResponse::from_json("{\"type\":\"Error\",\"data\":{}}"),
        Err(WireError::Shape)
    );
}

#[test]
fn optional_members_may_be_missing() {
    let parsed = ControlResponse::from_json("{\"type\":\"Success\",\"data\":{}}").unwrap();
    assert_eq!(parsed, ControlResponse::Success { message: None });
    let parsed = decode_key_info(&tree_of(
        r#"{"fingerprint":"f","key_type":"rsa","comment":"c","source_socket":"s"}"#,
    ))
    .unwrap();
    assert_eq!(parsed.bits, None);
}

#[test]
fn numbers_out_of_range_are_refused() {
    let key = r#"{"fingerprint":"f","key_type":"rsa","bits":4294967296,"comment":"c","source_socket":"s"}"#;
    assert_eq!(decode_key_info(&tree_of(key)), None);
    let key = r#"{"fingerprint":"f","key_type":"rsa","bits":4294967295,"comment":"c","source_socket":"s"}"#;
    assert_eq!(decode_key_info(&tree_of(key)).unwrap().bits, Some(u32::MAX));
    let key = r#"{"fingerprint":"f","key_type":"rsa","bits":-1,"comment":"c","source_socket":"s"}"#;
    assert_eq!(decode_key_info(&tree_of(key)), None);
    let key = r#"{"fingerprint":"f","key_type":"rsa","bits":1.5,"comment":"c","source_socket":"s"}"#;
    assert_eq!(decode_key_info(&tree_of(key)), None);
}

#[test]
fn enumerations_round_trip() {
    for source in [SocketSource::Configured, SocketSource::Watched] {
        assert_eq!(decode_source(&encode_source(&source)), Some(source));
    }
    for status in [
        SocketHealthStatus::Healthy,
        SocketHealthStatus::Missing,
        SocketHealthStatus::ConnectionFailed,
        SocketHealthStatus::ProtocolError,
        SocketHealthStatus::QueryFailed,
    ] {
        assert_eq!(decode_health_status(&encode_health_status(&status)), Some(status));
    }
    for status in [
        WatcherStatus::Active,
        WatcherStatus::Disabled,
        WatcherStatus::PollingFallback("why".to_string()),
    ] {
        assert_eq!(decode_watcher_status(&encode_watcher_status(&status)), Some(status));
    }
    assert_eq!(decode_source(&Json::Text("Watched".to_string())), None);
    assert_eq!(decode_health_status(&Json::Text("connection failed".to_string())), None);
    assert_eq!(text_of(&encode_health_status(&SocketHealthStatus::Missing)), r#""missing""#);
    assert_eq!(text_of(&encode_health_status(&SocketHealthStatus::QueryFailed)), r#""query_failed""#);
}

#[test]
fn status_and_health_documents_round_trip() {
    let status = StatusInfo {
        version: "0.2.0".to_string(),
        git_commit: "abc1234".to_string(),
        uptime_secs: 59,
        pid: 1,
        listening_on: "l".to_string(),
        control_socket: "c".to_string(),
        watch_enabled: true,
        watcher_status: WatcherStatus::Disabled,
        socket_count: 9,
        key_count: Some(0),
    };
    assert_eq!(decode_status_info(&encode_status_info(&status)), Some(status));
    let result = HealthCheckResult {
        sockets: vec![],
        healthy_count: 0,
        unhealthy_count: 0,
        removed: vec!["/gone".to_string()],
    };
    assert_eq!(decode_health_check_result(&encode_health_check_result(&result)), Some(result));
}

#[test]
fn a_document_with_a_lost_number_is_not_written() {
    let tree = tree_of("[1, -1]");
    assert_eq!(tree, Json::Array(vec![Json::Number(1), Json::OtherNumber]));
    assert!(matches!(write_document(&tree), Err(WireError::Unwritable(_))));
    assert_eq!(text_of(&tree_of("[1, {\"a\": [true, null, \"x\"]}]")), r#"[1,{"a":[true,null,"x"]}]"#);
}

#[test]
fn display_words() {
    assert_eq!(SocketHealthStatus::Healthy.to_text(), "healthy");
    assert_eq!(SocketHealthStatus::Missing.to_text(), "missing");
    assert_eq!(SocketHealthStatus::ConnectionFailed.to_text(), "connection failed");
    assert_eq!(SocketHealthStatus::ProtocolError.to_text(), "protocol error");
    assert_eq!(SocketHealthStatus::QueryFailed.to_text(), "query failed");
    assert_eq!(SocketSource::Configured.to_text(), "configured");
    assert_eq!(SocketSource::Watched.to_text(), "watched");
    assert_eq!(WatcherStatus::Active.to_text(), "active");
    assert_eq!(WatcherStatus::Disabled.to_text(), "disabled");
    assert_eq!(
        WatcherStatus::PollingFallback("Permission denied".to_string()).to_text(),
        "polling (Permission denied)"
    );
}

#[test]
fn lines_carry_messages() {
    assert_eq!(ControlRequest::Status.to_line().unwrap(), "{\"type\":\"Status\"}\n");
    assert_eq!(ControlResponse::Pong.to_line().unwrap(), "{\"type\":\"Pong\"}\n");
    let line = ControlResponse::Error { error: "a\nb".to_string() }.to_line().unwrap();
    assert_eq!(line, "{\"type\":\"Error\",\"data\":{\"error\":\"a\\nb\"}}\n");
    assert_eq!(
        ControlResponse::from_json(line.trim_end()).unwrap(),
        ControlResponse::Error { error: "a\nb".to_string() }
    );
}

#[test]
fn documents_compare_by_content() {
    let a = tree_of(r#"{"a":[1,"x",null,{"b":true}],"c":-2}"#);
    let b = tree_of(r#" { "a" : [ 1 , "x" , null , { "b" : true } ] , "c" : -7.5 } "#);
    assert!(same_tree(&a, &b));
    assert!(same_tree(&a, &a));
    for other in [
        r#"{"a":[1,"x",null,{"b":false}],"c":-2}"#,
        r#"{"a":[1,"x",null,{"b":true}]}"#,
        r#"{"c":-2,"a":[1,"x",null,{"b":true}]}"#,
        r#"{"a":[1,"y",null,{"b":true}],"c":-2}"#,
        r#"{"a":[1,"x",null,{"B":true}],"c":-2}"#,
        r#"{"a":[1,"x",null],"c":-2}"#,
        r#"[]"#,
        r#"null"#,
    ] {
        assert!(!same_tree(&a, &tree_of(other)), "{}", other);
    }
    assert_eq!(write_checked(&tree_of("[1, [2, [3]]]")).unwrap(), "[1,[2,[3]]]");
    assert!(matches!(write_checked(&a), Err(WireError::Unwritable(_))));
}
