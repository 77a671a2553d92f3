use ssh_agent_mux::commands::{
    cmd_health, cmd_list, cmd_list_keys, cmd_message, cmd_status, format_duration,
    format_timestamp, render_health, render_keys, render_sockets, render_status, OutputFormat,
};
use ssh_agent_mux::control::{
    ControlClientError, HealthCheckResult, KeyInfo, SocketHealthInfo, SocketHealthStatus,
    SocketInfo, SocketSource, StatusInfo, WatcherStatus,
};

#[test]
fn durations() {
    assert_eq!(format_duration(0), "0s");
    assert_eq!(format_duration(59), "59s");
    assert_eq!(format_duration(60), "1m 0s");
    assert_eq!(format_duration(3599), "59m 59s");
    assert_eq!(format_duration(3600), "1h 0m");
    assert_eq!(format_duration(86399), "23h 59m");
    assert_eq!(format_duration(86400), "1d 0h");
    assert_eq!(format_duration(90061), "1d 1h");
    assert_eq!(format_duration(u64::MAX), "213503982334601d 7h");
}

#[test]
fn timestamps() {
    assert_eq!(format_timestamp("2024-12-05T13:28:10Z"), "2024-12-05 13:28:10");
    assert_eq!(format_timestamp("2024-12-05T13:28:10.123456+02:00"), "2024-12-05 13:28:10");
    assert_eq!(format_timestamp("yesterday"), "yesterday");
    assert_eq!(format_timestamp(""), "");
}

fn status() -> StatusInfo {
    StatusInfo {
        version: "0.2.0".to_string(),
        git_commit: "abc1234".to_string(),
        uptime_secs: 3725,
        pid: 4242,
        listening_on: "/home/u/.ssh/ssh-agent-mux.sock".to_string(),
        control_socket: "/home/u/.ssh/ssh-agent-mux.ctl".to_string(),
        watch_enabled: true,
        watcher_status: WatcherStatus::PollingFallback("denied".to_string()),
        socket_count: 3,
        key_count: Some(5),
    }
}

#[test]
fn status_for_people() {
    let expected = "ssh-agent-mux v0.2.0 (abc1234)\n\
                    \x20 PID:            4242\n\
                    \x20 Uptime:         1h 2m\n\
                    \n\
                    Sockets:\n\
                    \x20 Agent:          /home/u/.ssh/ssh-agent-mux.sock\n\
                    \x20 Control:        /home/u/.ssh/ssh-agent-mux.ctl\n\
                    \n\
                    Watch:\n\
                    \x20 Enabled:        yes\n\
                    \x20 Status:         polling (denied)\n\
                    \n\
                    Stats:\n\
                    \x20 Upstream:       3 socket(s)\n\
                    \x20 Keys:           5 available\n";
    assert_eq!(render_status(&status()), expected);
    let mut quiet = status();
    quiet.key_count = None;
    quiet.watch_enabled = false;
    quiet.watcher_status = WatcherStatus::Disabled;
    let text = render_status(&quiet);
    assert!(text.ends_with("  Upstream:       3 socket(s)\n"));
    assert!(text.contains("  Enabled:        no\n  Status:         disabled\n"));
}

#[test]
fn sockets_for_people() {
    assert_eq!(render_sockets(&vec![]), "No upstream agent sockets configured.\n");
    let sockets = vec![
        SocketInfo {
            path: "/tmp/ssh-a/agent.1".to_string(),
            source: SocketSource::Watched,
            added_at: Some("2024-12-05T13:28:10+00:00".to_string()),
            healthy: true,
            last_health_check: None,
            key_count: None,
            order: 1,
        },
        SocketInfo {
            path: "/run/agent.sock".to_string(),
            source: SocketSource::Configured,
            added_at: None,
            healthy: false,
            last_health_check: None,
            key_count: None,
            order: 12,
        },
    ];
    let expected = "ORDER  SOURCE       HEALTHY  ADDED                PATH\n\
                    1      watched yes      2024-12-05 13:28:10  /tmp/ssh-a/agent.1\n\
                    12     configured no       -                    /run/agent.sock\n";
    assert_eq!(render_sockets(&sockets), expected);
}

fn key(fingerprint: &str, comment: &str) -> KeyInfo {
    KeyInfo {
        fingerprint: fingerprint.to_string(),
        key_type: "rsa".to_string(),
        bits: Some(4096),
        comment: comment.to_string(),
        source_socket: "/s".to_string(),
    }
}

#[test]
fn keys_for_people() {
    assert_eq!(render_keys(&vec![]), "No keys available.\n");
    let long = "SHA256:0123456789012345678901234567890123456789012345";
    assert_eq!(long.len(), 53);
    let keys = vec![key("SHA256:short", "me@host"), key(long, "a comment that is rather too long")];
    let heading = format!("{:<50} {:<10} {:<30} {}\n", "FINGERPRINT", "TYPE", "COMMENT", "SOURCE");
    let first = format!("{:<50} {:<10} {:<30} {}\n", "SHA256:short", "rsa", "me@host", "/s");
    let second = format!(
        "{:<50} {:<10} {:<30} {}\n",
        "SHA256:0123456789012345678901234567890123456789...",
        "rsa",
        "a comment that is rather to...",
        "/s"
    );
    assert_eq!(render_keys(&keys), format!("{}{}{}", heading, first, second));
    // Exactly at the limit nothing is cut
    let at_limit = "x".repeat(47);
    assert!(render_keys(&vec![key(&at_limit, "c")]).contains(&format!("{}    rsa", at_limit)));
}

fn health() -> HealthCheckResult {
    HealthCheckResult {
        sockets: vec![
            SocketHealthInfo {
                path: "/a".to_string(),
                status: SocketHealthStatus::Healthy,
                key_count: Some(2),
                error: None,
            },
            SocketHealthInfo {
                path: "/b".to_string(),
                status: SocketHealthStatus::ConnectionFailed,
                key_count: None,
                error: Some("Connection failed: refused".to_string()),
            },
        ],
        healthy_count: 1,
        unhealthy_count: 1,
        removed: vec!["/gone".to_string(), "/gone2".to_string()],
    }
}

#[test]
fn health_for_people() {
    let expected = "Checking 2 socket(s)...\n\
                    \x20 [1/2] /a\n\
                    \x20       Status: \u{2713} healthy\n\
                    \x20       Keys: 2\n\
                    \x20 [2/2] /b\n\
                    \x20       Status: \u{2717} connection failed\n\
                    \x20       Error: Connection failed: refused\n\
                    \n\
                    1 healthy, 1 unhealthy\n\
                    \n\
                    Removed 2 stale socket(s):\n\
                    \x20 - /gone\n\
                    \x20 - /gone2\n";
    assert_eq!(render_health(&health()), expected);
    let fine =
        HealthCheckResult { sockets: vec![], healthy_count: 0, unhealthy_count: 0, removed: vec![] };
    assert_eq!(render_health(&fine), "Checking 0 socket(s)...\n\nAll sockets healthy.\n");
}

fn failed<T>() -> Result<T, ControlClientError> {
    Err(ControlClientError::DaemonError("nope".to_string()))
}

#[test]
fn commands_that_show_a_reply() {
    let out = cmd_status(&Ok(status()), OutputFormat::Human);
    assert!(out.success);
    assert_eq!(out.stdout, render_status(&status()));
    assert_eq!(out.stderr, "");
    let out = cmd_status(&Ok(status()), OutputFormat::Json);
    assert!(out.success);
    assert!(out.stdout.starts_with("{\n  \"version\": \"0.2.0\",\n  \"git_commit\": \"abc1234\",\n"));
    assert!(out.stdout.ends_with("\n}\n"));
    for format in [OutputFormat::Human, OutputFormat::Json] {
        let out = cmd_status(&failed(), format);
        assert!(!out.success);
        assert_eq!(out.stdout, "");
        assert_eq!(out.stderr, "Error: Daemon error: nope\n");
        let out = cmd_list(&failed(), format);
        assert_eq!((out.success, out.stderr.as_str()), (false, "Error: Daemon error: nope\n"));
        let out = cmd_list_keys(&failed(), format);
        assert_eq!((out.success, out.stderr.as_str()), (false, "Error: Daemon error: nope\n"));
    }
    let out = cmd_list(&Ok(vec![]), OutputFormat::Human);
    assert_eq!((out.success, out.stdout.as_str()), (true, "No upstream agent sockets configured.\n"));
    let out = cmd_list(&Ok(vec![]), OutputFormat::Json);
    assert_eq!((out.success, out.stdout.as_str()), (true, "[]\n"));
    let out = cmd_list_keys(&Ok(vec![]), OutputFormat::Human);
    assert_eq!((out.success, out.stdout.as_str()), (true, "No keys available.\n"));
    let out = cmd_list_keys(&Ok(vec![key("f", "c")]), OutputFormat::Json);
    assert!(out.stdout.starts_with("[\n  {\n    \"fingerprint\": \"f\","));
}

#[test]
fn commands_that_are_answered_with_a_message() {
    let done: Result<String, ControlClientError> = Ok("Reload complete: 1 added, 0 removed".to_string());
    let out = cmd_message(&done, OutputFormat::Human);
    assert_eq!(
        (out.success, out.stdout.as_str(), out.stderr.as_str()),
        (true, "Reload complete: 1 added, 0 removed\n", "")
    );
    let out = cmd_message(&done, OutputFormat::Json);
    assert_eq!(
        (out.success, out.stdout.as_str(), out.stderr.as_str()),
        (true, "{\"success\":true,\"message\":\"Reload complete: 1 added, 0 removed\"}\n", "")
    );
    let out = cmd_message(&failed(), OutputFormat::Human);
    assert_eq!(
        (out.success, out.stdout.as_str(), out.stderr.as_str()),
        (false, "", "Error: Daemon error: nope\n")
    );
    let out = cmd_message(&failed(), OutputFormat::Json);
    assert_eq!(
        (out.success, out.stdout.as_str(), out.stderr.as_str()),
        (false, "{\"success\":false,\"error\":\"Daemon error: nope\"}\n", "")
    );
}

#[test]
fn health_command_fails_where_a_socket_is_unhealthy() {
    let out = cmd_health(&Ok(health()), OutputFormat::Human);
    assert!(!out.success);
    assert_eq!(out.stdout, render_health(&health()));
    let out = cmd_health(&Ok(health()), OutputFormat::Json);
    assert!(!out.success);
    assert!(out.stdout.contains("\"unhealthy_count\": 1"));
    let mut fine = health();
    fine.unhealthy_count = 0;
    assert!(cmd_health(&Ok(fine.clone()), OutputFormat::Human).success);
    assert!(cmd_health(&Ok(fine), OutputFormat::Json).success);
    let out = cmd_health(&failed(), OutputFormat::Human);
    assert_eq!((out.success, out.stderr.as_str()), (false, "Error: Daemon error: nope\n"));
    let out = cmd_health(&failed(), OutputFormat::Json);
    assert_eq!(
        (out.success, out.stdout.as_str()),
        (false, "{\"success\":false,\"error\":\"Daemon error: nope\"}\n")
    );
}
