use ssh_agent_mux::cli::{
    control_socket_of, default_config_path, default_control_socket, default_listen_path,
    derive_control_path, Args, Command, Config, ExpandedPaths, LogLevel,
};
use ssh_agent_mux::clock::Timestamp;
use ssh_agent_mux::paths::{
    child_path, file_name_of, parent_name_of, path_is_directly_under, path_is_under,
    split_components,
};
use ssh_agent_mux::text::{decimal_string, ends_with, join, same_text, starts_with};

fn config() -> Config {
    Config {
        listen_path: "/run/user/1000/mux.sock".to_string(),
        control_socket_path: None,
        log_level: LogLevel::Warn,
        log_file: None,
        agent_sock_paths: vec!["/run/a.sock".to_string(), "/run/b.sock".to_string()],
        watch_for_ssh_forward: true,
        health_check_interval: 60,
        config_path: "/etc/mux.toml".to_string(),
    }
}

#[test]
fn control_socket_of_a_configuration() {
    let mut config = config();
    assert_eq!(config.get_control_socket_path(), "/run/user/1000/mux.ctl");
    config.listen_path = "/run/listen".to_string();
    assert_eq!(config.get_control_socket_path(), "/run/listen.ctl");
    config.control_socket_path = Some("/elsewhere/control".to_string());
    assert_eq!(config.get_control_socket_path(), "/elsewhere/control");
    assert_eq!(derive_control_path("/x/y.sock"), "/x/y.ctl");
}

#[test]
fn default_paths() {
    assert_eq!(default_listen_path(), "~/.ssh/ssh-agent-mux.sock");
    assert_eq!(control_socket_of(&Some("/home/u/.ssh/ssh-agent-mux.sock".to_string())), "/home/u/.ssh/ssh-agent-mux.ctl");
    assert_eq!(control_socket_of(&None), ".ctl");
    let socket = default_control_socket();
    assert!(socket.ends_with(".ctl"));
    assert!(!socket.starts_with('~'));
}

#[test]
fn paths_without_a_tilde_stay() {
    let expanded = config().expand_paths().unwrap();
    assert_eq!(expanded.listen_path, "/run/user/1000/mux.sock");
    assert_eq!(expanded.agent_sock_paths, config().agent_sock_paths);
    assert_eq!(expanded.control_socket_path, None);
    assert_eq!(expanded.log_file, None);
    assert_eq!(expanded.health_check_interval, 60);
    assert_eq!(expanded.log_level, LogLevel::Warn);
    assert!(expanded.watch_for_ssh_forward);
    assert_eq!(expanded.config_path, "/etc/mux.toml");
}

#[test]
fn a_tilde_is_filled_in() {
    let mut with_home = config();
    with_home.listen_path = "~/.ssh/mux.sock".to_string();
    with_home.log_file = Some("~/mux.log".to_string());
    with_home.agent_sock_paths = vec!["~/a.sock".to_string(), "/b~".to_string(), "~user".to_string()];
    if let Some(expanded) = with_home.expand_paths() {
        assert!(expanded.listen_path.ends_with("/.ssh/mux.sock"));
        assert!(!expanded.listen_path.starts_with('~'));
        assert!(expanded.log_file.unwrap().ends_with("/mux.log"));
        assert_eq!(expanded.agent_sock_paths.len(), 3);
        assert!(expanded.agent_sock_paths[0].ends_with("/a.sock"));
        assert_eq!(expanded.agent_sock_paths[1], "/b~");
        assert_eq!(expanded.agent_sock_paths[2], "~user");
    }
}

#[test]
fn control_socket_for_client_commands() {
    let args = Args { control_socket: Some("/run/mux.ctl".to_string()), json: false, command: Command::Status };
    assert_eq!(args.get_control_socket(), "/run/mux.ctl");
    let args = Args { control_socket: None, json: true, command: Command::Health };
    assert_eq!(args.get_control_socket(), default_control_socket());
}

#[test]
fn instants() {
    let start = Timestamp { secs: 100, nanos: 500 };
    assert_eq!(start.whole_secs_until(&Timestamp { secs: 100, nanos: 500 }), 0);
    assert_eq!(start.whole_secs_until(&Timestamp { secs: 101, nanos: 499 }), 0);
    assert_eq!(start.whole_secs_until(&Timestamp { secs: 101, nanos: 500 }), 1);
    assert_eq!(start.whole_secs_until(&Timestamp { secs: 160, nanos: 0 }), 59);
    assert_eq!(start.whole_secs_until(&Timestamp { secs: 99, nanos: 999 }), 0);
    assert_eq!(start.whole_secs_until(&Timestamp { secs: 100, nanos: 499 }), 0);
    assert!(start.is_at_or_after(&start));
    assert!(Timestamp { secs: 100, nanos: 501 }.is_at_or_after(&start));
    assert!(!Timestamp { secs: 100, nanos: 499 }.is_at_or_after(&start));
    assert!(Timestamp { secs: 101, nanos: 0 }.is_at_or_after(&start));

    assert_eq!(Timestamp { secs: 0, nanos: 0 }.to_rfc3339().unwrap(), "1970-01-01T00:00:00+00:00");
    assert_eq!(
        Timestamp { secs: 1_733_405_290, nanos: 0 }.to_rfc3339().unwrap(),
        "2024-12-05T13:28:10+00:00"
    );
    assert_eq!(
        Timestamp { secs: 1_733_405_290, nanos: 123_000_000 }.to_rfc3339().unwrap(),
        "2024-12-05T13:28:10.123+00:00"
    );
    assert_eq!(Timestamp { secs: u64::MAX, nanos: 0 }.to_rfc3339(), None);
    assert_eq!(Timestamp { secs: i64::MAX as u64, nanos: 0 }.to_rfc3339(), None);
}

fn chars(parts: Vec<Vec<char>>) -> Vec<String> {
    parts.into_iter().map(|part| part.into_iter().collect()).collect()
}

#[test]
fn components_of_paths() {
    assert_eq!(chars(split_components("/tmp/ssh-a/agent.1")), vec!["tmp", "ssh-a", "agent.1"]);
    assert_eq!(chars(split_components("//tmp/./a//b/")), vec!["tmp", "a", "b"]);
    assert_eq!(chars(split_components("a/../b")), vec!["a", "..", "b"]);
    assert_eq!(chars(split_components("./a")), vec!["a"]);
    assert!(split_components("").is_empty());
    assert!(split_components("/").is_empty());
    assert!(split_components("/./.").is_empty());
    assert_eq!(chars(split_components("...")), vec!["..."]);
    assert_eq!(chars(split_components(".a/b.")), vec![".a", "b."]);

    assert_eq!(file_name_of("/tmp/x"), Some("x".to_string()));
    assert_eq!(file_name_of("/tmp/x/"), Some("x".to_string()));
    assert_eq!(file_name_of("/tmp/x/.."), None);
    assert_eq!(file_name_of("/"), None);
    assert_eq!(file_name_of(""), None);
    assert_eq!(parent_name_of("/tmp/x"), Some("tmp".to_string()));
    assert_eq!(parent_name_of("/tmp"), None);
    assert_eq!(parent_name_of("/tmp/../x"), None);
    assert_eq!(parent_name_of("a/b/c"), Some("b".to_string()));

    assert!(path_is_under("/tmp", "tmp"));
    assert!(path_is_under("/tmp/a/b", "tmp"));
    assert!(!path_is_under("tmp/a", "tmp"));
    assert!(!path_is_under("/var/tmp", "tmp"));
    assert!(path_is_directly_under("/tmp/a", "tmp"));
    assert!(path_is_directly_under("/tmp/a/", "tmp"));
    assert!(!path_is_directly_under("/tmp", "tmp"));
    assert!(!path_is_directly_under("/tmp/a/b", "tmp"));
}

#[test]
fn text_helpers() {
    assert_eq!(decimal_string(0), "0");
    assert_eq!(decimal_string(7), "7");
    assert_eq!(decimal_string(10), "10");
    assert_eq!(decimal_string(1234567890), "1234567890");
    assert_eq!(decimal_string(u64::MAX), "18446744073709551615");
    assert!(starts_with("agent.1", "agent."));
    assert!(!starts_with("agent", "agent."));
    assert!(starts_with("x", ""));
    assert!(ends_with("a.sock", ".sock"));
    assert!(!ends_with("sock", ".sock"));
    assert!(same_text("\u{e9}", "\u{e9}"));
    assert!(!same_text("a", "ab"));
    assert_eq!(join(&vec![], ", "), "");
    assert_eq!(join(&vec!["a".to_string()], ", "), "a");
    assert_eq!(join(&vec!["a".to_string(), "b".to_string(), "".to_string()], ", "), "a, b, ");
}

#[test]
fn default_configuration_file() {
    assert_eq!(
        default_config_path(Some("/etc/xdg")),
        Some("/etc/xdg/ssh-agent-mux/ssh-agent-mux.toml".to_string())
    );
    assert_eq!(
        default_config_path(Some("/etc/xdg/")),
        Some("/etc/xdg/ssh-agent-mux/ssh-agent-mux.toml".to_string())
    );
    if let Some(path) = default_config_path(None) {
        assert!(path.ends_with("/.config/ssh-agent-mux/ssh-agent-mux.toml"));
        assert!(!path.starts_with('~'));
    }
    assert_eq!(child_path("", "x"), "x");
    assert_eq!(child_path("/", "x"), "/x");
    assert_eq!(child_path("a", "x"), "a/x");
    assert_eq!(child_path("a/", ""), "a/");
}

#[test]
fn paths_are_replaced_by_the_answers_of_the_lookups() {
    let mut with_home = config();
    with_home.listen_path = "~/.ssh/mux.sock".to_string();
    with_home.log_file = Some("~/mux.log".to_string());
    let answers = ExpandedPaths {
        listen_path: Some("/home/u/.ssh/mux.sock".to_string()),
        // The configuration names no control socket: this answer does not count
        control_socket_path: Some("/stray".to_string()),
        log_file: Some("/home/u/mux.log".to_string()),
        agent_sock_paths: vec![Some("/run/a.sock".to_string()), Some("/home/u/b".to_string())],
    };
    let expanded = with_home.clone().expand_paths_with(answers.clone()).unwrap();
    assert_eq!(expanded.listen_path, "/home/u/.ssh/mux.sock");
    assert_eq!(expanded.control_socket_path, None);
    assert_eq!(expanded.log_file, Some("/home/u/mux.log".to_string()));
    assert_eq!(expanded.agent_sock_paths, vec!["/run/a.sock".to_string(), "/home/u/b".to_string()]);
    assert_eq!(expanded.log_level, LogLevel::Warn);
    assert!(expanded.watch_for_ssh_forward);
    assert_eq!(expanded.health_check_interval, 60);
    assert_eq!(expanded.config_path, "/etc/mux.toml");

    // A missing answer for a path that the configuration has: no result
    let mut missing = answers.clone();
    missing.listen_path = None;
    assert!(with_home.clone().expand_paths_with(missing).is_none());
    let mut missing = answers.clone();
    missing.log_file = None;
    assert!(with_home.clone().expand_paths_with(missing).is_none());
    let mut missing = answers.clone();
    missing.agent_sock_paths[1] = None;
    assert!(with_home.clone().expand_paths_with(missing).is_none());
    // ... but not for a path that it lacks
    let mut missing = answers.clone();
    missing.control_socket_path = None;
    assert!(with_home.clone().expand_paths_with(missing).is_some());
    let mut named = with_home.clone();
    named.control_socket_path = Some("~/mux.ctl".to_string());
    let mut missing = answers.clone();
    missing.control_socket_path = None;
    assert!(named.clone().expand_paths_with(missing).is_none());
    assert_eq!(
        named.expand_paths_with(answers).unwrap().control_socket_path,
        Some("/stray".to_string())
    );
}
