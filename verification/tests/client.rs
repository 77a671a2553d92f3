use ssh_agent_mux::control::client::{
    add_socket, health_check, list_keys, list_sockets, ping, read_response, reload, remove_socket,
    request_line, status, validate,
};
use ssh_agent_mux::control::{
    default_control_path, ControlClientError, ControlRequest, ControlResponse, HealthCheckResult,
};

#[test]
fn test_default_control_path() {
    assert_eq!(
        default_control_path("/home/user/.ssh/ssh-agent-mux.sock"),
        "/home/user/.ssh/ssh-agent-mux.ctl"
    );

    assert_eq!(default_control_path("/tmp/agent.sock"), "/tmp/agent.ctl");

    assert_eq!(default_control_path("/tmp/agent"), "/tmp/agent.ctl");
}

#[test]
fn default_control_path_by_suffix() {
    assert_eq!(default_control_path("listen.sock"), "listen.ctl");
    assert_eq!(default_control_path("listen"), "listen.ctl");
    assert_eq!(default_control_path("foo.bar"), "foo.bar.ctl");
    assert_eq!(default_control_path(".sock"), ".ctl");
    assert_eq!(default_control_path(""), ".ctl");
    assert_eq!(default_control_path("a.sock.sock"), "a.sock.ctl");
    assert_eq!(default_control_path("a.sock/"), "a.sock/.ctl");
    assert_eq!(default_control_path("a.SOCK"), "a.SOCK.ctl");
    assert_eq!(default_control_path("sock"), "sock.ctl");
    assert_eq!(default_control_path("/tmp/\u{e9}.sock"), "/tmp/\u{e9}.ctl");
}

#[test]
fn test_error_display() {
    let err = ControlClientError::DaemonError("test error".to_string());
    assert_eq!(err.to_text(), "Daemon error: test error");

    let err = ControlClientError::Timeout;
    assert_eq!(err.to_text(), "Connection timed out");
}

#[test]
fn every_error_in_words() {
    let e = "x".to_string();
    assert_eq!(
        ControlClientError::ConnectionFailed(e.clone()).to_text(),
        "Failed to connect to control socket: x"
    );
    assert_eq!(ControlClientError::SendFailed(e.clone()).to_text(), "Failed to send request: x");
    assert_eq!(
        ControlClientError::ReceiveFailed(e.clone()).to_text(),
        "Failed to receive response: x"
    );
    assert_eq!(
        ControlClientError::SerializeFailed(e.clone()).to_text(),
        "Failed to serialize request: x"
    );
    assert_eq!(
        ControlClientError::DeserializeFailed(e).to_text(),
        "Failed to deserialize response: x"
    );
}

#[test]
fn request_lines_end_in_a_newline() {
    assert_eq!(request_line(&ControlRequest::Ping).unwrap(), "{\"type\":\"Ping\"}\n");
    assert_eq!(
        request_line(&ControlRequest::RemoveSocket { path: "/a b".to_string() }).unwrap(),
        "{\"type\":\"RemoveSocket\",\"data\":{\"path\":\"/a b\"}}\n"
    );
}

#[test]
fn response_lines_are_read() {
    assert_eq!(read_response("{\"type\":\"Pong\"}\n"), Ok(ControlResponse::Pong));
    assert!(matches!(read_response(""), Err(ControlClientError::DeserializeFailed(_))));
    assert!(matches!(
        read_response("{\"type\":\"Nope\"}"),
        Err(ControlClientError::DeserializeFailed(_))
    ));
}

fn daemon_error() -> ControlResponse {
    ControlResponse::Error { error: "boom".to_string() }
}

fn boom<T>() -> Result<T, ControlClientError> {
    Err(ControlClientError::DaemonError("boom".to_string()))
}

fn unexpected<T>(what: &str) -> Result<T, ControlClientError> {
    Err(ControlClientError::DaemonError(format!("Unexpected response to {}", what)))
}

#[test]
fn replies_are_read_by_kind() {
    assert_eq!(ping(ControlResponse::Pong), Ok(()));
    assert_eq!(ping(daemon_error()), boom());
    assert_eq!(ping(ControlResponse::Success { message: None }), unexpected("ping"));

    assert_eq!(status(daemon_error()), boom());
    assert_eq!(status(ControlResponse::Pong), unexpected("status"));

    assert_eq!(list_sockets(ControlResponse::Sockets { sockets: vec![] }), Ok(vec![]));
    assert_eq!(list_sockets(daemon_error()), boom());
    assert_eq!(list_sockets(ControlResponse::Pong), unexpected("list_sockets"));

    assert_eq!(list_keys(ControlResponse::Keys { keys: vec![] }), Ok(vec![]));
    assert_eq!(list_keys(daemon_error()), boom());
    assert_eq!(list_keys(ControlResponse::Pong), unexpected("list_keys"));

    let result =
        HealthCheckResult { sockets: vec![], healthy_count: 0, unhealthy_count: 0, removed: vec![] };
    assert_eq!(health_check(ControlResponse::HealthCheck(result.clone())), Ok(result));
    assert_eq!(health_check(daemon_error()), boom());
    assert_eq!(health_check(ControlResponse::Pong), unexpected("health_check"));
}

#[test]
fn replies_with_a_message() {
    let said = ControlResponse::Success { message: Some("done it".to_string()) };
    let silent = ControlResponse::Success { message: None };
    assert_eq!(reload(said.clone()), Ok("done it".to_string()));
    assert_eq!(reload(silent.clone()), Ok("Reload complete".to_string()));
    assert_eq!(reload(daemon_error()), boom());
    assert_eq!(reload(ControlResponse::Pong), unexpected("reload"));

    assert_eq!(validate(said.clone()), Ok("done it".to_string()));
    assert_eq!(validate(silent.clone()), Ok("Validation complete".to_string()));
    assert_eq!(validate(ControlResponse::Pong), unexpected("validate"));

    assert_eq!(add_socket(said.clone()), Ok("done it".to_string()));
    assert_eq!(add_socket(silent.clone()), Ok("Socket added".to_string()));
    assert_eq!(add_socket(ControlResponse::Pong), unexpected("add_socket"));

    assert_eq!(remove_socket(said), Ok("done it".to_string()));
    assert_eq!(remove_socket(silent), Ok("Socket removed".to_string()));
    assert_eq!(remove_socket(daemon_error()), boom());
    assert_eq!(remove_socket(ControlResponse::Pong), unexpected("remove_socket"));
}
