//! The client's side of the control protocol: where the control socket is,
//! what goes over the wire, and what each reply means.
//!
//! A client sends one request as a line of JSON and reads one line back.
//! Connecting, writing and reading are the caller's; this module makes the
//! line to send and reads the line that came back.

use vstd::prelude::*;
use vstd::string::StringExecFns;
use crate::control::codec::{carries_request, request_tree, response_in};
use crate::control::json::reads_back;
use crate::control::protocol::{
    ControlRequest, ControlResponse, ControlResponseView, HealthCheckResult, KeyInfo, SocketInfo,
    StatusInfo,
};
use crate::text::{chars_of, chars_end_with, owned, string_of};

verus! {

/// How long a client waits for the daemon to take a request or to answer
/// one, unless told otherwise: in seconds.
pub const DEFAULT_TIMEOUT_SECS: u64 = 5;

/// Error type for control client operations
#[derive(Debug, Clone, PartialEq, Eq)]
pub enum ControlClientError {
    /// Failed to connect to control socket
    ConnectionFailed(String),
    /// Failed to send request
    SendFailed(String),
    /// Failed to receive response
    ReceiveFailed(String),
    /// Failed to serialize request
    SerializeFailed(String),
    /// Failed to deserialize response
    DeserializeFailed(String),
    /// Connection timed out
    Timeout,
    /// Daemon returned an error
    DaemonError(String),
}

/// The mathematical form of a [`ControlClientError`].
pub ghost enum ControlClientErrorView {
    ConnectionFailed(Seq<char>),
    SendFailed(Seq<char>),
    ReceiveFailed(Seq<char>),
    SerializeFailed(Seq<char>),
    DeserializeFailed(Seq<char>),
    Timeout,
    DaemonError(Seq<char>),
}

impl DeepView for ControlClientError {
    type V = ControlClientErrorView;

    open spec fn deep_view(&self) -> ControlClientErrorView {
        match self {
            ControlClientError::ConnectionFailed(e) => ControlClientErrorView::ConnectionFailed(e@),
            ControlClientError::SendFailed(e) => ControlClientErrorView::SendFailed(e@),
            ControlClientError::ReceiveFailed(e) => ControlClientErrorView::ReceiveFailed(e@),
            ControlClientError::SerializeFailed(e) => ControlClientErrorView::SerializeFailed(e@),
            ControlClientError::DeserializeFailed(e) => ControlClientErrorView::DeserializeFailed(
                e@,
            ),
            ControlClientError::Timeout => ControlClientErrorView::Timeout,
            ControlClientError::DaemonError(e) => ControlClientErrorView::DaemonError(e@),
        }
    }
}

impl ControlClientErrorView {
    /// The error in words.
    pub open spec fn text(self) -> Seq<char> {
        match self {
            ControlClientErrorView::ConnectionFailed(e) => "Failed to connect to control socket: "@
                + e,
            ControlClientErrorView::SendFailed(e) => "Failed to send request: "@ + e,
            ControlClientErrorView::ReceiveFailed(e) => "Failed to receive response: "@ + e,
            ControlClientErrorView::SerializeFailed(e) => "Failed to serialize request: "@ + e,
            ControlClientErrorView::DeserializeFailed(e) => "Failed to deserialize response: "@ + e,
            ControlClientErrorView::Timeout => "Connection timed out"@,
            ControlClientErrorView::DaemonError(e) => "Daemon error: "@ + e,
        }
    }
}

fn prefixed(prefix: &str, rest: &String) -> (text: String)
    ensures
        text@ == prefix@ + rest@,
{
    let mut text = owned(prefix);
    text.append(rest.as_str());
    text
}

impl ControlClientError {
    /// The error in words, such as `Daemon error: no such socket`.
    pub fn to_text(&self) -> (text: String)
        ensures
            text@ == self.deep_view().text(),
    {
        match self {
            ControlClientError::ConnectionFailed(e) => prefixed(
                "Failed to connect to control socket: ",
                e,
            ),
            ControlClientError::SendFailed(e) => prefixed("Failed to send request: ", e),
            ControlClientError::ReceiveFailed(e) => prefixed("Failed to receive response: ", e),
            ControlClientError::SerializeFailed(e) => prefixed("Failed to serialize request: ", e),
            ControlClientError::DeserializeFailed(e) => prefixed(
                "Failed to deserialize response: ",
                e,
            ),
            ControlClientError::Timeout => owned("Connection timed out"),
            ControlClientError::DaemonError(e) => prefixed("Daemon error: ", e),
        }
    }
}

/// The control socket that goes with a listening socket by default: the same
/// path with `.ctl` in place of a final `.sock`, or with `.ctl` added where
/// the path does not end in `.sock`.
pub open spec fn control_path_for(listen_path: Seq<char>) -> Seq<char> {
    if ".sock"@.is_suffix_of(listen_path) {
        listen_path.subrange(0, listen_path.len() - ".sock"@.len()) + ".ctl"@
    } else {
        listen_path + ".ctl"@
    }
}

/// Derive the default control socket path from the listen socket path
pub fn default_control_path(listen_path: &str) -> (control_path: String)
    ensures
        control_path@ == control_path_for(listen_path@),
{
    let chars = chars_of(listen_path);
    let suffix = chars_of(".sock");
    if chars_end_with(&chars, &suffix) {
        let keep: usize = chars.len() - suffix.len();
        let mut stem: Vec<char> = Vec::new();
        let mut i: usize = 0;
        while i < keep
            invariant
                i <= keep <= chars.len(),
                stem@ == chars@.subrange(0, i as int),
            decreases keep - i,
        {
            stem.push(chars[i]);
            assert(stem@ =~= chars@.subrange(0, i + 1));
            i += 1;
        }
        let mut control_path = string_of(&stem);
        control_path.append(".ctl");
        control_path
    } else {
        let mut control_path = owned(listen_path);
        control_path.append(".ctl");
        control_path
    }
}

/// The line that carries `request`: its JSON text, which reads as the
/// request, and a newline.
pub fn request_line(request: &ControlRequest) -> (outcome: Result<String, ControlClientError>)
    ensures
        match outcome {
            Ok(line) => carries_request(line@, request.deep_view()),
            Err(error) => error is SerializeFailed && !reads_back(
                request_tree(request.deep_view()),
            ),
        },
{
    match request.to_line() {
        Ok(line) => Ok(line),
        Err(error) => Err(ControlClientError::SerializeFailed(error.to_text())),
    }
}

/// Reads the response that a line carries.
pub fn read_response(line: &str) -> (outcome: Result<ControlResponse, ControlClientError>)
    ensures
        match outcome {
            Ok(response) => response_in(line@) == Some(response.deep_view()),
            Err(error) => response_in(line@) is None && error is DeserializeFailed,
        },
{
    match ControlResponse::from_json(line) {
        Ok(response) => Ok(response),
        Err(error) => Err(ControlClientError::DeserializeFailed(error.to_text())),
    }
}

/// The error for a response of a kind that does not answer `what`.
pub open spec fn unexpected(what: Seq<char>) -> ControlClientErrorView {
    ControlClientErrorView::DaemonError("Unexpected response to "@ + what)
}

fn unexpected_response(what: &str) -> (error: ControlClientError)
    ensures
        error.deep_view() == unexpected(what@),
{
    let mut text = owned("Unexpected response to ");
    text.append(what);
    ControlClientError::DaemonError(text)
}

/// Reads the reply to a ping: the daemon is alive if it answered `Pong`.
pub fn ping(response: ControlResponse) -> (outcome: Result<(), ControlClientError>)
    ensures
        match response.deep_view() {
            ControlResponseView::Pong => outcome is Ok,
            ControlResponseView::Error { error } => outcome is Err && outcome->Err_0.deep_view()
                == ControlClientErrorView::DaemonError(error),
            _ => outcome is Err && outcome->Err_0.deep_view() == unexpected("ping"@),
        },
{
    match response {
        ControlResponse::Pong => Ok(()),
        ControlResponse::Error { error } => Err(ControlClientError::DaemonError(error)),
        _ => Err(unexpected_response("ping")),
    }
}

/// Reads the reply to a request for the daemon's status.
pub fn status(response: ControlResponse) -> (outcome: Result<StatusInfo, ControlClientError>)
    ensures
        match response.deep_view() {
            ControlResponseView::Status(info) => outcome is Ok && outcome->Ok_0.deep_view() == info,
            ControlResponseView::Error { error } => outcome is Err && outcome->Err_0.deep_view()
                == ControlClientErrorView::DaemonError(error),
            _ => outcome is Err && outcome->Err_0.deep_view() == unexpected("status"@),
        },
{
    match response {
        ControlResponse::Status(info) => Ok(info),
        ControlResponse::Error { error } => Err(ControlClientError::DaemonError(error)),
        _ => Err(unexpected_response("status")),
    }
}

/// Reads the reply to a request for the list of sockets.
pub fn list_sockets(
    response: ControlResponse,
) -> (outcome: Result<Vec<SocketInfo>, ControlClientError>)
    ensures
        match response.deep_view() {
            ControlResponseView::Sockets { sockets } => outcome is Ok && outcome->Ok_0.deep_view()
                == sockets,
            ControlResponseView::Error { error } => outcome is Err && outcome->Err_0.deep_view()
                == ControlClientErrorView::DaemonError(error),
            _ => outcome is Err && outcome->Err_0.deep_view() == unexpected("list_sockets"@),
        },
{
    match response {
        ControlResponse::Sockets { sockets } => Ok(sockets),
        ControlResponse::Error { error } => Err(ControlClientError::DaemonError(error)),
        _ => Err(unexpected_response("list_sockets")),
    }
}

/// Reads the reply to a request for the list of keys.
pub fn list_keys(response: ControlResponse) -> (outcome: Result<Vec<KeyInfo>, ControlClientError>)
    ensures
        match response.deep_view() {
            ControlResponseView::Keys { keys } => outcome is Ok && outcome->Ok_0.deep_view()
                == keys,
            ControlResponseView::Error { error } => outcome is Err && outcome->Err_0.deep_view()
                == ControlClientErrorView::DaemonError(error),
            _ => outcome is Err && outcome->Err_0.deep_view() == unexpected("list_keys"@),
        },
{
    match response {
        ControlResponse::Keys { keys } => Ok(keys),
        ControlResponse::Error { error } => Err(ControlClientError::DaemonError(error)),
        _ => Err(unexpected_response("list_keys")),
    }
}

/// Reads the reply to a health check.
pub fn health_check(
    response: ControlResponse,
) -> (outcome: Result<HealthCheckResult, ControlClientError>)
    ensures
        match response.deep_view() {
            ControlResponseView::HealthCheck(result) => outcome is Ok && outcome->Ok_0.deep_view()
                == result,
            ControlResponseView::Error { error } => outcome is Err && outcome->Err_0.deep_view()
                == ControlClientErrorView::DaemonError(error),
            _ => outcome is Err && outcome->Err_0.deep_view() == unexpected("health_check"@),
        },
{
    match response {
        ControlResponse::HealthCheck(result) => Ok(result),
        ControlResponse::Error { error } => Err(ControlClientError::DaemonError(error)),
        _ => Err(unexpected_response("health_check")),
    }
}

/// What a reply means to a request that is answered with a message: the
/// message of a success, or `fallback` where the success came without one;
/// the daemon's error; or an error for a reply of another kind, which names
/// the request as `what`.
pub open spec fn message_outcome(
    response: ControlResponseView,
    fallback: Seq<char>,
    what: Seq<char>,
) -> Result<Seq<char>, ControlClientErrorView> {
    match response {
        ControlResponseView::Success { message: Some(message) } => Ok(message),
        ControlResponseView::Success { message: None } => Ok(fallback),
        ControlResponseView::Error { error } => Err(ControlClientErrorView::DaemonError(error)),
        _ => Err(unexpected(what)),
    }
}

fn message_of(
    response: ControlResponse,
    fallback: &str,
    what: &str,
) -> (outcome: Result<String, ControlClientError>)
    ensures
        match message_outcome(response.deep_view(), fallback@, what@) {
            Ok(message) => outcome is Ok && outcome->Ok_0@ == message,
            Err(error) => outcome is Err && outcome->Err_0.deep_view() == error,
        },
{
    match response {
        ControlResponse::Success { message } => match message {
            Some(message) => Ok(message),
            None => Ok(owned(fallback)),
        },
        ControlResponse::Error { error } => Err(ControlClientError::DaemonError(error)),
        _ => Err(unexpected_response(what)),
    }
}

/// Reads the reply to a reload (re-scan for forwarded agents).
pub fn reload(response: ControlResponse) -> (outcome: Result<String, ControlClientError>)
    ensures
        match message_outcome(response.deep_view(), "Reload complete"@, "reload"@) {
            Ok(message) => outcome is Ok && outcome->Ok_0@ == message,
            Err(error) => outcome is Err && outcome->Err_0.deep_view() == error,
        },
{
    message_of(response, "Reload complete", "reload")
}

/// Reads the reply to a validation of the sockets.
pub fn validate(response: ControlResponse) -> (outcome: Result<String, ControlClientError>)
    ensures
        match message_outcome(response.deep_view(), "Validation complete"@, "validate"@) {
            Ok(message) => outcome is Ok && outcome->Ok_0@ == message,
            Err(error) => outcome is Err && outcome->Err_0.deep_view() == error,
        },
{
    message_of(response, "Validation complete", "validate")
}

/// Reads the reply to a request to add a socket to the watched list.
pub fn add_socket(response: ControlResponse) -> (outcome: Result<String, ControlClientError>)
    ensures
        match message_outcome(response.deep_view(), "Socket added"@, "add_socket"@) {
            Ok(message) => outcome is Ok && outcome->Ok_0@ == message,
            Err(error) => outcome is Err && outcome->Err_0.deep_view() == error,
        },
{
    message_of(response, "Socket added", "add_socket")
}

/// Reads the reply to a request to remove a socket from the watched list.
pub fn remove_socket(response: ControlResponse) -> (outcome: Result<String, ControlClientError>)
    ensures
        match message_outcome(response.deep_view(), "Socket removed"@, "remove_socket"@) {
            Ok(message) => outcome is Ok && outcome->Ok_0@ == message,
            Err(error) => outcome is Err && outcome->Err_0.deep_view() == error,
        },
{
    message_of(response, "Socket removed", "remove_socket")
}

} // verus!
