//! The JSON form of the control protocol.
//!
//! Requests and responses are objects with the kind of message under `type`
//! and its arguments, if any, under `data`.  A watcher status is an object
//! with the status under `status` and the reason for a fallback under
//! `reason`.  The other enumerations are plain strings, and an optional value
//! that is absent is written as null.
//!
//! For every type there is a function that gives the document of a value
//! and one that reads a value back from a document; reading back what was
//! written gives the value again.

use vstd::prelude::*;
use vstd::string::StringExecFns;
use crate::control::json::{
    bool_member, find_member, get_bool, get_number, get_optional_number, get_optional_text,
    get_text, items_of, json_document, json_text, lemma_array_view, lemma_member_at,
    lemma_member_missing, lemma_object_view, member, members_of, number_member,
    optional_number_member, optional_text, optional_text_member, put, read_document, reads_back,
    text_member,
    view_of, write_checked, Json, JsonView, WireError,
};
use crate::control::protocol::{
    ControlRequest, ControlRequestView, ControlResponse, ControlResponseView, HealthCheckResult,
    HealthCheckResultView, KeyInfo, KeyInfoView, SocketHealthInfo, SocketHealthInfoView,
    SocketHealthStatus, SocketInfo, SocketInfoView, SocketSource, StatusInfo, StatusInfoView,
    WatcherStatus, WatcherStatusView,
};
use crate::text::{owned, same_text};

verus! {

/// The name of the kind of a request, as written under `type`.
pub open spec fn request_name(request: ControlRequestView) -> Seq<char> {
    match request {
        ControlRequestView::Status => "Status"@,
        ControlRequestView::ListSockets => "ListSockets"@,
        ControlRequestView::ListKeys => "ListKeys"@,
        ControlRequestView::Reload => "Reload"@,
        ControlRequestView::ValidateSockets => "ValidateSockets"@,
        ControlRequestView::RemoveSocket { .. } => "RemoveSocket"@,
        ControlRequestView::AddSocket { .. } => "AddSocket"@,
        ControlRequestView::HealthCheck => "HealthCheck"@,
        ControlRequestView::Ping => "Ping"@,
    }
}

/// A message of kind `name` without arguments.
pub open spec fn plain_message(name: Seq<char>) -> JsonView {
    JsonView::Object(seq![("type"@, JsonView::Text(name))])
}

/// A message of kind `name` with the arguments `data`.
pub open spec fn message_with(name: Seq<char>, data: JsonView) -> JsonView {
    JsonView::Object(seq![("type"@, JsonView::Text(name)), ("data"@, data)])
}

/// The arguments of a request that names a socket.
pub open spec fn path_data(path: Seq<char>) -> JsonView {
    JsonView::Object(seq![("path"@, JsonView::Text(path))])
}

/// The document of a request.
pub open spec fn request_tree(request: ControlRequestView) -> JsonView {
    match request {
        ControlRequestView::RemoveSocket { path } => message_with(
            "RemoveSocket"@,
            path_data(path),
        ),
        ControlRequestView::AddSocket { path } => message_with("AddSocket"@, path_data(path)),
        _ => plain_message(request_name(request)),
    }
}

/// The path that the arguments of a message name.
pub open spec fn path_argument(members: Seq<(Seq<char>, JsonView)>) -> Option<Seq<char>> {
    match member(members, "data"@) {
        Some(JsonView::Object(data)) => text_member(data, "path"@),
        _ => None,
    }
}

/// The request that a document stands for, if it stands for one: an object
/// whose `type` names a kind of request and, for the kinds that name a
/// socket, whose `data` is an object with the text `path`.  Other members
/// are passed over.
pub open spec fn request_of(tree: JsonView) -> Option<ControlRequestView> {
    match tree {
        JsonView::Object(members) => match text_member(members, "type"@) {
            Some(name) => if name == "Status"@ {
                Some(ControlRequestView::Status)
            } else if name == "ListSockets"@ {
                Some(ControlRequestView::ListSockets)
            } else if name == "ListKeys"@ {
                Some(ControlRequestView::ListKeys)
            } else if name == "Reload"@ {
                Some(ControlRequestView::Reload)
            } else if name == "ValidateSockets"@ {
                Some(ControlRequestView::ValidateSockets)
            } else if name == "RemoveSocket"@ {
                match path_argument(members) {
                    Some(path) => Some(ControlRequestView::RemoveSocket { path }),
                    None => None,
                }
            } else if name == "AddSocket"@ {
                match path_argument(members) {
                    Some(path) => Some(ControlRequestView::AddSocket { path }),
                    None => None,
                }
            } else if name == "HealthCheck"@ {
                Some(ControlRequestView::HealthCheck)
            } else if name == "Ping"@ {
                Some(ControlRequestView::Ping)
            } else {
                None
            },
            None => None,
        },
        _ => None,
    }
}

/// Reveals what the names of the members of a message are.
proof fn lemma_envelope_names()
    ensures
        "type"@ != "data"@,
        "type"@.len() == 4,
        "data"@.len() == 4,
        "path"@.len() == 4,
{
    reveal_strlit("type");
    reveal_strlit("data");
    reveal_strlit("path");
    assert("type"@[0] != "data"@[0]);
}

/// `member` finds the `type` and the `data` of a message.
pub proof fn lemma_message_members(name: Seq<char>, data: JsonView)
    ensures
        member(plain_message(name)->Object_0, "type"@) == Some(JsonView::Text(name)),
        member(plain_message(name)->Object_0, "data"@) is None,
        member(message_with(name, data)->Object_0, "type"@) == Some(JsonView::Text(name)),
        member(message_with(name, data)->Object_0, "data"@) == Some(data),
{
    lemma_envelope_names();
    let plain = plain_message(name)->Object_0;
    let full = message_with(name, data)->Object_0;
    lemma_member_at(plain, 0);
    lemma_member_missing(plain, "data"@);
    lemma_member_at(full, 0);
    lemma_member_at(full, 1);
}

/// The names of the kinds of request differ from one another.
proof fn lemma_request_names()
    ensures
        "Status"@ != "ListSockets"@,
        "Status"@ != "ListKeys"@,
        "Status"@ != "Reload"@,
        "Status"@ != "ValidateSockets"@,
        "Status"@ != "RemoveSocket"@,
        "Status"@ != "AddSocket"@,
        "Status"@ != "HealthCheck"@,
        "Status"@ != "Ping"@,
        "ListSockets"@ != "ListKeys"@,
        "ListSockets"@ != "Reload"@,
        "ListSockets"@ != "ValidateSockets"@,
        "ListSockets"@ != "RemoveSocket"@,
        "ListSockets"@ != "AddSocket"@,
        "ListSockets"@ != "HealthCheck"@,
        "ListSockets"@ != "Ping"@,
        "ListKeys"@ != "Reload"@,
        "ListKeys"@ != "ValidateSockets"@,
        "ListKeys"@ != "RemoveSocket"@,
        "ListKeys"@ != "AddSocket"@,
        "ListKeys"@ != "HealthCheck"@,
        "ListKeys"@ != "Ping"@,
        "Reload"@ != "ValidateSockets"@,
        "Reload"@ != "RemoveSocket"@,
        "Reload"@ != "AddSocket"@,
        "Reload"@ != "HealthCheck"@,
        "Reload"@ != "Ping"@,
        "ValidateSockets"@ != "RemoveSocket"@,
        "ValidateSockets"@ != "AddSocket"@,
        "ValidateSockets"@ != "HealthCheck"@,
        "ValidateSockets"@ != "Ping"@,
        "RemoveSocket"@ != "AddSocket"@,
        "RemoveSocket"@ != "HealthCheck"@,
        "RemoveSocket"@ != "Ping"@,
        "AddSocket"@ != "HealthCheck"@,
        "AddSocket"@ != "Ping"@,
        "HealthCheck"@ != "Ping"@,
{
    reveal_strlit("Status");
    reveal_strlit("ListSockets");
    reveal_strlit("ListKeys");
    reveal_strlit("Reload");
    reveal_strlit("ValidateSockets");
    reveal_strlit("RemoveSocket");
    reveal_strlit("AddSocket");
    reveal_strlit("HealthCheck");
    reveal_strlit("Ping");
    assert("Status"@.len() == 6);
    assert("ListSockets"@.len() == 11);
    assert("ListKeys"@.len() == 8);
    assert("Reload"@.len() == 6);
    assert("ValidateSockets"@.len() == 15);
    assert("RemoveSocket"@.len() == 12);
    assert("AddSocket"@.len() == 9);
    assert("HealthCheck"@.len() == 11);
    assert("Ping"@.len() == 4);
    assert("Status"@[0] != "Reload"@[0]);
    assert("ListSockets"@[0] != "HealthCheck"@[0]);
}

/// Reading back the document of a request gives the request.
pub proof fn lemma_request_round_trip(request: ControlRequestView)
    ensures
        request_of(request_tree(request)) == Some(request),
        request_tree(request).is_exact(),
{
    reveal_with_fuel(JsonView::is_exact, 3);
    lemma_request_names();
    lemma_envelope_names();
    match request {
        ControlRequestView::RemoveSocket { path } => {
            lemma_message_members("RemoveSocket"@, path_data(path));
            lemma_member_at(path_data(path)->Object_0, 0);
        },
        ControlRequestView::AddSocket { path } => {
            lemma_message_members("AddSocket"@, path_data(path));
            lemma_member_at(path_data(path)->Object_0, 0);
        },
        _ => {
            lemma_message_members(request_name(request), JsonView::Null);
        },
    }
}

fn plain(name: &str) -> (tree: Json)
    ensures
        tree.deep_view() == plain_message(name@),
{
    let mut members: Vec<(String, Json)> = Vec::new();
    assert(members_of(members@) =~= Seq::empty());
    put(&mut members, "type", Json::Text(owned(name)));
    proof {
        lemma_object_view(members);
        assert(members_of(members@) =~= plain_message(name@)->Object_0);
    }
    Json::Object(members)
}

fn with_data(name: &str, data: Json) -> (tree: Json)
    ensures
        tree.deep_view() == message_with(name@, data.deep_view()),
{
    let mut members: Vec<(String, Json)> = Vec::new();
    assert(members_of(members@) =~= Seq::empty());
    put(&mut members, "type", Json::Text(owned(name)));
    put(&mut members, "data", data);
    proof {
        lemma_object_view(members);
        assert(members_of(members@) =~= message_with(name@, data.deep_view())->Object_0);
    }
    Json::Object(members)
}

fn path_object(path: &String) -> (tree: Json)
    ensures
        tree.deep_view() == path_data(path@),
{
    let mut members: Vec<(String, Json)> = Vec::new();
    assert(members_of(members@) =~= Seq::empty());
    put(&mut members, "path", Json::Text(path.clone()));
    proof {
        lemma_object_view(members);
        assert(members_of(members@) =~= path_data(path@)->Object_0);
    }
    Json::Object(members)
}

/// The document of a request.
pub fn encode_request(request: &ControlRequest) -> (tree: Json)
    ensures
        tree.deep_view() == request_tree(request.deep_view()),
        tree.deep_view().is_exact(),
{
    proof {
        lemma_request_round_trip(request.deep_view());
    }
    match request {
        ControlRequest::Status => plain("Status"),
        ControlRequest::ListSockets => plain("ListSockets"),
        ControlRequest::ListKeys => plain("ListKeys"),
        ControlRequest::Reload => plain("Reload"),
        ControlRequest::ValidateSockets => plain("ValidateSockets"),
        ControlRequest::RemoveSocket { path } => with_data("RemoveSocket", path_object(path)),
        ControlRequest::AddSocket { path } => with_data("AddSocket", path_object(path)),
        ControlRequest::HealthCheck => plain("HealthCheck"),
        ControlRequest::Ping => plain("Ping"),
    }
}

fn get_path_argument(members: &Vec<(String, Json)>) -> (path: Option<String>)
    ensures
        path.deep_view() == path_argument(members_of(members@)),
{
    proof {
        lemma_object_view(*members);
    }
    match find_member(members, "data") {
        Some(Json::Object(data)) => {
            proof {
                lemma_object_view(*data);
            }
            get_text(data, "path")
        },
        _ => None,
    }
}

/// The request that a document stands for, if it stands for one.
pub fn decode_request(tree: &Json) -> (request: Option<ControlRequest>)
    ensures
        request.deep_view() == request_of(tree.deep_view()),
{
    let members = match tree {
        Json::Object(members) => members,
        _ => {
            return None;
        },
    };
    proof {
        lemma_object_view(*members);
    }
    let name = match get_text(members, "type") {
        Some(name) => name,
        None => {
            return None;
        },
    };
    let name = name.as_str();
    if same_text(name, "Status") {
        Some(ControlRequest::Status)
    } else if same_text(name, "ListSockets") {
        Some(ControlRequest::ListSockets)
    } else if same_text(name, "ListKeys") {
        Some(ControlRequest::ListKeys)
    } else if same_text(name, "Reload") {
        Some(ControlRequest::Reload)
    } else if same_text(name, "ValidateSockets") {
        Some(ControlRequest::ValidateSockets)
    } else if same_text(name, "RemoveSocket") {
        match get_path_argument(members) {
            Some(path) => Some(ControlRequest::RemoveSocket { path }),
            None => None,
        }
    } else if same_text(name, "AddSocket") {
        match get_path_argument(members) {
            Some(path) => Some(ControlRequest::AddSocket { path }),
            None => None,
        }
    } else if same_text(name, "HealthCheck") {
        Some(ControlRequest::HealthCheck)
    } else if same_text(name, "Ping") {
        Some(ControlRequest::Ping)
    } else {
        None
    }
}

/// The document of a text that may be absent.
pub open spec fn optional_text_tree(text: Option<Seq<char>>) -> JsonView {
    match text {
        Some(text) => JsonView::Text(text),
        None => JsonView::Null,
    }
}

/// The document of a count that may be absent.
pub open spec fn optional_usize_tree(number: Option<usize>) -> JsonView {
    match number {
        Some(n) => JsonView::Number(n as u64),
        None => JsonView::Null,
    }
}

/// The document of a 32-bit number that may be absent.
pub open spec fn optional_u32_tree(number: Option<u32>) -> JsonView {
    match number {
        Some(n) => JsonView::Number(n as u64),
        None => JsonView::Null,
    }
}

/// A number that may be absent, as a count.
pub open spec fn narrowed_usize(number: Option<u64>) -> Option<usize> {
    match number {
        Some(n) => Some(n as usize),
        None => None,
    }
}

/// A number that may be absent, as a 32-bit number.
pub open spec fn narrowed_u32(number: Option<u64>) -> Option<u32> {
    match number {
        Some(n) => Some(n as u32),
        None => None,
    }
}

/// What `read` makes of the member `name`, if the member is there.
pub open spec fn decoded_member<T>(
    members: Seq<(Seq<char>, JsonView)>,
    name: Seq<char>,
    read: spec_fn(JsonView) -> Option<T>,
) -> Option<T> {
    match member(members, name) {
        Some(tree) => read(tree),
        None => None,
    }
}

fn optional_usize(number: Option<usize>) -> (tree: Json)
    ensures
        tree.deep_view() == optional_usize_tree(number),
{
    match number {
        Some(n) => Json::Number(n as u64),
        None => Json::Null,
    }
}

fn optional_u32(number: Option<u32>) -> (tree: Json)
    ensures
        tree.deep_view() == optional_u32_tree(number),
{
    match number {
        Some(n) => Json::Number(n as u64),
        None => Json::Null,
    }
}

fn narrow_usize(number: Option<u64>) -> (count: Option<usize>)
    requires
        number is Some ==> number->0 <= usize::MAX,
    ensures
        count == narrowed_usize(number),
{
    match number {
        Some(n) => Some(n as usize),
        None => None,
    }
}

fn narrow_u32(number: Option<u64>) -> (narrow: Option<u32>)
    requires
        number is Some ==> number->0 <= u32::MAX,
    ensures
        narrow == narrowed_u32(number),
{
    match number {
        Some(n) => Some(n as u32),
        None => None,
    }
}

/// The document of a text.
pub open spec fn text_tree(text: Seq<char>) -> JsonView {
    JsonView::Text(text)
}

/// The text that a document is, if it is one.
pub open spec fn text_of(tree: JsonView) -> Option<Seq<char>> {
    match tree {
        JsonView::Text(text) => Some(text),
        _ => None,
    }
}

/// Reading back the document of a text gives the text.
pub proof fn lemma_text_round_trip(text: Seq<char>)
    ensures
        text_of(text_tree(text)) == Some(text),
        text_tree(text).is_exact(),
{
}

fn encode_text(text: &String) -> (tree: Json)
    ensures
        tree.deep_view() == text_tree(text@),
        tree.deep_view().is_exact(),
{
    Json::Text(text.clone())
}

fn decode_text(tree: &Json) -> (text: Option<String>)
    ensures
        text.deep_view() == text_of(tree.deep_view()),
{
    match tree {
        Json::Text(text) => Some(text.clone()),
        _ => None,
    }
}

/// The document of the source of a socket: its word in lower case.
pub open spec fn source_tree(source: SocketSource) -> JsonView {
    JsonView::Text(source.text())
}

/// The source that a document names, if it names one.
pub open spec fn source_of(tree: JsonView) -> Option<SocketSource> {
    match tree {
        JsonView::Text(word) => if word == "configured"@ {
            Some(SocketSource::Configured)
        } else if word == "watched"@ {
            Some(SocketSource::Watched)
        } else {
            None
        },
        _ => None,
    }
}

/// The words for the sources differ.
proof fn lemma_source_names()
    ensures
        "configured"@ != "watched"@,
{
    reveal_strlit("configured");
    reveal_strlit("watched");
    assert("configured"@.len() == 10);
    assert("watched"@.len() == 7);
}

/// Reading back the document of a source gives the source.
pub proof fn lemma_source_round_trip(source: SocketSource)
    ensures
        source_of(source_tree(source)) == Some(source),
        source_tree(source).is_exact(),
{
    lemma_source_names();
}

/// The document of the source of a socket.
pub fn encode_source(source: &SocketSource) -> (tree: Json)
    ensures
        tree.deep_view() == source_tree(*source),
        tree.deep_view().is_exact(),
{
    Json::Text(source.to_text())
}

/// The source that a document names.
pub fn decode_source(tree: &Json) -> (source: Option<SocketSource>)
    ensures
        source == source_of(tree.deep_view()),
{
    match tree {
        Json::Text(word) => if same_text(word.as_str(), "configured") {
            Some(SocketSource::Configured)
        } else if same_text(word.as_str(), "watched") {
            Some(SocketSource::Watched)
        } else {
            None
        },
        _ => None,
    }
}

/// The document of a health status: its name in snake case.
pub open spec fn health_status_tree(status: SocketHealthStatus) -> JsonView {
    JsonView::Text(status.wire_name())
}

/// The health status that a document names, if it names one.
pub open spec fn health_status_of(tree: JsonView) -> Option<SocketHealthStatus> {
    match tree {
        JsonView::Text(word) => if word == "healthy"@ {
            Some(SocketHealthStatus::Healthy)
        } else if word == "missing"@ {
            Some(SocketHealthStatus::Missing)
        } else if word == "connection_failed"@ {
            Some(SocketHealthStatus::ConnectionFailed)
        } else if word == "protocol_error"@ {
            Some(SocketHealthStatus::ProtocolError)
        } else if word == "query_failed"@ {
            Some(SocketHealthStatus::QueryFailed)
        } else {
            None
        },
        _ => None,
    }
}

/// The names of the health statuses differ from one another.
proof fn lemma_health_status_names()
    ensures
        "healthy"@ != "missing"@,
        "healthy"@ != "connection_failed"@,
        "healthy"@ != "protocol_error"@,
        "healthy"@ != "query_failed"@,
        "missing"@ != "connection_failed"@,
        "missing"@ != "protocol_error"@,
        "missing"@ != "query_failed"@,
        "connection_failed"@ != "protocol_error"@,
        "connection_failed"@ != "query_failed"@,
        "protocol_error"@ != "query_failed"@,
{
    reveal_strlit("healthy");
    reveal_strlit("missing");
    reveal_strlit("connection_failed");
    reveal_strlit("protocol_error");
    reveal_strlit("query_failed");
    assert("healthy"@.len() == 7);
    assert("missing"@.len() == 7);
    assert("connection_failed"@.len() == 17);
    assert("protocol_error"@.len() == 14);
    assert("query_failed"@.len() == 12);
    assert("healthy"@[0] != "missing"@[0]);
}

/// Reading back the document of a health status gives the status.
pub proof fn lemma_health_status_round_trip(status: SocketHealthStatus)
    ensures
        health_status_of(health_status_tree(status)) == Some(status),
        health_status_tree(status).is_exact(),
{
    lemma_health_status_names();
}

/// The document of a health status.
pub fn encode_health_status(status: &SocketHealthStatus) -> (tree: Json)
    ensures
        tree.deep_view() == health_status_tree(*status),
        tree.deep_view().is_exact(),
{
    Json::Text(status.to_wire_name())
}

/// The health status that a document names.
pub fn decode_health_status(tree: &Json) -> (status: Option<SocketHealthStatus>)
    ensures
        status == health_status_of(tree.deep_view()),
{
    match tree {
        Json::Text(word) => {
            let word = word.as_str();
            if same_text(word, "healthy") {
                Some(SocketHealthStatus::Healthy)
            } else if same_text(word, "missing") {
                Some(SocketHealthStatus::Missing)
            } else if same_text(word, "connection_failed") {
                Some(SocketHealthStatus::ConnectionFailed)
            } else if same_text(word, "protocol_error") {
                Some(SocketHealthStatus::ProtocolError)
            } else if same_text(word, "query_failed") {
                Some(SocketHealthStatus::QueryFailed)
            } else {
                None
            }
        },
        _ => None,
    }
}

/// The document of a watcher status: an object with the status under
/// `status` and, for a fallback to polling, the reason under `reason`.
pub open spec fn watcher_status_tree(status: WatcherStatusView) -> JsonView {
    match status {
        WatcherStatusView::Active => JsonView::Object(
            seq![("status"@, JsonView::Text("Active"@))],
        ),
        WatcherStatusView::PollingFallback(reason) => JsonView::Object(
            seq![
                ("status"@, JsonView::Text("PollingFallback"@)),
                ("reason"@, JsonView::Text(reason)),
            ],
        ),
        WatcherStatusView::Disabled => JsonView::Object(
            seq![("status"@, JsonView::Text("Disabled"@))],
        ),
    }
}

/// The watcher status that a document stands for, if it stands for one.
pub open spec fn watcher_status_of(tree: JsonView) -> Option<WatcherStatusView> {
    match tree {
        JsonView::Object(members) => match text_member(members, "status"@) {
            Some(name) => if name == "Active"@ {
                Some(WatcherStatusView::Active)
            } else if name == "PollingFallback"@ {
                match text_member(members, "reason"@) {
                    Some(reason) => Some(WatcherStatusView::PollingFallback(reason)),
                    None => None,
                }
            } else if name == "Disabled"@ {
                Some(WatcherStatusView::Disabled)
            } else {
                None
            },
            None => None,
        },
        _ => None,
    }
}

/// The names of the watcher statuses differ from one another.
proof fn lemma_watcher_status_names()
    ensures
        "Active"@ != "PollingFallback"@,
        "Active"@ != "Disabled"@,
        "PollingFallback"@ != "Disabled"@,
{
    reveal_strlit("Active");
    reveal_strlit("PollingFallback");
    reveal_strlit("Disabled");
    assert("Active"@.len() == 6);
    assert("PollingFallback"@.len() == 15);
    assert("Disabled"@.len() == 8);
}

/// The names of the members of a watcher status differ.
proof fn lemma_watcher_member_names()
    ensures
        "status"@ != "reason"@,
{
    reveal_strlit("status");
    reveal_strlit("reason");
    assert("status"@.len() == 6);
    assert("reason"@.len() == 6);
    assert("status"@[0] != "reason"@[0]);
}

/// Reading back the document of a watcher status gives the status.
pub proof fn lemma_watcher_status_round_trip(status: WatcherStatusView)
    ensures
        watcher_status_of(watcher_status_tree(status)) == Some(status),
        watcher_status_tree(status).is_exact(),
{
    lemma_watcher_status_names();
    lemma_watcher_member_names();
    let m = watcher_status_tree(status)->Object_0;
    lemma_member_at(m, 0);
    assert(m[0].1.is_exact());
    match status {
        WatcherStatusView::PollingFallback(reason) => {
            lemma_member_at(m, 1);
            assert(m[1].1.is_exact());
        },
        _ => {},
    }
    assert forall|i: int| 0 <= i < m.len() implies (#[trigger] m[i]).1.is_exact() by {
        if i == 0 {
        }
    }
}

/// The document of a watcher status.
pub fn encode_watcher_status(status: &WatcherStatus) -> (tree: Json)
    ensures
        tree.deep_view() == watcher_status_tree(status.deep_view()),
        tree.deep_view().is_exact(),
{
    let mut members: Vec<(String, Json)> = Vec::new();
    assert(members_of(members@) =~= Seq::empty());
    match status {
        WatcherStatus::Active => {
            put(&mut members, "status", Json::Text(owned("Active")));
        },
        WatcherStatus::PollingFallback(reason) => {
            put(&mut members, "status", Json::Text(owned("PollingFallback")));
            put(&mut members, "reason", Json::Text(reason.clone()));
        },
        WatcherStatus::Disabled => {
            put(&mut members, "status", Json::Text(owned("Disabled")));
        },
    }
    proof {
        lemma_object_view(members);
        assert(members_of(members@) =~= watcher_status_tree(status.deep_view())->Object_0);
        lemma_watcher_status_round_trip(status.deep_view());
    }
    Json::Object(members)
}

/// The watcher status that a document stands for.
pub fn decode_watcher_status(tree: &Json) -> (status: Option<WatcherStatus>)
    ensures
        status.deep_view() == watcher_status_of(tree.deep_view()),
{
    let members = match tree {
        Json::Object(members) => members,
        _ => {
            return None;
        },
    };
    proof {
        lemma_object_view(*members);
    }
    let name = match get_text(members, "status") {
        Some(name) => name,
        None => {
            return None;
        },
    };
    if same_text(name.as_str(), "Active") {
        Some(WatcherStatus::Active)
    } else if same_text(name.as_str(), "PollingFallback") {
        match get_text(members, "reason") {
            Some(reason) => Some(WatcherStatus::PollingFallback(reason)),
            None => None,
        }
    } else if same_text(name.as_str(), "Disabled") {
        Some(WatcherStatus::Disabled)
    } else {
        None
    }
}


/// The documents of texts, in order.
pub open spec fn texts_trees(values: Seq<Seq<char>>) -> Seq<JsonView> {
    Seq::new(values.len(), |i: int| text_tree(values[i]))
}

/// What a list of documents says of texts, if every document of the
/// list fits.
pub open spec fn texts_of(trees: Seq<JsonView>) -> Option<Seq<Seq<char>>>
    decreases trees.len(),
{
    if trees.len() == 0 {
        Some(Seq::empty())
    } else {
        match (texts_of(trees.drop_last()), text_of(trees.last())) {
            (Some(before), Some(last)) => Some(before.push(last)),
            _ => None,
        }
    }
}

/// The document of an array of texts.
pub open spec fn texts_tree(values: Seq<Seq<char>>) -> JsonView {
    JsonView::Array(texts_trees(values))
}

/// What a document says of an array of texts.
pub open spec fn texts_in(tree: JsonView) -> Option<Seq<Seq<char>>> {
    match tree {
        JsonView::Array(trees) => texts_of(trees),
        _ => None,
    }
}

/// Reading back the documents of texts gives the same again.
pub proof fn lemma_texts_round_trip(values: Seq<Seq<char>>)
    ensures
        texts_in(texts_tree(values)) == Some(values),
        texts_tree(values).is_exact(),
    decreases values.len(),
{
    let trees = texts_trees(values);
    if values.len() > 0 {
        lemma_texts_round_trip(values.drop_last());
        assert(trees.drop_last() =~= texts_trees(values.drop_last()));
        lemma_text_round_trip(values.last());
        assert(values.drop_last().push(values.last()) =~= values);
    }
    assert forall|i: int| 0 <= i < trees.len() implies (#[trigger] trees[i]).is_exact() by {
        lemma_text_round_trip(values[i]);
    }
}

/// The document of an array of texts.
pub fn encode_texts(values: &Vec<String>) -> (tree: Json)
    ensures
        tree.deep_view() == texts_tree(values.deep_view()),
        tree.deep_view().is_exact(),
{
    let mut trees: Vec<Json> = Vec::new();
    let mut i: usize = 0;
    while i < values.len()
        invariant
            i <= values.len(),
            items_of(trees@) =~= texts_trees(values.deep_view()).take(i as int),
        decreases values.len() - i,
    {
        let ghost before = items_of(trees@);
        trees.push(encode_text(&values[i]));
        assert(items_of(trees@) =~= before.push(text_tree(values.deep_view()[i as int])));
        i += 1;
    }
    proof {
        lemma_array_view(trees);
        assert(texts_trees(values.deep_view()).take(values.len() as int)
            =~= texts_trees(values.deep_view()));
        lemma_texts_round_trip(values.deep_view());
    }
    Json::Array(trees)
}

/// What a document says of an array of texts.
pub fn decode_texts(tree: &Json) -> (values: Option<Vec<String>>)
    ensures
        values.deep_view() == texts_in(tree.deep_view()),
{
    let trees = match tree {
        Json::Array(trees) => trees,
        _ => {
            return None;
        },
    };
    proof {
        lemma_array_view(*trees);
    }
    let mut values: Vec<String> = Vec::new();
    let mut i: usize = 0;
    assert(values.deep_view() =~= Seq::empty());
    while i < trees.len()
        invariant
            i <= trees.len(),
            tree.deep_view() == JsonView::Array(items_of(trees@)),
            texts_of(items_of(trees@).take(i as int)) == Some(values.deep_view()),
        decreases trees.len() - i,
    {
        assert(items_of(trees@).take(i + 1).drop_last() =~= items_of(trees@).take(i as int));
        assert(items_of(trees@).take(i + 1).last() == view_of(trees@[i as int]));
        match decode_text(&trees[i]) {
            Some(value) => {
                let ghost before = values.deep_view();
                values.push(value);
                assert(values.deep_view() =~= before.push(value.deep_view()));
            },
            None => {
                proof {
                    assert(texts_of(items_of(trees@).take(i + 1)) is None);
                    lemma_texts_of_prefix(items_of(trees@), i + 1);
                }
                return None;
            },
        }
        i += 1;
    }
    assert(items_of(trees@).take(trees.len() as int) =~= items_of(trees@));
    Some(values)
}

/// Where a beginning of a list of documents does not fit, the list does not.
proof fn lemma_texts_of_prefix(trees: Seq<JsonView>, n: int)
    requires
        0 <= n <= trees.len(),
        texts_of(trees.take(n)) is None,
    ensures
        texts_of(trees) is None,
    decreases trees.len() - n,
{
    if n < trees.len() {
        assert(trees.take(n + 1).drop_last() =~= trees.take(n));
        lemma_texts_of_prefix(trees, n + 1);
    } else {
        assert(trees.take(n) =~= trees);
    }
}


/// The document of a socket.
pub open spec fn socket_info_tree(value: SocketInfoView) -> JsonView {
    JsonView::Object(
        seq![
            ("path"@, JsonView::Text(value.path)),
            ("source"@, source_tree(value.source)),
            ("added_at"@, optional_text_tree(value.added_at)),
            ("healthy"@, JsonView::Bool(value.healthy)),
            ("last_health_check"@, optional_text_tree(value.last_health_check)),
            ("key_count"@, optional_usize_tree(value.key_count)),
            ("order"@, JsonView::Number(value.order as u64)),
        ],
    )
}

/// What a document says of a socket, if it is an object with a fitting
/// member for each field.  An optional field may be null or missing.
pub open spec fn socket_info_of(tree: JsonView) -> Option<SocketInfoView> {
    match tree {
        JsonView::Object(m) => {
            let path = text_member(m, "path"@);
            let source = decoded_member(m, "source"@, |t: JsonView| source_of(t));
            let added_at = optional_text_member(m, "added_at"@);
            let healthy = bool_member(m, "healthy"@);
            let last_health_check = optional_text_member(m, "last_health_check"@);
            let key_count = optional_number_member(m, "key_count"@, usize::MAX as u64);
            let order = number_member(m, "order"@, usize::MAX as u64);
            if path is Some
                && source is Some
                && added_at is Some
                && healthy is Some
                && last_health_check is Some
                && key_count is Some
                && order is Some {
                Some(
                    SocketInfoView {
                        path: path->0,
                        source: source->0,
                        added_at: added_at->0,
                        healthy: healthy->0,
                        last_health_check: last_health_check->0,
                        key_count: narrowed_usize(key_count->0),
                        order: order->0 as usize,
                    },
                )
            } else {
                None
            }
        },
        _ => None,
    }
}

/// The names of the members of a socket differ from one another.
proof fn lemma_socket_info_names()
    ensures
        "path"@ != "source"@,
        "path"@ != "added_at"@,
        "path"@ != "healthy"@,
        "path"@ != "last_health_check"@,
        "path"@ != "key_count"@,
        "path"@ != "order"@,
        "source"@ != "added_at"@,
        "source"@ != "healthy"@,
        "source"@ != "last_health_check"@,
        "source"@ != "key_count"@,
        "source"@ != "order"@,
        "added_at"@ != "healthy"@,
        "added_at"@ != "last_health_check"@,
        "added_at"@ != "key_count"@,
        "added_at"@ != "order"@,
        "healthy"@ != "last_health_check"@,
        "healthy"@ != "key_count"@,
        "healthy"@ != "order"@,
        "last_health_check"@ != "key_count"@,
        "last_health_check"@ != "order"@,
        "key_count"@ != "order"@,
{
    reveal_strlit("path");
    reveal_strlit("source");
    reveal_strlit("added_at");
    reveal_strlit("healthy");
    reveal_strlit("last_health_check");
    reveal_strlit("key_count");
    reveal_strlit("order");
    assert("path"@.len() == 4);
    assert("source"@.len() == 6);
    assert("added_at"@.len() == 8);
    assert("healthy"@.len() == 7);
    assert("last_health_check"@.len() == 17);
    assert("key_count"@.len() == 9);
    assert("order"@.len() == 5);
}

/// Reading back the document of a socket gives the same again.
pub proof fn lemma_socket_info_round_trip(value: SocketInfoView)
    ensures
        socket_info_of(socket_info_tree(value)) == Some(value),
        socket_info_tree(value).is_exact(),
{
    lemma_socket_info_names();
    let m = socket_info_tree(value)->Object_0;
    assert(m[0].0 == "path"@);
    assert(m[1].0 == "source"@);
    assert(m[2].0 == "added_at"@);
    assert(m[3].0 == "healthy"@);
    assert(m[4].0 == "last_health_check"@);
    assert(m[5].0 == "key_count"@);
    assert(m[6].0 == "order"@);
    lemma_member_at(m, 0);
    assert(m[0].1.is_exact());
    lemma_member_at(m, 1);
    lemma_source_round_trip(value.source);
    assert(m[1].1.is_exact());
    lemma_member_at(m, 2);
    assert(m[2].1.is_exact());
    lemma_member_at(m, 3);
    assert(m[3].1.is_exact());
    lemma_member_at(m, 4);
    assert(m[4].1.is_exact());
    lemma_member_at(m, 5);
    assert(m[5].1.is_exact());
    lemma_member_at(m, 6);
    assert(m[6].1.is_exact());
    assert(socket_info_tree(value).is_exact()) by {
        assert forall|i: int| 0 <= i < m.len() implies (#[trigger] m[i]).1.is_exact() by {
            if i == 0 {
            } else if i == 1 {
            } else if i == 2 {
            } else if i == 3 {
            } else if i == 4 {
            } else if i == 5 {
            } else if i == 6 {
            }
        }
    }
}

/// The document of a socket.
pub fn encode_socket_info(value: &SocketInfo) -> (tree: Json)
    ensures
        tree.deep_view() == socket_info_tree(value.deep_view()),
        tree.deep_view().is_exact(),
{
    let mut members: Vec<(String, Json)> = Vec::new();
    assert(members_of(members@) =~= Seq::empty());
    put(&mut members, "path", Json::Text(value.path.clone()));
    put(&mut members, "source", encode_source(&value.source));
    put(&mut members, "added_at", optional_text(&value.added_at));
    put(&mut members, "healthy", Json::Bool(value.healthy));
    put(&mut members, "last_health_check", optional_text(&value.last_health_check));
    put(&mut members, "key_count", optional_usize(value.key_count));
    put(&mut members, "order", Json::Number(value.order as u64));
    proof {
        lemma_object_view(members);
        assert(members_of(members@) =~= socket_info_tree(value.deep_view())->Object_0);
        lemma_socket_info_round_trip(value.deep_view());
    }
    Json::Object(members)
}

/// What a document says of a socket.
pub fn decode_socket_info(tree: &Json) -> (value: Option<SocketInfo>)
    ensures
        value.deep_view() == socket_info_of(tree.deep_view()),
{
    let members = match tree {
        Json::Object(members) => members,
        _ => {
            return None;
        },
    };
    proof {
        lemma_object_view(*members);
    }
    let path = match get_text(members, "path") {
        Some(path) => path,
        None => {
            return None;
        },
    };
    let source = match match find_member(members, "source") {
        Some(tree) => decode_source(tree),
        None => None,
    } {
        Some(source) => source,
        None => {
            return None;
        },
    };
    let added_at = match get_optional_text(members, "added_at") {
        Some(added_at) => added_at,
        None => {
            return None;
        },
    };
    let healthy = match get_bool(members, "healthy") {
        Some(healthy) => healthy,
        None => {
            return None;
        },
    };
    let last_health_check = match get_optional_text(members, "last_health_check") {
        Some(last_health_check) => last_health_check,
        None => {
            return None;
        },
    };
    let key_count = match get_optional_number(members, "key_count", usize::MAX as u64) {
        Some(key_count) => key_count,
        None => {
            return None;
        },
    };
    let order = match get_number(members, "order", usize::MAX as u64) {
        Some(order) => order,
        None => {
            return None;
        },
    };
    Some(
        SocketInfo {
            path,
            source,
            added_at,
            healthy,
            last_health_check,
            key_count: narrow_usize(key_count),
            order: order as usize,
        },
    )
}

/// The documents of sockets, in order.
pub open spec fn socket_infos_trees(values: Seq<SocketInfoView>) -> Seq<JsonView> {
    Seq::new(values.len(), |i: int| socket_info_tree(values[i]))
}

/// What a list of documents says of sockets, if every document of the
/// list fits.
pub open spec fn socket_infos_of(trees: Seq<JsonView>) -> Option<Seq<SocketInfoView>>
    decreases trees.len(),
{
    if trees.len() == 0 {
        Some(Seq::empty())
    } else {
        match (socket_infos_of(trees.drop_last()), socket_info_of(trees.last())) {
            (Some(before), Some(last)) => Some(before.push(last)),
            _ => None,
        }
    }
}

/// The document of an array of sockets.
pub open spec fn socket_infos_tree(values: Seq<SocketInfoView>) -> JsonView {
    JsonView::Array(socket_infos_trees(values))
}

/// What a document says of an array of sockets.
pub open spec fn socket_infos_in(tree: JsonView) -> Option<Seq<SocketInfoView>> {
    match tree {
        JsonView::Array(trees) => socket_infos_of(trees),
        _ => None,
    }
}

/// Reading back the documents of sockets gives the same again.
pub proof fn lemma_socket_infos_round_trip(values: Seq<SocketInfoView>)
    ensures
        socket_infos_in(socket_infos_tree(values)) == Some(values),
        socket_infos_tree(values).is_exact(),
    decreases values.len(),
{
    let trees = socket_infos_trees(values);
    if values.len() > 0 {
        lemma_socket_infos_round_trip(values.drop_last());
        assert(trees.drop_last() =~= socket_infos_trees(values.drop_last()));
        lemma_socket_info_round_trip(values.last());
        assert(values.drop_last().push(values.last()) =~= values);
    }
    assert forall|i: int| 0 <= i < trees.len() implies (#[trigger] trees[i]).is_exact() by {
        lemma_socket_info_round_trip(values[i]);
    }
}

/// The document of an array of sockets.
pub fn encode_socket_infos(values: &Vec<SocketInfo>) -> (tree: Json)
    ensures
        tree.deep_view() == socket_infos_tree(values.deep_view()),
        tree.deep_view().is_exact(),
{
    let mut trees: Vec<Json> = Vec::new();
    let mut i: usize = 0;
    while i < values.len()
        invariant
            i <= values.len(),
            items_of(trees@) =~= socket_infos_trees(values.deep_view()).take(i as int),
        decreases values.len() - i,
    {
        let ghost before = items_of(trees@);
        trees.push(encode_socket_info(&values[i]));
        assert(items_of(trees@) =~= before.push(socket_info_tree(values.deep_view()[i as int])));
        i += 1;
    }
    proof {
        lemma_array_view(trees);
        assert(socket_infos_trees(values.deep_view()).take(values.len() as int)
            =~= socket_infos_trees(values.deep_view()));
        lemma_socket_infos_round_trip(values.deep_view());
    }
    Json::Array(trees)
}

/// What a document says of an array of sockets.
pub fn decode_socket_infos(tree: &Json) -> (values: Option<Vec<SocketInfo>>)
    ensures
        values.deep_view() == socket_infos_in(tree.deep_view()),
{
    let trees = match tree {
        Json::Array(trees) => trees,
        _ => {
            return None;
        },
    };
    proof {
        lemma_array_view(*trees);
    }
    let mut values: Vec<SocketInfo> = Vec::new();
    let mut i: usize = 0;
    assert(values.deep_view() =~= Seq::empty());
    while i < trees.len()
        invariant
            i <= trees.len(),
            tree.deep_view() == JsonView::Array(items_of(trees@)),
            socket_infos_of(items_of(trees@).take(i as int)) == Some(values.deep_view()),
        decreases trees.len() - i,
    {
        assert(items_of(trees@).take(i + 1).drop_last() =~= items_of(trees@).take(i as int));
        assert(items_of(trees@).take(i + 1).last() == view_of(trees@[i as int]));
        match decode_socket_info(&trees[i]) {
            Some(value) => {
                let ghost before = values.deep_view();
                values.push(value);
                assert(values.deep_view() =~= before.push(value.deep_view()));
            },
            None => {
                proof {
                    assert(socket_infos_of(items_of(trees@).take(i + 1)) is None);
                    lemma_socket_infos_of_prefix(items_of(trees@), i + 1);
                }
                return None;
            },
        }
        i += 1;
    }
    assert(items_of(trees@).take(trees.len() as int) =~= items_of(trees@));
    Some(values)
}

/// Where a beginning of a list of documents does not fit, the list does not.
proof fn lemma_socket_infos_of_prefix(trees: Seq<JsonView>, n: int)
    requires
        0 <= n <= trees.len(),
        socket_infos_of(trees.take(n)) is None,
    ensures
        socket_infos_of(trees) is None,
    decreases trees.len() - n,
{
    if n < trees.len() {
        assert(trees.take(n + 1).drop_last() =~= trees.take(n));
        lemma_socket_infos_of_prefix(trees, n + 1);
    } else {
        assert(trees.take(n) =~= trees);
    }
}


/// The document of a key.
pub open spec fn key_info_tree(value: KeyInfoView) -> JsonView {
    JsonView::Object(
        seq![
            ("fingerprint"@, JsonView::Text(value.fingerprint)),
            ("key_type"@, JsonView::Text(value.key_type)),
            ("bits"@, optional_u32_tree(value.bits)),
            ("comment"@, JsonView::Text(value.comment)),
            ("source_socket"@, JsonView::Text(value.source_socket)),
        ],
    )
}

/// What a document says of a key, if it is an object with a fitting
/// member for each field.  An optional field may be null or missing.
pub open spec fn key_info_of(tree: JsonView) -> Option<KeyInfoView> {
    match tree {
        JsonView::Object(m) => {
            let fingerprint = text_member(m, "fingerprint"@);
            let key_type = text_member(m, "key_type"@);
            let bits = optional_number_member(m, "bits"@, u32::MAX as u64);
            let comment = text_member(m, "comment"@);
            let source_socket = text_member(m, "source_socket"@);
            if fingerprint is Some
                && key_type is Some
                && bits is Some
                && comment is Some
                && source_socket is Some {
                Some(
                    KeyInfoView {
                        fingerprint: fingerprint->0,
                        key_type: key_type->0,
                        bits: narrowed_u32(bits->0),
                        comment: comment->0,
                        source_socket: source_socket->0,
                    },
                )
            } else {
                None
            }
        },
        _ => None,
    }
}

/// The names of the members of a key differ from one another.
proof fn lemma_key_info_names()
    ensures
        "fingerprint"@ != "key_type"@,
        "fingerprint"@ != "bits"@,
        "fingerprint"@ != "comment"@,
        "fingerprint"@ != "source_socket"@,
        "key_type"@ != "bits"@,
        "key_type"@ != "comment"@,
        "key_type"@ != "source_socket"@,
        "bits"@ != "comment"@,
        "bits"@ != "source_socket"@,
        "comment"@ != "source_socket"@,
{
    reveal_strlit("fingerprint");
    reveal_strlit("key_type");
    reveal_strlit("bits");
    reveal_strlit("comment");
    reveal_strlit("source_socket");
    assert("fingerprint"@.len() == 11);
    assert("key_type"@.len() == 8);
    assert("bits"@.len() == 4);
    assert("comment"@.len() == 7);
    assert("source_socket"@.len() == 13);
}

/// Reading back the document of a key gives the same again.
pub proof fn lemma_key_info_round_trip(value: KeyInfoView)
    ensures
        key_info_of(key_info_tree(value)) == Some(value),
        key_info_tree(value).is_exact(),
{
    lemma_key_info_names();
    let m = key_info_tree(value)->Object_0;
    assert(m[0].0 == "fingerprint"@);
    assert(m[1].0 == "key_type"@);
    assert(m[2].0 == "bits"@);
    assert(m[3].0 == "comment"@);
    assert(m[4].0 == "source_socket"@);
    lemma_member_at(m, 0);
    assert(m[0].1.is_exact());
    lemma_member_at(m, 1);
    assert(m[1].1.is_exact());
    lemma_member_at(m, 2);
    assert(m[2].1.is_exact());
    lemma_member_at(m, 3);
    assert(m[3].1.is_exact());
    lemma_member_at(m, 4);
    assert(m[4].1.is_exact());
    assert(key_info_tree(value).is_exact()) by {
        assert forall|i: int| 0 <= i < m.len() implies (#[trigger] m[i]).1.is_exact() by {
            if i == 0 {
            } else if i == 1 {
            } else if i == 2 {
            } else if i == 3 {
            } else if i == 4 {
            }
        }
    }
}

/// The document of a key.
pub fn encode_key_info(value: &KeyInfo) -> (tree: Json)
    ensures
        tree.deep_view() == key_info_tree(value.deep_view()),
        tree.deep_view().is_exact(),
{
    let mut members: Vec<(String, Json)> = Vec::new();
    assert(members_of(members@) =~= Seq::empty());
    put(&mut members, "fingerprint", Json::Text(value.fingerprint.clone()));
    put(&mut members, "key_type", Json::Text(value.key_type.clone()));
    put(&mut members, "bits", optional_u32(value.bits));
    put(&mut members, "comment", Json::Text(value.comment.clone()));
    put(&mut members, "source_socket", Json::Text(value.source_socket.clone()));
    proof {
        lemma_object_view(members);
        assert(members_of(members@) =~= key_info_tree(value.deep_view())->Object_0);
        lemma_key_info_round_trip(value.deep_view());
    }
    Json::Object(members)
}

/// What a document says of a key.
pub fn decode_key_info(tree: &Json) -> (value: Option<KeyInfo>)
    ensures
        value.deep_view() == key_info_of(tree.deep_view()),
{
    let members = match tree {
        Json::Object(members) => members,
        _ => {
            return None;
        },
    };
    proof {
        lemma_object_view(*members);
    }
    let fingerprint = match get_text(members, "fingerprint") {
        Some(fingerprint) => fingerprint,
        None => {
            return None;
        },
    };
    let key_type = match get_text(members, "key_type") {
        Some(key_type) => key_type,
        None => {
            return None;
        },
    };
    let bits = match get_optional_number(members, "bits", u32::MAX as u64) {
        Some(bits) => bits,
        None => {
            return None;
        },
    };
    let comment = match get_text(members, "comment") {
        Some(comment) => comment,
        None => {
            return None;
        },
    };
    let source_socket = match get_text(members, "source_socket") {
        Some(source_socket) => source_socket,
        None => {
            return None;
        },
    };
    Some(KeyInfo { fingerprint, key_type, bits: narrow_u32(bits), comment, source_socket })
}

/// The documents of keys, in order.
pub open spec fn key_infos_trees(values: Seq<KeyInfoView>) -> Seq<JsonView> {
    Seq::new(values.len(), |i: int| key_info_tree(values[i]))
}

/// What a list of documents says of keys, if every document of the
/// list fits.
pub open spec fn key_infos_of(trees: Seq<JsonView>) -> Option<Seq<KeyInfoView>>
    decreases trees.len(),
{
    if trees.len() == 0 {
        Some(Seq::empty())
    } else {
        match (key_infos_of(trees.drop_last()), key_info_of(trees.last())) {
            (Some(before), Some(last)) => Some(before.push(last)),
            _ => None,
        }
    }
}

/// The document of an array of keys.
pub open spec fn key_infos_tree(values: Seq<KeyInfoView>) -> JsonView {
    JsonView::Array(key_infos_trees(values))
}

/// What a document says of an array of keys.
pub open spec fn key_infos_in(tree: JsonView) -> Option<Seq<KeyInfoView>> {
    match tree {
        JsonView::Array(trees) => key_infos_of(trees),
        _ => None,
    }
}

/// Reading back the documents of keys gives the same again.
pub proof fn lemma_key_infos_round_trip(values: Seq<KeyInfoView>)
    ensures
        key_infos_in(key_infos_tree(values)) == Some(values),
        key_infos_tree(values).is_exact(),
    decreases values.len(),
{
    let trees = key_infos_trees(values);
    if values.len() > 0 {
        lemma_key_infos_round_trip(values.drop_last());
        assert(trees.drop_last() =~= key_infos_trees(values.drop_last()));
        lemma_key_info_round_trip(values.last());
        assert(values.drop_last().push(values.last()) =~= values);
    }
    assert forall|i: int| 0 <= i < trees.len() implies (#[trigger] trees[i]).is_exact() by {
        lemma_key_info_round_trip(values[i]);
    }
}

/// The document of an array of keys.
pub fn encode_key_infos(values: &Vec<KeyInfo>) -> (tree: Json)
    ensures
        tree.deep_view() == key_infos_tree(values.deep_view()),
        tree.deep_view().is_exact(),
{
    let mut trees: Vec<Json> = Vec::new();
    let mut i: usize = 0;
    while i < values.len()
        invariant
            i <= values.len(),
            items_of(trees@) =~= key_infos_trees(values.deep_view()).take(i as int),
        decreases values.len() - i,
    {
        let ghost before = items_of(trees@);
        trees.push(encode_key_info(&values[i]));
        assert(items_of(trees@) =~= before.push(key_info_tree(values.deep_view()[i as int])));
        i += 1;
    }
    proof {
        lemma_array_view(trees);
        assert(key_infos_trees(values.deep_view()).take(values.len() as int)
            =~= key_infos_trees(values.deep_view()));
        lemma_key_infos_round_trip(values.deep_view());
    }
    Json::Array(trees)
}

/// What a document says of an array of keys.
pub fn decode_key_infos(tree: &Json) -> (values: Option<Vec<KeyInfo>>)
    ensures
        values.deep_view() == key_infos_in(tree.deep_view()),
{
    let trees = match tree {
        Json::Array(trees) => trees,
        _ => {
            return None;
        },
    };
    proof {
        lemma_array_view(*trees);
    }
    let mut values: Vec<KeyInfo> = Vec::new();
    let mut i: usize = 0;
    assert(values.deep_view() =~= Seq::empty());
    while i < trees.len()
        invariant
            i <= trees.len(),
            tree.deep_view() == JsonView::Array(items_of(trees@)),
            key_infos_of(items_of(trees@).take(i as int)) == Some(values.deep_view()),
        decreases trees.len() - i,
    {
        assert(items_of(trees@).take(i + 1).drop_last() =~= items_of(trees@).take(i as int));
        assert(items_of(trees@).take(i + 1).last() == view_of(trees@[i as int]));
        match decode_key_info(&trees[i]) {
            Some(value) => {
                let ghost before = values.deep_view();
                values.push(value);
                assert(values.deep_view() =~= before.push(value.deep_view()));
            },
            None => {
                proof {
                    assert(key_infos_of(items_of(trees@).take(i + 1)) is None);
                    lemma_key_infos_of_prefix(items_of(trees@), i + 1);
                }
                return None;
            },
        }
        i += 1;
    }
    assert(items_of(trees@).take(trees.len() as int) =~= items_of(trees@));
    Some(values)
}

/// Where a beginning of a list of documents does not fit, the list does not.
proof fn lemma_key_infos_of_prefix(trees: Seq<JsonView>, n: int)
    requires
        0 <= n <= trees.len(),
        key_infos_of(trees.take(n)) is None,
    ensures
        key_infos_of(trees) is None,
    decreases trees.len() - n,
{
    if n < trees.len() {
        assert(trees.take(n + 1).drop_last() =~= trees.take(n));
        lemma_key_infos_of_prefix(trees, n + 1);
    } else {
        assert(trees.take(n) =~= trees);
    }
}


/// The document of the health of a socket.
pub open spec fn socket_health_info_tree(value: SocketHealthInfoView) -> JsonView {
    JsonView::Object(
        seq![
            ("path"@, JsonView::Text(value.path)),
            ("status"@, health_status_tree(value.status)),
            ("key_count"@, optional_usize_tree(value.key_count)),
            ("error"@, optional_text_tree(value.error)),
        ],
    )
}

/// What a document says of the health of a socket, if it is an object with a fitting
/// member for each field.  An optional field may be null or missing.
pub open spec fn socket_health_info_of(tree: JsonView) -> Option<SocketHealthInfoView> {
    match tree {
        JsonView::Object(m) => {
            let path = text_member(m, "path"@);
            let status = decoded_member(m, "status"@, |t: JsonView| health_status_of(t));
            let key_count = optional_number_member(m, "key_count"@, usize::MAX as u64);
            let error = optional_text_member(m, "error"@);
            if path is Some && status is Some && key_count is Some && error is Some {
                Some(
                    SocketHealthInfoView {
                        path: path->0,
                        status: status->0,
                        key_count: narrowed_usize(key_count->0),
                        error: error->0,
                    },
                )
            } else {
                None
            }
        },
        _ => None,
    }
}

/// The names of the members of the health of a socket differ from one another.
proof fn lemma_socket_health_info_names()
    ensures
        "path"@ != "status"@,
        "path"@ != "key_count"@,
        "path"@ != "error"@,
        "status"@ != "key_count"@,
        "status"@ != "error"@,
        "key_count"@ != "error"@,
{
    reveal_strlit("path");
    reveal_strlit("status");
    reveal_strlit("key_count");
    reveal_strlit("error");
    assert("path"@.len() == 4);
    assert("status"@.len() == 6);
    assert("key_count"@.len() == 9);
    assert("error"@.len() == 5);
}

/// Reading back the document of the health of a socket gives the same again.
pub proof fn lemma_socket_health_info_round_trip(value: SocketHealthInfoView)
    ensures
        socket_health_info_of(socket_health_info_tree(value)) == Some(value),
        socket_health_info_tree(value).is_exact(),
{
    lemma_socket_health_info_names();
    let m = socket_health_info_tree(value)->Object_0;
    assert(m[0].0 == "path"@);
    assert(m[1].0 == "status"@);
    assert(m[2].0 == "key_count"@);
    assert(m[3].0 == "error"@);
    lemma_member_at(m, 0);
    assert(m[0].1.is_exact());
    lemma_member_at(m, 1);
    lemma_health_status_round_trip(value.status);
    assert(m[1].1.is_exact());
    lemma_member_at(m, 2);
    assert(m[2].1.is_exact());
    lemma_member_at(m, 3);
    assert(m[3].1.is_exact());
    assert(socket_health_info_tree(value).is_exact()) by {
        assert forall|i: int| 0 <= i < m.len() implies (#[trigger] m[i]).1.is_exact() by {
            if i == 0 {
            } else if i == 1 {
            } else if i == 2 {
            } else if i == 3 {
            }
        }
    }
}

/// The document of the health of a socket.
pub fn encode_socket_health_info(value: &SocketHealthInfo) -> (tree: Json)
    ensures
        tree.deep_view() == socket_health_info_tree(value.deep_view()),
        tree.deep_view().is_exact(),
{
    let mut members: Vec<(String, Json)> = Vec::new();
    assert(members_of(members@) =~= Seq::empty());
    put(&mut members, "path", Json::Text(value.path.clone()));
    put(&mut members, "status", encode_health_status(&value.status));
    put(&mut members, "key_count", optional_usize(value.key_count));
    put(&mut members, "error", optional_text(&value.error));
    proof {
        lemma_object_view(members);
        assert(members_of(members@) =~= socket_health_info_tree(value.deep_view())->Object_0);
        lemma_socket_health_info_round_trip(value.deep_view());
    }
    Json::Object(members)
}

/// What a document says of the health of a socket.
pub fn decode_socket_health_info(tree: &Json) -> (value: Option<SocketHealthInfo>)
    ensures
        value.deep_view() == socket_health_info_of(tree.deep_view()),
{
    let members = match tree {
        Json::Object(members) => members,
        _ => {
            return None;
        },
    };
    proof {
        lemma_object_view(*members);
    }
    let path = match get_text(members, "path") {
        Some(path) => path,
        None => {
            return None;
        },
    };
    let status = match match find_member(members, "status") {
        Some(tree) => decode_health_status(tree),
        None => None,
    } {
        Some(status) => status,
        None => {
            return None;
        },
    };
    let key_count = match get_optional_number(members, "key_count", usize::MAX as u64) {
        Some(key_count) => key_count,
        None => {
            return None;
        },
    };
    let error = match get_optional_text(members, "error") {
        Some(error) => error,
        None => {
            return None;
        },
    };
    Some(SocketHealthInfo { path, status, key_count: narrow_usize(key_count), error })
}

/// The documents of health reports, in order.
pub open spec fn socket_health_infos_trees(values: Seq<SocketHealthInfoView>) -> Seq<JsonView> {
    Seq::new(values.len(), |i: int| socket_health_info_tree(values[i]))
}

/// What a list of documents says of health reports, if every document of the
/// list fits.
pub open spec fn socket_health_infos_of(trees: Seq<JsonView>) -> Option<Seq<SocketHealthInfoView>>
    decreases trees.len(),
{
    if trees.len() == 0 {
        Some(Seq::empty())
    } else {
        match (socket_health_infos_of(trees.drop_last()), socket_health_info_of(trees.last())) {
            (Some(before), Some(last)) => Some(before.push(last)),
            _ => None,
        }
    }
}

/// The document of an array of health reports.
pub open spec fn socket_health_infos_tree(values: Seq<SocketHealthInfoView>) -> JsonView {
    JsonView::Array(socket_health_infos_trees(values))
}

/// What a document says of an array of health reports.
pub open spec fn socket_health_infos_in(tree: JsonView) -> Option<Seq<SocketHealthInfoView>> {
    match tree {
        JsonView::Array(trees) => socket_health_infos_of(trees),
        _ => None,
    }
}

/// Reading back the documents of health reports gives the same again.
pub proof fn lemma_socket_health_infos_round_trip(values: Seq<SocketHealthInfoView>)
    ensures
        socket_health_infos_in(socket_health_infos_tree(values)) == Some(values),
        socket_health_infos_tree(values).is_exact(),
    decreases values.len(),
{
    let trees = socket_health_infos_trees(values);
    if values.len() > 0 {
        lemma_socket_health_infos_round_trip(values.drop_last());
        assert(trees.drop_last() =~= socket_health_infos_trees(values.drop_last()));
        lemma_socket_health_info_round_trip(values.last());
        assert(values.drop_last().push(values.last()) =~= values);
    }
    assert forall|i: int| 0 <= i < trees.len() implies (#[trigger] trees[i]).is_exact() by {
        lemma_socket_health_info_round_trip(values[i]);
    }
}

/// The document of an array of health reports.
pub fn encode_socket_health_infos(values: &Vec<SocketHealthInfo>) -> (tree: Json)
    ensures
        tree.deep_view() == socket_health_infos_tree(values.deep_view()),
        tree.deep_view().is_exact(),
{
    let mut trees: Vec<Json> = Vec::new();
    let mut i: usize = 0;
    while i < values.len()
        invariant
            i <= values.len(),
            items_of(trees@) =~= socket_health_infos_trees(values.deep_view()).take(i as int),
        decreases values.len() - i,
    {
        let ghost before = items_of(trees@);
        trees.push(encode_socket_health_info(&values[i]));
        assert(items_of(trees@)
            =~= before.push(socket_health_info_tree(values.deep_view()[i as int])));
        i += 1;
    }
    proof {
        lemma_array_view(trees);
        assert(socket_health_infos_trees(values.deep_view()).take(values.len() as int)
            =~= socket_health_infos_trees(values.deep_view()));
        lemma_socket_health_infos_round_trip(values.deep_view());
    }
    Json::Array(trees)
}

/// What a document says of an array of health reports.
pub fn decode_socket_health_infos(tree: &Json) -> (values: Option<Vec<SocketHealthInfo>>)
    ensures
        values.deep_view() == socket_health_infos_in(tree.deep_view()),
{
    let trees = match tree {
        Json::Array(trees) => trees,
        _ => {
            return None;
        },
    };
    proof {
        lemma_array_view(*trees);
    }
    let mut values: Vec<SocketHealthInfo> = Vec::new();
    let mut i: usize = 0;
    assert(values.deep_view() =~= Seq::empty());
    while i < trees.len()
        invariant
            i <= trees.len(),
            tree.deep_view() == JsonView::Array(items_of(trees@)),
            socket_health_infos_of(items_of(trees@).take(i as int)) == Some(values.deep_view()),
        decreases trees.len() - i,
    {
        assert(items_of(trees@).take(i + 1).drop_last() =~= items_of(trees@).take(i as int));
        assert(items_of(trees@).take(i + 1).last() == view_of(trees@[i as int]));
        match decode_socket_health_info(&trees[i]) {
            Some(value) => {
                let ghost before = values.deep_view();
                values.push(value);
                assert(values.deep_view() =~= before.push(value.deep_view()));
            },
            None => {
                proof {
                    assert(socket_health_infos_of(items_of(trees@).take(i + 1)) is None);
                    lemma_socket_health_infos_of_prefix(items_of(trees@), i + 1);
                }
                return None;
            },
        }
        i += 1;
    }
    assert(items_of(trees@).take(trees.len() as int) =~= items_of(trees@));
    Some(values)
}

/// Where a beginning of a list of documents does not fit, the list does not.
proof fn lemma_socket_health_infos_of_prefix(trees: Seq<JsonView>, n: int)
    requires
        0 <= n <= trees.len(),
        socket_health_infos_of(trees.take(n)) is None,
    ensures
        socket_health_infos_of(trees) is None,
    decreases trees.len() - n,
{
    if n < trees.len() {
        assert(trees.take(n + 1).drop_last() =~= trees.take(n));
        lemma_socket_health_infos_of_prefix(trees, n + 1);
    } else {
        assert(trees.take(n) =~= trees);
    }
}


/// The document of the status of the daemon.
pub open spec fn status_info_tree(value: StatusInfoView) -> JsonView {
    JsonView::Object(
        seq![
            ("version"@, JsonView::Text(value.version)),
            ("git_commit"@, JsonView::Text(value.git_commit)),
            ("uptime_secs"@, JsonView::Number(value.uptime_secs as u64)),
            ("pid"@, JsonView::Number(value.pid as u64)),
            ("listening_on"@, JsonView::Text(value.listening_on)),
            ("control_socket"@, JsonView::Text(value.control_socket)),
            ("watch_enabled"@, JsonView::Bool(value.watch_enabled)),
            ("watcher_status"@, watcher_status_tree(value.watcher_status)),
            ("socket_count"@, JsonView::Number(value.socket_count as u64)),
            ("key_count"@, optional_usize_tree(value.key_count)),
        ],
    )
}

/// What a document says of the status of the daemon, if it is an object with a fitting
/// member for each field.  An optional field may be null or missing.
pub open spec fn status_info_of(tree: JsonView) -> Option<StatusInfoView> {
    match tree {
        JsonView::Object(m) => {
            let version = text_member(m, "version"@);
            let git_commit = text_member(m, "git_commit"@);
            let uptime_secs = number_member(m, "uptime_secs"@, u64::MAX);
            let pid = number_member(m, "pid"@, u32::MAX as u64);
            let listening_on = text_member(m, "listening_on"@);
            let control_socket = text_member(m, "control_socket"@);
            let watch_enabled = bool_member(m, "watch_enabled"@);
            let watcher_status = decoded_member(
                m,
                "watcher_status"@,
                |t: JsonView| watcher_status_of(t),
            );
            let socket_count = number_member(m, "socket_count"@, usize::MAX as u64);
            let key_count = optional_number_member(m, "key_count"@, usize::MAX as u64);
            if version is Some
                && git_commit is Some
                && uptime_secs is Some
                && pid is Some
                && listening_on is Some
                && control_socket is Some
                && watch_enabled is Some
                && watcher_status is Some
                && socket_count is Some
                && key_count is Some {
                Some(
                    StatusInfoView {
                        version: version->0,
                        git_commit: git_commit->0,
                        uptime_secs: uptime_secs->0,
                        pid: pid->0 as u32,
                        listening_on: listening_on->0,
                        control_socket: control_socket->0,
                        watch_enabled: watch_enabled->0,
                        watcher_status: watcher_status->0,
                        socket_count: socket_count->0 as usize,
                        key_count: narrowed_usize(key_count->0),
                    },
                )
            } else {
                None
            }
        },
        _ => None,
    }
}

/// The names of the members of the status of the daemon differ from one another.
proof fn lemma_status_info_names()
    ensures
        "version"@ != "git_commit"@,
        "version"@ != "uptime_secs"@,
        "version"@ != "pid"@,
        "version"@ != "listening_on"@,
        "version"@ != "control_socket"@,
        "version"@ != "watch_enabled"@,
        "version"@ != "watcher_status"@,
        "version"@ != "socket_count"@,
        "version"@ != "key_count"@,
        "git_commit"@ != "uptime_secs"@,
        "git_commit"@ != "pid"@,
        "git_commit"@ != "listening_on"@,
        "git_commit"@ != "control_socket"@,
        "git_commit"@ != "watch_enabled"@,
        "git_commit"@ != "watcher_status"@,
        "git_commit"@ != "socket_count"@,
        "git_commit"@ != "key_count"@,
        "uptime_secs"@ != "pid"@,
        "uptime_secs"@ != "listening_on"@,
        "uptime_secs"@ != "control_socket"@,
        "uptime_secs"@ != "watch_enabled"@,
        "uptime_secs"@ != "watcher_status"@,
        "uptime_secs"@ != "socket_count"@,
        "uptime_secs"@ != "key_count"@,
        "pid"@ != "listening_on"@,
        "pid"@ != "control_socket"@,
        "pid"@ != "watch_enabled"@,
        "pid"@ != "watcher_status"@,
        "pid"@ != "socket_count"@,
        "pid"@ != "key_count"@,
        "listening_on"@ != "control_socket"@,
        "listening_on"@ != "watch_enabled"@,
        "listening_on"@ != "watcher_status"@,
        "listening_on"@ != "socket_count"@,
        "listening_on"@ != "key_count"@,
        "control_socket"@ != "watch_enabled"@,
        "control_socket"@ != "watcher_status"@,
        "control_socket"@ != "socket_count"@,
        "control_socket"@ != "key_count"@,
        "watch_enabled"@ != "watcher_status"@,
        "watch_enabled"@ != "socket_count"@,
        "watch_enabled"@ != "key_count"@,
        "watcher_status"@ != "socket_count"@,
        "watcher_status"@ != "key_count"@,
        "socket_count"@ != "key_count"@,
{
    reveal_strlit("version");
    reveal_strlit("git_commit");
    reveal_strlit("uptime_secs");
    reveal_strlit("pid");
    reveal_strlit("listening_on");
    reveal_strlit("control_socket");
    reveal_strlit("watch_enabled");
    reveal_strlit("watcher_status");
    reveal_strlit("socket_count");
    reveal_strlit("key_count");
    assert("version"@.len() == 7);
    assert("git_commit"@.len() == 10);
    assert("uptime_secs"@.len() == 11);
    assert("pid"@.len() == 3);
    assert("listening_on"@.len() == 12);
    assert("control_socket"@.len() == 14);
    assert("watch_enabled"@.len() == 13);
    assert("watcher_status"@.len() == 14);
    assert("socket_count"@.len() == 12);
    assert("key_count"@.len() == 9);
    assert("listening_on"@[0] != "socket_count"@[0]);
    assert("control_socket"@[0] != "watcher_status"@[0]);
}

/// Reading back the document of the status of the daemon gives the same again.
pub proof fn lemma_status_info_round_trip(value: StatusInfoView)
    ensures
        status_info_of(status_info_tree(value)) == Some(value),
        status_info_tree(value).is_exact(),
{
    lemma_status_info_names();
    let m = status_info_tree(value)->Object_0;
    assert(m[0].0 == "version"@);
    assert(m[1].0 == "git_commit"@);
    assert(m[2].0 == "uptime_secs"@);
    assert(m[3].0 == "pid"@);
    assert(m[4].0 == "listening_on"@);
    assert(m[5].0 == "control_socket"@);
    assert(m[6].0 == "watch_enabled"@);
    assert(m[7].0 == "watcher_status"@);
    assert(m[8].0 == "socket_count"@);
    assert(m[9].0 == "key_count"@);
    lemma_member_at(m, 0);
    assert(m[0].1.is_exact());
    lemma_member_at(m, 1);
    assert(m[1].1.is_exact());
    lemma_member_at(m, 2);
    assert(m[2].1.is_exact());
    lemma_member_at(m, 3);
    assert(m[3].1.is_exact());
    lemma_member_at(m, 4);
    assert(m[4].1.is_exact());
    lemma_member_at(m, 5);
    assert(m[5].1.is_exact());
    lemma_member_at(m, 6);
    assert(m[6].1.is_exact());
    lemma_member_at(m, 7);
    lemma_watcher_status_round_trip(value.watcher_status);
    assert(m[7].1.is_exact());
    lemma_member_at(m, 8);
    assert(m[8].1.is_exact());
    lemma_member_at(m, 9);
    assert(m[9].1.is_exact());
    assert(status_info_tree(value).is_exact()) by {
        assert forall|i: int| 0 <= i < m.len() implies (#[trigger] m[i]).1.is_exact() by {
            if i == 0 {
            } else if i == 1 {
            } else if i == 2 {
            } else if i == 3 {
            } else if i == 4 {
            } else if i == 5 {
            } else if i == 6 {
            } else if i == 7 {
            } else if i == 8 {
            } else if i == 9 {
            }
        }
    }
}

/// The document of the status of the daemon.
pub fn encode_status_info(value: &StatusInfo) -> (tree: Json)
    ensures
        tree.deep_view() == status_info_tree(value.deep_view()),
        tree.deep_view().is_exact(),
{
    let mut members: Vec<(String, Json)> = Vec::new();
    assert(members_of(members@) =~= Seq::empty());
    put(&mut members, "version", Json::Text(value.version.clone()));
    put(&mut members, "git_commit", Json::Text(value.git_commit.clone()));
    put(&mut members, "uptime_secs", Json::Number(value.uptime_secs));
    put(&mut members, "pid", Json::Number(value.pid as u64));
    put(&mut members, "listening_on", Json::Text(value.listening_on.clone()));
    put(&mut members, "control_socket", Json::Text(value.control_socket.clone()));
    put(&mut members, "watch_enabled", Json::Bool(value.watch_enabled));
    put(&mut members, "watcher_status", encode_watcher_status(&value.watcher_status));
    put(&mut members, "socket_count", Json::Number(value.socket_count as u64));
    put(&mut members, "key_count", optional_usize(value.key_count));
    proof {
        lemma_object_view(members);
        assert(members_of(members@) =~= status_info_tree(value.deep_view())->Object_0);
        lemma_status_info_round_trip(value.deep_view());
    }
    Json::Object(members)
}

/// What a document says of the status of the daemon.
pub fn decode_status_info(tree: &Json) -> (value: Option<StatusInfo>)
    ensures
        value.deep_view() == status_info_of(tree.deep_view()),
{
    let members = match tree {
        Json::Object(members) => members,
        _ => {
            return None;
        },
    };
    proof {
        lemma_object_view(*members);
    }
    let version = match get_text(members, "version") {
        Some(version) => version,
        None => {
            return None;
        },
    };
    let git_commit = match get_text(members, "git_commit") {
        Some(git_commit) => git_commit,
        None => {
            return None;
        },
    };
    let uptime_secs = match get_number(members, "uptime_secs", u64::MAX) {
        Some(uptime_secs) => uptime_secs,
        None => {
            return None;
        },
    };
    let pid = match get_number(members, "pid", u32::MAX as u64) {
        Some(pid) => pid,
        None => {
            return None;
        },
    };
    let listening_on = match get_text(members, "listening_on") {
        Some(listening_on) => listening_on,
        None => {
            return None;
        },
    };
    let control_socket = match get_text(members, "control_socket") {
        Some(control_socket) => control_socket,
        None => {
            return None;
        },
    };
    let watch_enabled = match get_bool(members, "watch_enabled") {
        Some(watch_enabled) => watch_enabled,
        None => {
            return None;
        },
    };
    let watcher_status = match match find_member(members, "watcher_status") {
        Some(tree) => decode_watcher_status(tree),
        None => None,
    } {
        Some(watcher_status) => watcher_status,
        None => {
            return None;
        },
    };
    let socket_count = match get_number(members, "socket_count", usize::MAX as u64) {
        Some(socket_count) => socket_count,
        None => {
            return None;
        },
    };
    let key_count = match get_optional_number(members, "key_count", usize::MAX as u64) {
        Some(key_count) => key_count,
        None => {
            return None;
        },
    };
    Some(
        StatusInfo {
            version,
            git_commit,
            uptime_secs,
            pid: pid as u32,
            listening_on,
            control_socket,
            watch_enabled,
            watcher_status,
            socket_count: socket_count as usize,
            key_count: narrow_usize(key_count),
        },
    )
}

/// The document of a health check.
pub open spec fn health_check_result_tree(value: HealthCheckResultView) -> JsonView {
    JsonView::Object(
        seq![
            ("sockets"@, socket_health_infos_tree(value.sockets)),
            ("healthy_count"@, JsonView::Number(value.healthy_count as u64)),
            ("unhealthy_count"@, JsonView::Number(value.unhealthy_count as u64)),
            ("removed"@, texts_tree(value.removed)),
        ],
    )
}

/// What a document says of a health check, if it is an object with a fitting
/// member for each field.  An optional field may be null or missing.
pub open spec fn health_check_result_of(tree: JsonView) -> Option<HealthCheckResultView> {
    match tree {
        JsonView::Object(m) => {
            let sockets = decoded_member(m, "sockets"@, |t: JsonView| socket_health_infos_in(t));
            let healthy_count = number_member(m, "healthy_count"@, usize::MAX as u64);
            let unhealthy_count = number_member(m, "unhealthy_count"@, usize::MAX as u64);
            let removed = decoded_member(m, "removed"@, |t: JsonView| texts_in(t));
            if sockets is Some
                && healthy_count is Some
                && unhealthy_count is Some
                && removed is Some {
                Some(
                    HealthCheckResultView {
                        sockets: sockets->0,
                        healthy_count: healthy_count->0 as usize,
                        unhealthy_count: unhealthy_count->0 as usize,
                        removed: removed->0,
                    },
                )
            } else {
                None
            }
        },
        _ => None,
    }
}

/// The names of the members of a health check differ from one another.
proof fn lemma_health_check_result_names()
    ensures
        "sockets"@ != "healthy_count"@,
        "sockets"@ != "unhealthy_count"@,
        "sockets"@ != "removed"@,
        "healthy_count"@ != "unhealthy_count"@,
        "healthy_count"@ != "removed"@,
        "unhealthy_count"@ != "removed"@,
{
    reveal_strlit("sockets");
    reveal_strlit("healthy_count");
    reveal_strlit("unhealthy_count");
    reveal_strlit("removed");
    assert("sockets"@.len() == 7);
    assert("healthy_count"@.len() == 13);
    assert("unhealthy_count"@.len() == 15);
    assert("removed"@.len() == 7);
    assert("sockets"@[0] != "removed"@[0]);
}

/// Reading back the document of a health check gives the same again.
pub proof fn lemma_health_check_result_round_trip(value: HealthCheckResultView)
    ensures
        health_check_result_of(health_check_result_tree(value)) == Some(value),
        health_check_result_tree(value).is_exact(),
{
    lemma_health_check_result_names();
    let m = health_check_result_tree(value)->Object_0;
    assert(m[0].0 == "sockets"@);
    assert(m[1].0 == "healthy_count"@);
    assert(m[2].0 == "unhealthy_count"@);
    assert(m[3].0 == "removed"@);
    lemma_member_at(m, 0);
    lemma_socket_health_infos_round_trip(value.sockets);
    assert(m[0].1.is_exact());
    lemma_member_at(m, 1);
    assert(m[1].1.is_exact());
    lemma_member_at(m, 2);
    assert(m[2].1.is_exact());
    lemma_member_at(m, 3);
    lemma_texts_round_trip(value.removed);
    assert(m[3].1.is_exact());
    assert(health_check_result_tree(value).is_exact()) by {
        assert forall|i: int| 0 <= i < m.len() implies (#[trigger] m[i]).1.is_exact() by {
            if i == 0 {
            } else if i == 1 {
            } else if i == 2 {
            } else if i == 3 {
            }
        }
    }
}

/// The document of a health check.
pub fn encode_health_check_result(value: &HealthCheckResult) -> (tree: Json)
    ensures
        tree.deep_view() == health_check_result_tree(value.deep_view()),
        tree.deep_view().is_exact(),
{
    let mut members: Vec<(String, Json)> = Vec::new();
    assert(members_of(members@) =~= Seq::empty());
    put(&mut members, "sockets", encode_socket_health_infos(&value.sockets));
    put(&mut members, "healthy_count", Json::Number(value.healthy_count as u64));
    put(&mut members, "unhealthy_count", Json::Number(value.unhealthy_count as u64));
    put(&mut members, "removed", encode_texts(&value.removed));
    proof {
        lemma_object_view(members);
        assert(members_of(members@) =~= health_check_result_tree(value.deep_view())->Object_0);
        lemma_health_check_result_round_trip(value.deep_view());
    }
    Json::Object(members)
}

/// What a document says of a health check.
pub fn decode_health_check_result(tree: &Json) -> (value: Option<HealthCheckResult>)
    ensures
        value.deep_view() == health_check_result_of(tree.deep_view()),
{
    let members = match tree {
        Json::Object(members) => members,
        _ => {
            return None;
        },
    };
    proof {
        lemma_object_view(*members);
    }
    let sockets = match match find_member(members, "sockets") {
        Some(tree) => decode_socket_health_infos(tree),
        None => None,
    } {
        Some(sockets) => sockets,
        None => {
            return None;
        },
    };
    let healthy_count = match get_number(members, "healthy_count", usize::MAX as u64) {
        Some(healthy_count) => healthy_count,
        None => {
            return None;
        },
    };
    let unhealthy_count = match get_number(members, "unhealthy_count", usize::MAX as u64) {
        Some(unhealthy_count) => unhealthy_count,
        None => {
            return None;
        },
    };
    let removed = match match find_member(members, "removed") {
        Some(tree) => decode_texts(tree),
        None => None,
    } {
        Some(removed) => removed,
        None => {
            return None;
        },
    };
    Some(
        HealthCheckResult {
            sockets,
            healthy_count: healthy_count as usize,
            unhealthy_count: unhealthy_count as usize,
            removed,
        },
    )
}


/// The arguments of a message that has the single argument `name`.
pub open spec fn single(name: Seq<char>, value: JsonView) -> JsonView {
    JsonView::Object(seq![(name, value)])
}

/// The document of a response.
pub open spec fn response_tree(response: ControlResponseView) -> JsonView {
    match response {
        ControlResponseView::Status(info) => message_with("Status"@, status_info_tree(info)),
        ControlResponseView::Sockets { sockets } => message_with(
            "Sockets"@,
            single("sockets"@, socket_infos_tree(sockets)),
        ),
        ControlResponseView::Keys { keys } => message_with(
            "Keys"@,
            single("keys"@, key_infos_tree(keys)),
        ),
        ControlResponseView::HealthCheck(result) => message_with(
            "HealthCheck"@,
            health_check_result_tree(result),
        ),
        ControlResponseView::Success { message } => message_with(
            "Success"@,
            single("message"@, optional_text_tree(message)),
        ),
        ControlResponseView::Error { error } => message_with(
            "Error"@,
            single("error"@, JsonView::Text(error)),
        ),
        ControlResponseView::Pong => plain_message("Pong"@),
    }
}

/// The members of the arguments of a message, if its `data` is an object.
pub open spec fn data_members(
    members: Seq<(Seq<char>, JsonView)>,
) -> Option<Seq<(Seq<char>, JsonView)>> {
    match member(members, "data"@) {
        Some(JsonView::Object(data)) => Some(data),
        _ => None,
    }
}

/// The response that a document stands for, if it stands for one: an object
/// whose `type` names a kind of response and whose `data` fits that kind.
pub open spec fn response_of(tree: JsonView) -> Option<ControlResponseView> {
    match tree {
        JsonView::Object(members) => match text_member(members, "type"@) {
            Some(name) => if name == "Status"@ {
                match decoded_member(members, "data"@, |t: JsonView| status_info_of(t)) {
                    Some(info) => Some(ControlResponseView::Status(info)),
                    None => None,
                }
            } else if name == "Sockets"@ {
                match data_members(members) {
                    Some(data) => match decoded_member(
                        data,
                        "sockets"@,
                        |t: JsonView| socket_infos_in(t),
                    ) {
                        Some(sockets) => Some(ControlResponseView::Sockets { sockets }),
                        None => None,
                    },
                    None => None,
                }
            } else if name == "Keys"@ {
                match data_members(members) {
                    Some(data) => match decoded_member(
                        data,
                        "keys"@,
                        |t: JsonView| key_infos_in(t),
                    ) {
                        Some(keys) => Some(ControlResponseView::Keys { keys }),
                        None => None,
                    },
                    None => None,
                }
            } else if name == "HealthCheck"@ {
                match decoded_member(members, "data"@, |t: JsonView| health_check_result_of(t)) {
                    Some(result) => Some(ControlResponseView::HealthCheck(result)),
                    None => None,
                }
            } else if name == "Success"@ {
                match data_members(members) {
                    Some(data) => match optional_text_member(data, "message"@) {
                        Some(message) => Some(ControlResponseView::Success { message }),
                        None => None,
                    },
                    None => None,
                }
            } else if name == "Error"@ {
                match data_members(members) {
                    Some(data) => match text_member(data, "error"@) {
                        Some(error) => Some(ControlResponseView::Error { error }),
                        None => None,
                    },
                    None => None,
                }
            } else if name == "Pong"@ {
                Some(ControlResponseView::Pong)
            } else {
                None
            },
            None => None,
        },
        _ => None,
    }
}

/// The names of the kinds of response differ from one another.
proof fn lemma_response_names()
    ensures
        "Status"@ != "Sockets"@,
        "Status"@ != "Keys"@,
        "Status"@ != "HealthCheck"@,
        "Status"@ != "Success"@,
        "Status"@ != "Error"@,
        "Status"@ != "Pong"@,
        "Sockets"@ != "Keys"@,
        "Sockets"@ != "HealthCheck"@,
        "Sockets"@ != "Success"@,
        "Sockets"@ != "Error"@,
        "Sockets"@ != "Pong"@,
        "Keys"@ != "HealthCheck"@,
        "Keys"@ != "Success"@,
        "Keys"@ != "Error"@,
        "Keys"@ != "Pong"@,
        "HealthCheck"@ != "Success"@,
        "HealthCheck"@ != "Error"@,
        "HealthCheck"@ != "Pong"@,
        "Success"@ != "Error"@,
        "Success"@ != "Pong"@,
        "Error"@ != "Pong"@,
{
    reveal_strlit("Status");
    reveal_strlit("Sockets");
    reveal_strlit("Keys");
    reveal_strlit("HealthCheck");
    reveal_strlit("Success");
    reveal_strlit("Error");
    reveal_strlit("Pong");
    assert("Status"@.len() == 6);
    assert("Sockets"@.len() == 7);
    assert("Keys"@.len() == 4);
    assert("HealthCheck"@.len() == 11);
    assert("Success"@.len() == 7);
    assert("Error"@.len() == 5);
    assert("Pong"@.len() == 4);
    assert("Sockets"@[1] != "Success"@[1]);
    assert("Keys"@[0] != "Pong"@[0]);
}

/// Reading back the document of a response gives the response.
pub proof fn lemma_response_round_trip(response: ControlResponseView)
    ensures
        response_of(response_tree(response)) == Some(response),
        response_tree(response).is_exact(),
{
    lemma_response_names();
    lemma_envelope_names();
    let tree = response_tree(response);
    let m = tree->Object_0;
    match response {
        ControlResponseView::Status(info) => {
            lemma_message_members("Status"@, status_info_tree(info));
            lemma_status_info_round_trip(info);
        },
        ControlResponseView::Sockets { sockets } => {
            let data = single("sockets"@, socket_infos_tree(sockets));
            lemma_message_members("Sockets"@, data);
            lemma_member_at(data->Object_0, 0);
            lemma_socket_infos_round_trip(sockets);
            lemma_single_exact("sockets"@, socket_infos_tree(sockets));
        },
        ControlResponseView::Keys { keys } => {
            let data = single("keys"@, key_infos_tree(keys));
            lemma_message_members("Keys"@, data);
            lemma_member_at(data->Object_0, 0);
            lemma_key_infos_round_trip(keys);
            lemma_single_exact("keys"@, key_infos_tree(keys));
        },
        ControlResponseView::HealthCheck(result) => {
            lemma_message_members("HealthCheck"@, health_check_result_tree(result));
            lemma_health_check_result_round_trip(result);
        },
        ControlResponseView::Success { message } => {
            let data = single("message"@, optional_text_tree(message));
            lemma_message_members("Success"@, data);
            lemma_member_at(data->Object_0, 0);
            lemma_single_exact("message"@, optional_text_tree(message));
        },
        ControlResponseView::Error { error } => {
            let data = single("error"@, JsonView::Text(error));
            lemma_message_members("Error"@, data);
            lemma_member_at(data->Object_0, 0);
            lemma_single_exact("error"@, JsonView::Text(error));
        },
        ControlResponseView::Pong => {
            lemma_message_members("Pong"@, JsonView::Null);
        },
    }
    assert(tree.is_exact()) by {
        assert(m[0].1.is_exact());
        assert forall|i: int| 0 <= i < m.len() implies (#[trigger] m[i]).1.is_exact() by {
            if i == 0 {
            } else {
                assert(i == 1);
            }
        }
    }
}

/// An object with one member is exact where the member is.
proof fn lemma_single_exact(name: Seq<char>, value: JsonView)
    requires
        value.is_exact(),
    ensures
        single(name, value).is_exact(),
{
    let m = single(name, value)->Object_0;
    assert forall|i: int| 0 <= i < m.len() implies (#[trigger] m[i]).1.is_exact() by {
        assert(i == 0);
    }
}

fn single_object(name: &str, value: Json) -> (tree: Json)
    ensures
        tree.deep_view() == single(name@, value.deep_view()),
{
    let mut members: Vec<(String, Json)> = Vec::new();
    assert(members_of(members@) =~= Seq::empty());
    put(&mut members, name, value);
    proof {
        lemma_object_view(members);
        assert(members_of(members@) =~= single(name@, value.deep_view())->Object_0);
    }
    Json::Object(members)
}

/// The document of a response.
pub fn encode_response(response: &ControlResponse) -> (tree: Json)
    ensures
        tree.deep_view() == response_tree(response.deep_view()),
        tree.deep_view().is_exact(),
{
    proof {
        lemma_response_round_trip(response.deep_view());
    }
    match response {
        ControlResponse::Status(info) => with_data("Status", encode_status_info(info)),
        ControlResponse::Sockets { sockets } => with_data(
            "Sockets",
            single_object("sockets", encode_socket_infos(sockets)),
        ),
        ControlResponse::Keys { keys } => with_data(
            "Keys",
            single_object("keys", encode_key_infos(keys)),
        ),
        ControlResponse::HealthCheck(result) => with_data(
            "HealthCheck",
            encode_health_check_result(result),
        ),
        ControlResponse::Success { message } => with_data(
            "Success",
            single_object("message", optional_text(message)),
        ),
        ControlResponse::Error { error } => with_data(
            "Error",
            single_object("error", Json::Text(error.clone())),
        ),
        ControlResponse::Pong => plain("Pong"),
    }
}

fn get_data<'a>(members: &'a Vec<(String, Json)>) -> (data: Option<&'a Vec<(String, Json)>>)
    ensures
        match data {
            Some(data) => data_members(members_of(members@)) == Some(members_of(data@)),
            None => data_members(members_of(members@)) is None,
        },
{
    match find_member(members, "data") {
        Some(Json::Object(data)) => {
            proof {
                lemma_object_view(*data);
            }
            Some(data)
        },
        _ => None,
    }
}

/// The response that a document stands for, if it stands for one.
pub fn decode_response(tree: &Json) -> (response: Option<ControlResponse>)
    ensures
        response.deep_view() == response_of(tree.deep_view()),
{
    let members = match tree {
        Json::Object(members) => members,
        _ => {
            return None;
        },
    };
    proof {
        lemma_object_view(*members);
    }
    let name = match get_text(members, "type") {
        Some(name) => name,
        None => {
            return None;
        },
    };
    let name = name.as_str();
    if same_text(name, "Status") {
        match find_member(members, "data") {
            Some(data) => match decode_status_info(data) {
                Some(info) => Some(ControlResponse::Status(info)),
                None => None,
            },
            None => None,
        }
    } else if same_text(name, "Sockets") {
        match get_data(members) {
            Some(data) => match find_member(data, "sockets") {
                Some(list) => match decode_socket_infos(list) {
                    Some(sockets) => Some(ControlResponse::Sockets { sockets }),
                    None => None,
                },
                None => None,
            },
            None => None,
        }
    } else if same_text(name, "Keys") {
        match get_data(members) {
            Some(data) => match find_member(data, "keys") {
                Some(list) => match decode_key_infos(list) {
                    Some(keys) => Some(ControlResponse::Keys { keys }),
                    None => None,
                },
                None => None,
            },
            None => None,
        }
    } else if same_text(name, "HealthCheck") {
        match find_member(members, "data") {
            Some(data) => match decode_health_check_result(data) {
                Some(result) => Some(ControlResponse::HealthCheck(result)),
                None => None,
            },
            None => None,
        }
    } else if same_text(name, "Success") {
        match get_data(members) {
            Some(data) => match get_optional_text(data, "message") {
                Some(message) => Some(ControlResponse::Success { message }),
                None => None,
            },
            None => None,
        }
    } else if same_text(name, "Error") {
        match get_data(members) {
            Some(data) => match get_text(data, "error") {
                Some(error) => Some(ControlResponse::Error { error }),
                None => None,
            },
            None => None,
        }
    } else if same_text(name, "Pong") {
        Some(ControlResponse::Pong)
    } else {
        None
    }
}

/// The request that a text stands for: the request of the JSON document
/// that the text is, if it is one and stands for a request.
pub open spec fn request_in(text: Seq<char>) -> Option<ControlRequestView> {
    match json_document(text) {
        Some(tree) => request_of(tree),
        None => None,
    }
}

/// The response that a text stands for.
pub open spec fn response_in(text: Seq<char>) -> Option<ControlResponseView> {
    match json_document(text) {
        Some(tree) => response_of(tree),
        None => None,
    }
}

/// Whether `line` is a line that carries `request`: the JSON text of the
/// request, which reads as the request, and a newline.
pub open spec fn carries_request(line: Seq<char>, request: ControlRequestView) -> bool {
    &&& line.len() >= 1
    &&& line.last() == '\n'
    &&& json_text(request_tree(request)) == Some(line.drop_last())
    &&& request_in(line.drop_last()) == Some(request)
}

/// Whether `line` is a line that carries `response`: the JSON text of the
/// response, which reads as the response, and a newline.
pub open spec fn carries_response(line: Seq<char>, response: ControlResponseView) -> bool {
    &&& line.len() >= 1
    &&& line.last() == '\n'
    &&& json_text(response_tree(response)) == Some(line.drop_last())
    &&& response_in(line.drop_last()) == Some(response)
}

impl ControlRequest {
    /// The line that carries the request: its JSON text and a newline.
    pub fn to_line(&self) -> (outcome: Result<String, WireError>)
        ensures
            match outcome {
                Ok(line) => carries_request(line@, self.deep_view()),
                Err(error) => error is Unwritable && !reads_back(
                    request_tree(self.deep_view()),
                ),
            },
    {
        match self.to_json() {
            Ok(text) => {
                let ghost json = text@;
                let mut line = text;
                line.append("\n");
                proof {
                    reveal_strlit("\n");
                    assert(line@.drop_last() =~= json);
                }
                Ok(line)
            },
            Err(error) => Err(error),
        }
    }

    /// The request as JSON text, such as `{"type":"Ping"}`.  The text is
    /// read back before it is handed out, so that whatever comes out reads as
    /// this request again.
    pub fn to_json(&self) -> (outcome: Result<String, WireError>)
        ensures
            match outcome {
                Ok(text) => {
                    &&& json_text(request_tree(self.deep_view())) == Some(text@)
                    &&& request_in(text@) == Some(self.deep_view())
                },
                Err(error) => error is Unwritable && !reads_back(
                    request_tree(self.deep_view()),
                ),
            },
    {
        proof {
            lemma_request_round_trip(self.deep_view());
        }
        write_checked(&encode_request(self))
    }

    /// Reads a request from JSON text.  Fails with a syntax error where the
    /// text is not JSON and with a shape error where the JSON is no request.
    pub fn from_json(text: &str) -> (outcome: Result<ControlRequest, WireError>)
        ensures
            match outcome {
                Ok(request) => request_in(text@) == Some(request.deep_view()),
                Err(error) => request_in(text@) is None && (error is Syntax <==> json_document(
                    text@,
                ) is None) && (error is Shape <==> json_document(text@) is Some),
            },
    {
        match read_document(text) {
            Ok(tree) => match decode_request(&tree) {
                Some(request) => Ok(request),
                None => Err(WireError::Shape),
            },
            Err(error) => Err(error),
        }
    }
}

impl ControlResponse {
    /// The line that carries the response: its JSON text and a newline.
    pub fn to_line(&self) -> (outcome: Result<String, WireError>)
        ensures
            match outcome {
                Ok(line) => carries_response(line@, self.deep_view()),
                Err(error) => error is Unwritable && !reads_back(
                    response_tree(self.deep_view()),
                ),
            },
    {
        match self.to_json() {
            Ok(text) => {
                let ghost json = text@;
                let mut line = text;
                line.append("\n");
                proof {
                    reveal_strlit("\n");
                    assert(line@.drop_last() =~= json);
                }
                Ok(line)
            },
            Err(error) => Err(error),
        }
    }

    /// The response as JSON text, such as `{"type":"Pong"}`.  The text is
    /// read back before it is handed out, so that whatever comes out reads as
    /// this response again.
    pub fn to_json(&self) -> (outcome: Result<String, WireError>)
        ensures
            match outcome {
                Ok(text) => {
                    &&& json_text(response_tree(self.deep_view())) == Some(text@)
                    &&& response_in(text@) == Some(self.deep_view())
                },
                Err(error) => error is Unwritable && !reads_back(
                    response_tree(self.deep_view()),
                ),
            },
    {
        proof {
            lemma_response_round_trip(self.deep_view());
        }
        write_checked(&encode_response(self))
    }

    /// Reads a response from JSON text.  Fails with a syntax error where the
    /// text is not JSON and with a shape error where the JSON is no response.
    pub fn from_json(text: &str) -> (outcome: Result<ControlResponse, WireError>)
        ensures
            match outcome {
                Ok(response) => response_in(text@) == Some(response.deep_view()),
                Err(error) => response_in(text@) is None && (error is Syntax <==> json_document(
                    text@,
                ) is None) && (error is Shape <==> json_document(text@) is Some),
            },
    {
        match read_document(text) {
            Ok(tree) => match decode_response(&tree) {
                Some(response) => Ok(response),
                None => Err(WireError::Shape),
            },
            Err(error) => Err(error),
        }
    }
}

} // verus!
