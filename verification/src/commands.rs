//! What the command-line client shows for each reply of the daemon, for
//! people and as JSON, and whether the command succeeded.

use vstd::prelude::*;
use vstd::string::StringExecFns;
use crate::clock::{display_time, display_time_text};
use crate::control::client::{ControlClientError, ControlClientErrorView};
use crate::control::codec::{
    encode_health_check_result, encode_key_infos, encode_socket_infos, encode_status_info,
    health_check_result_tree, key_infos_tree, socket_infos_tree, status_info_tree,
};
use crate::control::json::{
    lemma_object_view, members_of, put, write_document, write_document_pretty, written,
    written_pretty, Json, JsonView,
};
use crate::control::protocol::{
    HealthCheckResult, HealthCheckResultView, KeyInfo, KeyInfoView, SocketHealthInfo,
    SocketHealthInfoView, SocketHealthStatus, SocketInfo, SocketInfoView, StatusInfo,
    StatusInfoView,
};
use crate::text::{decimal, decimal_string, owned, padded, push_decimal, push_padded};

verus! {

/// Output format for CLI commands
#[derive(Clone, Copy, Debug, PartialEq, Eq, Structural)]
pub enum OutputFormat {
    Human,
    Json,
}

/// A duration in seconds in a form for people: seconds below a minute,
/// minutes and seconds below an hour, hours and minutes below a day, and
/// days and hours from there on.
pub open spec fn duration_text(secs: nat) -> Seq<char> {
    if secs < 60 {
        decimal(secs) + "s"@
    } else if secs < 3600 {
        decimal(secs / 60) + "m "@ + decimal(secs % 60) + "s"@
    } else if secs < 86400 {
        decimal(secs / 3600) + "h "@ + decimal((secs % 3600) / 60) + "m"@
    } else {
        decimal(secs / 86400) + "d "@ + decimal((secs % 86400) / 3600) + "h"@
    }
}

/// Format a duration in seconds as human-readable
pub fn format_duration(secs: u64) -> (text: String)
    ensures
        text@ == duration_text(secs as nat),
{
    let mut text = String::new();
    if secs < 60 {
        push_decimal(&mut text, secs);
        text.append("s");
        assert(text@ =~= duration_text(secs as nat));
    } else if secs < 3600 {
        push_decimal(&mut text, secs / 60);
        text.append("m ");
        push_decimal(&mut text, secs % 60);
        text.append("s");
        assert(text@ =~= duration_text(secs as nat));
    } else if secs < 86400 {
        push_decimal(&mut text, secs / 3600);
        text.append("h ");
        push_decimal(&mut text, (secs % 3600) / 60);
        text.append("m");
        assert(text@ =~= duration_text(secs as nat));
    } else {
        push_decimal(&mut text, secs / 86400);
        text.append("d ");
        push_decimal(&mut text, (secs % 86400) / 3600);
        text.append("h");
        assert(text@ =~= duration_text(secs as nat));
    }
    text
}

/// The pattern by which timestamps are shown: the date and the time of day,
/// as in `2024-12-05 13:28:10`.
pub open spec fn display_pattern() -> Seq<char> {
    "%Y-%m-%d %H:%M:%S"@
}

/// A timestamp for display: the date and time of day where it reads as an
/// RFC 3339 timestamp, and the text as it is otherwise.
pub open spec fn timestamp_text(stamp: Seq<char>) -> Seq<char> {
    match display_time_text(stamp, display_pattern()) {
        Some(text) => text,
        None => stamp,
    }
}

/// Format an RFC 3339 timestamp for display
pub fn format_timestamp(stamp: &str) -> (text: String)
    ensures
        text@ == timestamp_text(stamp@),
{
    match display_time(stamp, "%Y-%m-%d %H:%M:%S") {
        Some(text) => text,
        None => owned(stamp),
    }
}

/// `yes` or `no`.
pub open spec fn yes_no(yes: bool) -> Seq<char> {
    if yes {
        "yes"@
    } else {
        "no"@
    }
}

fn yes_or_no(yes: bool) -> (word: &'static str)
    ensures
        word@ == yes_no(yes),
{
    if yes {
        "yes"
    } else {
        "no"
    }
}

/// The line that tells the number of keys, where it is known.
pub open spec fn keys_line(key_count: Option<usize>) -> Seq<char> {
    match key_count {
        Some(keys) => "  Keys:           "@ + decimal(keys as nat) + " available\n"@,
        None => Seq::empty(),
    }
}

/// The daemon's status as shown to people.
pub open spec fn status_text(status: StatusInfoView) -> Seq<char> {
    "ssh-agent-mux v"@ + status.version + " ("@ + status.git_commit + ")\n"@
        + "  PID:            "@ + decimal(status.pid as nat) + "\n"@ + "  Uptime:         "@
        + duration_text(status.uptime_secs as nat) + "\n"@ + "\nSockets:\n"@
        + "  Agent:          "@ + status.listening_on + "\n"@ + "  Control:        "@
        + status.control_socket + "\n"@ + "\nWatch:\n"@ + "  Enabled:        "@ + yes_no(
        status.watch_enabled,
    ) + "\n"@ + "  Status:         "@ + status.watcher_status.text() + "\n"@ + "\nStats:\n"@
        + "  Upstream:       "@ + decimal(status.socket_count as nat) + " socket(s)\n"@
        + keys_line(status.key_count)
}

/// The daemon's status as shown to people.
pub fn render_status(status: &StatusInfo) -> (text: String)
    ensures
        text@ == status_text(status.deep_view()),
{
    let mut text = owned("ssh-agent-mux v");
    text.append(status.version.as_str());
    text.append(" (");
    text.append(status.git_commit.as_str());
    text.append(")\n");
    text.append("  PID:            ");
    push_decimal(&mut text, status.pid as u64);
    text.append("\n");
    text.append("  Uptime:         ");
    let uptime = format_duration(status.uptime_secs);
    text.append(uptime.as_str());
    text.append("\n");
    text.append("\nSockets:\n");
    text.append("  Agent:          ");
    text.append(status.listening_on.as_str());
    text.append("\n");
    text.append("  Control:        ");
    text.append(status.control_socket.as_str());
    text.append("\n");
    text.append("\nWatch:\n");
    text.append("  Enabled:        ");
    text.append(yes_or_no(status.watch_enabled));
    text.append("\n");
    text.append("  Status:         ");
    let watcher = status.watcher_status.to_text();
    text.append(watcher.as_str());
    text.append("\n");
    text.append("\nStats:\n");
    text.append("  Upstream:       ");
    push_decimal(&mut text, status.socket_count as u64);
    text.append(" socket(s)\n");
    match status.key_count {
        Some(keys) => {
            let ghost before = text@;
            text.append("  Keys:           ");
            push_decimal(&mut text, keys as u64);
            text.append(" available\n");
            assert(text@ =~= before + keys_line(status.key_count));
        },
        None => {
            assert(text@ =~= text@ + keys_line(status.key_count));
        },
    }
    text
}

/// The heading of the table of sockets.
pub open spec fn sockets_heading() -> Seq<char> {
    padded("ORDER"@, 6) + " "@ + padded("SOURCE"@, 12) + " "@ + padded("HEALTHY"@, 8) + " "@
        + padded("ADDED"@, 20) + " "@ + "PATH"@ + "\n"@
}

/// When a socket was added, for display; a dash for a socket without a time.
pub open spec fn added_text(added_at: Option<Seq<char>>) -> Seq<char> {
    match added_at {
        Some(stamp) => timestamp_text(stamp),
        None => "-"@,
    }
}

/// One row of the table of sockets.
pub open spec fn socket_row(socket: SocketInfoView) -> Seq<char> {
    padded(decimal(socket.order as nat), 6) + " "@ + socket.source.text() + " "@ + padded(
        yes_no(socket.healthy),
        8,
    ) + " "@ + padded(added_text(socket.added_at), 20) + " "@ + socket.path + "\n"@
}

/// The rows of the table of sockets.
pub open spec fn socket_rows(sockets: Seq<SocketInfoView>) -> Seq<char>
    decreases sockets.len(),
{
    if sockets.len() == 0 {
        Seq::empty()
    } else {
        socket_rows(sockets.drop_last()) + socket_row(sockets.last())
    }
}

/// The sockets as shown to people: a table in the order of dispatch, or a
/// note that there are none.
pub open spec fn sockets_text(sockets: Seq<SocketInfoView>) -> Seq<char> {
    if sockets.len() == 0 {
        "No upstream agent sockets configured.\n"@
    } else {
        sockets_heading() + socket_rows(sockets)
    }
}

fn push_socket_row(text: &mut String, socket: &SocketInfo)
    ensures
        final(text)@ == old(text)@ + socket_row(socket.deep_view()),
{
    let mut row = String::new();
    let order = decimal_string(socket.order as u64);
    push_padded(&mut row, order.as_str(), 6);
    row.append(" ");
    let source = socket.source.to_text();
    row.append(source.as_str());
    row.append(" ");
    push_padded(&mut row, yes_or_no(socket.healthy), 8);
    row.append(" ");
    let added = match &socket.added_at {
        Some(stamp) => format_timestamp(stamp.as_str()),
        None => owned("-"),
    };
    push_padded(&mut row, added.as_str(), 20);
    row.append(" ");
    row.append(socket.path.as_str());
    row.append("\n");
    assert(row@ =~= socket_row(socket.deep_view()));
    text.append(row.as_str());
}

/// The sockets as shown to people.
pub fn render_sockets(sockets: &Vec<SocketInfo>) -> (text: String)
    ensures
        text@ == sockets_text(sockets.deep_view()),
{
    if sockets.len() == 0 {
        return owned("No upstream agent sockets configured.\n");
    }
    let mut text = String::new();
    push_padded(&mut text, "ORDER", 6);
    text.append(" ");
    push_padded(&mut text, "SOURCE", 12);
    text.append(" ");
    push_padded(&mut text, "HEALTHY", 8);
    text.append(" ");
    push_padded(&mut text, "ADDED", 20);
    text.append(" ");
    text.append("PATH");
    text.append("\n");
    assert(text@ =~= sockets_heading() + socket_rows(sockets.deep_view().take(0)));
    let mut i: usize = 0;
    while i < sockets.len()
        invariant
            i <= sockets.len(),
            text@ == sockets_heading() + socket_rows(sockets.deep_view().take(i as int)),
        decreases sockets.len() - i,
    {
        assert(sockets.deep_view().take(i + 1).drop_last() =~= sockets.deep_view().take(i as int));
        assert(sockets.deep_view().take(i + 1).last() == sockets@[i as int].deep_view());
        push_socket_row(&mut text, &sockets[i]);
        assert(text@ =~= sockets_heading() + socket_rows(sockets.deep_view().take(i + 1)));
        i += 1;
    }
    assert(sockets.deep_view().take(sockets.len() as int) =~= sockets.deep_view());
    text
}

/// A text cut to its first `limit` characters and marked with three dots
/// where it is longer than that.
pub open spec fn shortened(text: Seq<char>, limit: nat) -> Seq<char> {
    if text.len() > limit {
        text.subrange(0, limit as int) + "..."@
    } else {
        text
    }
}

fn shorten(text: &str, limit: usize) -> (short: String)
    ensures
        short@ == shortened(text@, limit as nat),
{
    if text.unicode_len() > limit {
        let mut short = owned(text.substring_char(0, limit));
        short.append("...");
        short
    } else {
        owned(text)
    }
}

/// The heading of the table of keys.
pub open spec fn keys_heading() -> Seq<char> {
    padded("FINGERPRINT"@, 50) + " "@ + padded("TYPE"@, 10) + " "@ + padded("COMMENT"@, 30) + " "@
        + "SOURCE"@ + "\n"@
}

/// One row of the table of keys: long fingerprints and comments are cut.
pub open spec fn key_row(key: KeyInfoView) -> Seq<char> {
    padded(shortened(key.fingerprint, 47), 50) + " "@ + padded(key.key_type, 10) + " "@ + padded(
        shortened(key.comment, 27),
        30,
    ) + " "@ + key.source_socket + "\n"@
}

/// The rows of the table of keys.
pub open spec fn key_rows(keys: Seq<KeyInfoView>) -> Seq<char>
    decreases keys.len(),
{
    if keys.len() == 0 {
        Seq::empty()
    } else {
        key_rows(keys.drop_last()) + key_row(keys.last())
    }
}

/// The keys as shown to people: a table, or a note that there are none.
pub open spec fn keys_text(keys: Seq<KeyInfoView>) -> Seq<char> {
    if keys.len() == 0 {
        "No keys available.\n"@
    } else {
        keys_heading() + key_rows(keys)
    }
}

fn push_key_row(text: &mut String, key: &KeyInfo)
    ensures
        final(text)@ == old(text)@ + key_row(key.deep_view()),
{
    let mut row = String::new();
    let fingerprint = shorten(key.fingerprint.as_str(), 47);
    push_padded(&mut row, fingerprint.as_str(), 50);
    row.append(" ");
    push_padded(&mut row, key.key_type.as_str(), 10);
    row.append(" ");
    let comment = shorten(key.comment.as_str(), 27);
    push_padded(&mut row, comment.as_str(), 30);
    row.append(" ");
    row.append(key.source_socket.as_str());
    row.append("\n");
    assert(row@ =~= key_row(key.deep_view()));
    text.append(row.as_str());
}

/// The keys as shown to people.
pub fn render_keys(keys: &Vec<KeyInfo>) -> (text: String)
    ensures
        text@ == keys_text(keys.deep_view()),
{
    if keys.len() == 0 {
        return owned("No keys available.\n");
    }
    let mut text = String::new();
    push_padded(&mut text, "FINGERPRINT", 50);
    text.append(" ");
    push_padded(&mut text, "TYPE", 10);
    text.append(" ");
    push_padded(&mut text, "COMMENT", 30);
    text.append(" ");
    text.append("SOURCE");
    text.append("\n");
    assert(text@ =~= keys_heading() + key_rows(keys.deep_view().take(0)));
    let mut i: usize = 0;
    while i < keys.len()
        invariant
            i <= keys.len(),
            text@ == keys_heading() + key_rows(keys.deep_view().take(i as int)),
        decreases keys.len() - i,
    {
        assert(keys.deep_view().take(i + 1).drop_last() =~= keys.deep_view().take(i as int));
        assert(keys.deep_view().take(i + 1).last() == keys@[i as int].deep_view());
        push_key_row(&mut text, &keys[i]);
        assert(text@ =~= keys_heading() + key_rows(keys.deep_view().take(i + 1)));
        i += 1;
    }
    assert(keys.deep_view().take(keys.len() as int) =~= keys.deep_view());
    text
}

/// The mark shown before a health status: a tick for healthy, a cross for
/// anything else.
pub open spec fn status_mark(status: SocketHealthStatus) -> Seq<char> {
    if status == SocketHealthStatus::Healthy {
        "\u{2713}"@
    } else {
        "\u{2717}"@
    }
}

/// What is shown of the health of the socket at position `index` of `total`.
pub open spec fn health_entry(socket: SocketHealthInfoView, index: nat, total: nat) -> Seq<char> {
    "  ["@ + decimal(index + 1) + "/"@ + decimal(total) + "] "@ + socket.path + "\n"@
        + "        Status: "@ + status_mark(socket.status) + " "@ + socket.status.text() + "\n"@
        + (match socket.key_count {
        Some(count) => "        Keys: "@ + decimal(count as nat) + "\n"@,
        None => Seq::empty(),
    }) + (match socket.error {
        Some(error) => "        Error: "@ + error + "\n"@,
        None => Seq::empty(),
    })
}

/// What is shown of the health of the first `count` sockets.
pub open spec fn health_entries(sockets: Seq<SocketHealthInfoView>, count: nat) -> Seq<char>
    recommends
        count <= sockets.len(),
    decreases count,
{
    if count == 0 {
        Seq::empty()
    } else {
        health_entries(sockets, (count - 1) as nat) + health_entry(
            sockets[count - 1],
            (count - 1) as nat,
            sockets.len(),
        )
    }
}

/// The line that sums up a health check.
pub open spec fn health_summary(healthy: nat, unhealthy: nat) -> Seq<char> {
    if unhealthy == 0 {
        "All sockets healthy.\n"@
    } else {
        decimal(healthy) + " healthy, "@ + decimal(unhealthy) + " unhealthy\n"@
    }
}

/// One line for each removed socket.
pub open spec fn removed_lines(removed: Seq<Seq<char>>) -> Seq<char>
    decreases removed.len(),
{
    if removed.len() == 0 {
        Seq::empty()
    } else {
        removed_lines(removed.drop_last()) + "  - "@ + removed.last() + "\n"@
    }
}

/// What is shown of the sockets that a health check removed, if any.
pub open spec fn removed_text(removed: Seq<Seq<char>>) -> Seq<char> {
    if removed.len() == 0 {
        Seq::empty()
    } else {
        "\nRemoved "@ + decimal(removed.len()) + " stale socket(s):\n"@ + removed_lines(removed)
    }
}

/// A health check as shown to people.
pub open spec fn health_text(result: HealthCheckResultView) -> Seq<char> {
    "Checking "@ + decimal(result.sockets.len()) + " socket(s)...\n"@ + health_entries(
        result.sockets,
        result.sockets.len(),
    ) + "\n"@ + health_summary(result.healthy_count as nat, result.unhealthy_count as nat)
        + removed_text(result.removed)
}

fn push_health_entry(text: &mut String, socket: &SocketHealthInfo, index: usize, total: usize)
    requires
        index < total,
    ensures
        final(text)@ == old(text)@ + health_entry(socket.deep_view(), index as nat, total as nat),
{
    let mut entry = owned("  [");
    push_decimal(&mut entry, (index + 1) as u64);
    entry.append("/");
    push_decimal(&mut entry, total as u64);
    entry.append("] ");
    entry.append(socket.path.as_str());
    entry.append("\n");
    entry.append("        Status: ");
    match socket.status {
        SocketHealthStatus::Healthy => {
            entry.append("\u{2713}");
        },
        _ => {
            entry.append("\u{2717}");
        },
    }
    entry.append(" ");
    let status = socket.status.to_text();
    entry.append(status.as_str());
    entry.append("\n");
    match socket.key_count {
        Some(count) => {
            entry.append("        Keys: ");
            push_decimal(&mut entry, count as u64);
            entry.append("\n");
        },
        None => {},
    }
    match &socket.error {
        Some(error) => {
            entry.append("        Error: ");
            entry.append(error.as_str());
            entry.append("\n");
        },
        None => {},
    }
    assert(entry@ =~= health_entry(socket.deep_view(), index as nat, total as nat));
    text.append(entry.as_str());
}

fn push_removed(text: &mut String, removed: &Vec<String>)
    ensures
        final(text)@ == old(text)@ + removed_text(removed.deep_view()),
{
    assert(removed.deep_view().len() == removed.len());
    if removed.len() == 0 {
        assert(text@ =~= text@ + removed_text(removed.deep_view()));
        return ;
    }
    let mut part = owned("\nRemoved ");
    push_decimal(&mut part, removed.len() as u64);
    part.append(" stale socket(s):\n");
    let ghost heading = part@;
    assert(part@ =~= heading + removed_lines(removed.deep_view().take(0)));
    let mut i: usize = 0;
    while i < removed.len()
        invariant
            i <= removed.len(),
            part@ == heading + removed_lines(removed.deep_view().take(i as int)),
        decreases removed.len() - i,
    {
        assert(removed.deep_view().take(i + 1).drop_last() =~= removed.deep_view().take(i as int));
        assert(removed.deep_view().take(i + 1).last() == removed@[i as int]@);
        part.append("  - ");
        part.append(removed[i].as_str());
        part.append("\n");
        assert(part@ =~= heading + removed_lines(removed.deep_view().take(i + 1)));
        i += 1;
    }
    assert(removed.deep_view().take(removed.len() as int) =~= removed.deep_view());
    text.append(part.as_str());
}

/// A health check as shown to people.
pub fn render_health(result: &HealthCheckResult) -> (text: String)
    ensures
        text@ == health_text(result.deep_view()),
{
    let total = result.sockets.len();
    assert(result.sockets.deep_view().len() == total);
    let mut text = owned("Checking ");
    push_decimal(&mut text, total as u64);
    text.append(" socket(s)...\n");
    let ghost heading = text@;
    assert(text@ =~= heading + health_entries(result.sockets.deep_view(), 0));
    let mut i: usize = 0;
    while i < total
        invariant
            i <= total,
            total == result.sockets.len(),
            result.sockets.deep_view().len() == total,
            text@ == heading + health_entries(result.sockets.deep_view(), i as nat),
        decreases total - i,
    {
        push_health_entry(&mut text, &result.sockets[i], i, total);
        assert(text@ =~= heading + health_entries(result.sockets.deep_view(), (i + 1) as nat));
        i += 1;
    }
    text.append("\n");
    let ghost upto = text@;
    if result.unhealthy_count == 0 {
        text.append("All sockets healthy.\n");
    } else {
        push_decimal(&mut text, result.healthy_count as u64);
        text.append(" healthy, ");
        push_decimal(&mut text, result.unhealthy_count as u64);
        text.append(" unhealthy\n");
    }
    assert(text@ =~= upto + health_summary(
        result.healthy_count as nat,
        result.unhealthy_count as nat,
    ));
    push_removed(&mut text, &result.removed);
    text
}

/// What a command leaves behind: what it prints, what it complains of, and
/// whether it succeeded.
#[derive(Debug, Clone, PartialEq, Eq)]
pub struct CommandOutput {
    /// Text for standard output
    pub stdout: String,
    /// Text for standard error
    pub stderr: String,
    /// Whether the command exits with success
    pub success: bool,
}

/// The mathematical form of a [`CommandOutput`].
pub ghost struct CommandOutputView {
    pub stdout: Seq<char>,
    pub stderr: Seq<char>,
    pub success: bool,
}

impl DeepView for CommandOutput {
    type V = CommandOutputView;

    open spec fn deep_view(&self) -> CommandOutputView {
        CommandOutputView { stdout: self.stdout@, stderr: self.stderr@, success: self.success }
    }
}

/// The output of a command that printed `text`.
pub open spec fn printed(text: Seq<char>, success: bool) -> CommandOutputView {
    CommandOutputView { stdout: text, stderr: Seq::empty(), success }
}

/// The output of a command that failed with the complaint `reason`.
pub open spec fn complained(reason: Seq<char>) -> CommandOutputView {
    CommandOutputView { stdout: Seq::empty(), stderr: "Error: "@ + reason + "\n"@, success: false }
}

/// The output of a command whose JSON text is `json`, if it has one.
pub open spec fn printed_json(json: Option<Seq<char>>, success: bool) -> CommandOutputView {
    match json {
        Some(json) => printed(json + "\n"@, success),
        None => CommandOutputView {
            stdout: Seq::empty(),
            stderr: "Error: the reply has no JSON form\n"@,
            success: false,
        },
    }
}

/// The JSON document that reports a success with its message.
pub open spec fn success_tree(message: Seq<char>) -> JsonView {
    JsonView::Object(
        seq![("success"@, JsonView::Bool(true)), ("message"@, JsonView::Text(message))],
    )
}

/// The JSON document that reports a failure with its error.
pub open spec fn failure_tree(error: Seq<char>) -> JsonView {
    JsonView::Object(
        seq![("success"@, JsonView::Bool(false)), ("error"@, JsonView::Text(error))],
    )
}

fn complain(reason: &str) -> (output: CommandOutput)
    ensures
        output.deep_view() == complained(reason@),
{
    let mut stderr = owned("Error: ");
    stderr.append(reason);
    stderr.append("\n");
    CommandOutput { stdout: String::new(), stderr, success: false }
}

fn print_json(tree: &Json, pretty: bool, success: bool) -> (output: CommandOutput)
    ensures
        output.deep_view() == printed_json(
            if pretty {
                written_pretty(tree.deep_view())
            } else {
                written(tree.deep_view())
            },
            success,
        ),
{
    let outcome = if pretty {
        write_document_pretty(tree)
    } else {
        write_document(tree)
    };
    match outcome {
        Ok(json) => {
            let mut stdout = json;
            stdout.append("\n");
            CommandOutput { stdout, stderr: String::new(), success }
        },
        Err(_) => CommandOutput {
            stdout: String::new(),
            stderr: owned("Error: the reply has no JSON form\n"),
            success: false,
        },
    }
}

fn success_document(message: &String) -> (tree: Json)
    ensures
        tree.deep_view() == success_tree(message@),
{
    let mut members: Vec<(String, Json)> = Vec::new();
    assert(members_of(members@) =~= Seq::empty());
    put(&mut members, "success", Json::Bool(true));
    put(&mut members, "message", Json::Text(message.clone()));
    proof {
        lemma_object_view(members);
        assert(members_of(members@) =~= success_tree(message@)->Object_0);
    }
    Json::Object(members)
}

fn failure_document(error: &String) -> (tree: Json)
    ensures
        tree.deep_view() == failure_tree(error@),
{
    let mut members: Vec<(String, Json)> = Vec::new();
    assert(members_of(members@) =~= Seq::empty());
    put(&mut members, "success", Json::Bool(false));
    put(&mut members, "error", Json::Text(error.clone()));
    proof {
        lemma_object_view(members);
        assert(members_of(members@) =~= failure_tree(error@)->Object_0);
    }
    Json::Object(members)
}

/// What the `status` command leaves behind: the status for people or as
/// indented JSON, or a complaint.
pub fn cmd_status(
    outcome: &Result<StatusInfo, ControlClientError>,
    format: OutputFormat,
) -> (output: CommandOutput)
    ensures
        output.deep_view() == match outcome {
            Ok(status) => match format {
                OutputFormat::Human => printed(status_text(status.deep_view()), true),
                OutputFormat::Json => printed_json(
                    written_pretty(status_info_tree(status.deep_view())),
                    true,
                ),
            },
            Err(error) => complained(error.deep_view().text()),
        },
{
    match outcome {
        Ok(status) => match format {
            OutputFormat::Human => CommandOutput {
                stdout: render_status(status),
                stderr: String::new(),
                success: true,
            },
            OutputFormat::Json => print_json(&encode_status_info(status), true, true),
        },
        Err(error) => complain(error.to_text().as_str()),
    }
}

/// What the `list` command leaves behind: the sockets for people or as
/// indented JSON, or a complaint.
pub fn cmd_list(
    outcome: &Result<Vec<SocketInfo>, ControlClientError>,
    format: OutputFormat,
) -> (output: CommandOutput)
    ensures
        output.deep_view() == match outcome {
            Ok(sockets) => match format {
                OutputFormat::Human => printed(sockets_text(sockets.deep_view()), true),
                OutputFormat::Json => printed_json(
                    written_pretty(socket_infos_tree(sockets.deep_view())),
                    true,
                ),
            },
            Err(error) => complained(error.deep_view().text()),
        },
{
    match outcome {
        Ok(sockets) => match format {
            OutputFormat::Human => CommandOutput {
                stdout: render_sockets(sockets),
                stderr: String::new(),
                success: true,
            },
            OutputFormat::Json => print_json(&encode_socket_infos(sockets), true, true),
        },
        Err(error) => complain(error.to_text().as_str()),
    }
}

/// What the `list-keys` command leaves behind: the keys for people or as
/// indented JSON, or a complaint.
pub fn cmd_list_keys(
    outcome: &Result<Vec<KeyInfo>, ControlClientError>,
    format: OutputFormat,
) -> (output: CommandOutput)
    ensures
        output.deep_view() == match outcome {
            Ok(keys) => match format {
                OutputFormat::Human => printed(keys_text(keys.deep_view()), true),
                OutputFormat::Json => printed_json(
                    written_pretty(key_infos_tree(keys.deep_view())),
                    true,
                ),
            },
            Err(error) => complained(error.deep_view().text()),
        },
{
    match outcome {
        Ok(keys) => match format {
            OutputFormat::Human => CommandOutput {
                stdout: render_keys(keys),
                stderr: String::new(),
                success: true,
            },
            OutputFormat::Json => print_json(&encode_key_infos(keys), true, true),
        },
        Err(error) => complain(error.to_text().as_str()),
    }
}

/// What a command leaves behind that the daemon answers with a message
/// (`reload`, `validate`, `add`, `remove`).  For people, the message is
/// printed or the error complained of; as JSON, either is an object with
/// `success` and the `message` or the `error`.
pub open spec fn message_output(
    outcome: Result<Seq<char>, ControlClientErrorView>,
    format: OutputFormat,
) -> CommandOutputView {
    match outcome {
        Ok(message) => match format {
            OutputFormat::Human => printed(message + "\n"@, true),
            OutputFormat::Json => printed_json(written(success_tree(message)), true),
        },
        Err(error) => match format {
            OutputFormat::Human => complained(error.text()),
            OutputFormat::Json => printed_json(written(failure_tree(error.text())), false),
        },
    }
}

/// What a command leaves behind that the daemon answers with a message.
pub fn cmd_message(
    outcome: &Result<String, ControlClientError>,
    format: OutputFormat,
) -> (output: CommandOutput)
    ensures
        output.deep_view() == message_output(
            match outcome {
                Ok(message) => Ok(message@),
                Err(error) => Err(error.deep_view()),
            },
            format,
        ),
{
    match outcome {
        Ok(message) => match format {
            OutputFormat::Human => {
                let mut stdout = message.clone();
                stdout.append("\n");
                CommandOutput { stdout, stderr: String::new(), success: true }
            },
            OutputFormat::Json => print_json(&success_document(message), false, true),
        },
        Err(error) => match format {
            OutputFormat::Human => complain(error.to_text().as_str()),
            OutputFormat::Json => print_json(&failure_document(&error.to_text()), false, false),
        },
    }
}

/// What the `health` command leaves behind.  It succeeds only where no
/// socket is unhealthy.
pub fn cmd_health(
    outcome: &Result<HealthCheckResult, ControlClientError>,
    format: OutputFormat,
) -> (output: CommandOutput)
    ensures
        output.deep_view() == match outcome {
            Ok(result) => match format {
                OutputFormat::Human => printed(
                    health_text(result.deep_view()),
                    result.unhealthy_count == 0,
                ),
                OutputFormat::Json => printed_json(
                    written_pretty(health_check_result_tree(result.deep_view())),
                    result.unhealthy_count == 0,
                ),
            },
            Err(error) => match format {
                OutputFormat::Human => complained(error.deep_view().text()),
                OutputFormat::Json => printed_json(
                    written(failure_tree(error.deep_view().text())),
                    false,
                ),
            },
        },
{
    match outcome {
        Ok(result) => {
            let healthy = result.unhealthy_count == 0;
            match format {
                OutputFormat::Human => CommandOutput {
                    stdout: render_health(result),
                    stderr: String::new(),
                    success: healthy,
                },
                OutputFormat::Json => print_json(&encode_health_check_result(result), true, healthy),
            }
        },
        Err(error) => match format {
            OutputFormat::Human => complain(error.to_text().as_str()),
            OutputFormat::Json => print_json(&failure_document(&error.to_text()), false, false),
        },
    }
}

} // verus!
