//! The daemon's side of the control protocol: what each request does to the
//! socket registry and what it is answered with.
//!
//! Handling a request never blocks.  Where the answer needs work that only
//! the caller can do (scanning `/tmp`, connecting to upstream agents), the
//! handler says so with a [`ControlStep`], and the caller hands the outcome
//! to the matching `finish_` function.

use vstd::prelude::*;
use vstd::string::StringExecFns;
use crate::clock::{now, Timestamp};
use crate::control::codec::{carries_response, request_in, response_tree};
use crate::control::json::{reads_back, WireError, WireErrorView};
use crate::control::protocol::{
    ControlRequest, ControlRequestView, ControlResponse, ControlResponseView, HealthCheckResult,
    HealthCheckResultView, KeyInfo, KeyInfoView, SocketHealthInfo, SocketHealthInfoView,
    SocketHealthStatus, StatusInfo, StatusInfoView, WatcherStatus, WatcherStatusView,
};
use crate::probe::path_exists;
use crate::socket_manager::{
    dropped, lemma_added_watches, lemma_removed_keeps_disjoint, lemma_retained_watches,
    SocketManager, SocketManagerView,
};
use crate::text::{decimal, join, joined, owned, push_decimal};

verus! {

/// What the control server knows of the daemon besides the registry.
#[derive(Debug)]
pub struct ControlServerState {
    /// Path to the SSH agent listen socket
    pub listen_path: String,
    /// Path to the control socket
    pub control_path: String,
    /// Whether SSH forwarding watch is enabled
    pub watch_enabled: bool,
    /// Current watcher status
    pub watcher_status: WatcherStatus,
    /// Software version
    pub version: String,
    /// Git commit
    pub git_commit: String,
    /// Process ID
    pub pid: u32,
}

/// The mathematical form of a [`ControlServerState`].
pub ghost struct ControlServerStateView {
    pub listen_path: Seq<char>,
    pub control_path: Seq<char>,
    pub watch_enabled: bool,
    pub watcher_status: WatcherStatusView,
    pub version: Seq<char>,
    pub git_commit: Seq<char>,
    pub pid: u32,
}

impl DeepView for ControlServerState {
    type V = ControlServerStateView;

    open spec fn deep_view(&self) -> ControlServerStateView {
        ControlServerStateView {
            listen_path: self.listen_path@,
            control_path: self.control_path@,
            watch_enabled: self.watch_enabled,
            watcher_status: self.watcher_status.deep_view(),
            version: self.version@,
            git_commit: self.git_commit@,
            pid: self.pid,
        }
    }
}

/// What handling a request comes to: a reply, or work for the caller whose
/// outcome decides the reply.
#[derive(Debug)]
pub enum ControlStep {
    /// Send this response.
    Reply(ControlResponse),
    /// Scan `/tmp` for forwarded agents, then call [`finish_reload`].
    Scan,
    /// Probe each of these sockets, in this order, then call
    /// [`finish_health_check`].
    Probe(Vec<String>),
    /// Ask each of these upstream agents, in this order, for its keys, then
    /// call [`finish_list_keys`].
    QueryKeys(Vec<String>),
}

/// The mathematical form of a [`ControlStep`].
pub ghost enum ControlStepView {
    Reply(ControlResponseView),
    Scan,
    Probe(Seq<Seq<char>>),
    QueryKeys(Seq<Seq<char>>),
}

impl DeepView for ControlStep {
    type V = ControlStepView;

    open spec fn deep_view(&self) -> ControlStepView {
        match self {
            ControlStep::Reply(response) => ControlStepView::Reply(response.deep_view()),
            ControlStep::Scan => ControlStepView::Scan,
            ControlStep::Probe(sockets) => ControlStepView::Probe(sockets.deep_view()),
            ControlStep::QueryKeys(sockets) => ControlStepView::QueryKeys(sockets.deep_view()),
        }
    }
}

/// A success response with a message.
pub open spec fn success(message: Seq<char>) -> ControlResponseView {
    ControlResponseView::Success { message: Some(message) }
}

/// An error response.
pub open spec fn failure(error: Seq<char>) -> ControlResponseView {
    ControlResponseView::Error { error }
}

/// The status reported at the instant `at`.
pub open spec fn status_of(
    state: ControlServerStateView,
    m: SocketManagerView,
    at: Timestamp,
) -> StatusInfoView {
    StatusInfoView {
        version: state.version,
        git_commit: state.git_commit,
        uptime_secs: m.started_at.secs_until(at) as u64,
        pid: state.pid,
        listening_on: state.listen_path,
        control_socket: state.control_path,
        watch_enabled: state.watch_enabled,
        watcher_status: state.watcher_status,
        socket_count: m.total(),
        key_count: None,
    }
}

/// Whether a request to add `path` goes through: the path exists and is
/// neither watched nor configured.
pub open spec fn may_add(m: SocketManagerView, path: Seq<char>, exists: bool) -> bool {
    exists && !m.is_watched(path) && !m.is_configured(path)
}

/// The reply to a request to add `path`, where `exists` says whether the
/// path is on disk.
pub open spec fn add_socket_reply(
    m: SocketManagerView,
    path: Seq<char>,
    exists: bool,
) -> ControlResponseView {
    if !exists {
        failure("Socket does not exist: "@ + path)
    } else if m.is_watched(path) || m.is_configured(path) {
        failure("Socket already tracked: "@ + path)
    } else {
        success("Added socket: "@ + path)
    }
}

/// The registry after a request to add `path` at the instant `at`.
pub open spec fn add_socket_state(
    m: SocketManagerView,
    path: Seq<char>,
    exists: bool,
    at: Timestamp,
) -> SocketManagerView {
    if may_add(m, path, exists) {
        m.added(path, at)
    } else {
        m
    }
}

/// The reply to a request to remove `path`.
pub open spec fn remove_socket_reply(m: SocketManagerView, path: Seq<char>) -> ControlResponseView {
    if m.is_configured(path) {
        failure("Cannot remove configured socket: "@ + path + " (edit config file instead)"@)
    } else if m.is_watched(path) {
        success("Removed socket: "@ + path)
    } else {
        failure("Socket not found in watched list: "@ + path)
    }
}

/// The registry after a request to remove `path`: a configured socket stays.
pub open spec fn remove_socket_state(m: SocketManagerView, path: Seq<char>) -> SocketManagerView {
    if m.is_configured(path) {
        m
    } else {
        m.removed(path)
    }
}

/// The reply to a validation that removed the sockets at `removed`.
pub open spec fn validation_reply(removed: Seq<Seq<char>>) -> ControlResponseView {
    if removed.len() == 0 {
        success("All sockets healthy"@)
    } else {
        success(
            "Removed "@ + decimal(removed.len()) + " stale socket(s): "@ + joined(removed, ", "@),
        )
    }
}

/// The reply to a reload that added `added` sockets and removed `removed`.
pub open spec fn reload_reply(added: nat, removed: nat) -> ControlResponseView {
    success("Reload complete: "@ + decimal(added) + " added, "@ + decimal(removed) + " removed"@)
}

/// The registry after each path of `agents` is added in turn, the `i`-th at
/// the instant `times[i]`.
pub open spec fn absorbed(
    m: SocketManagerView,
    agents: Seq<Seq<char>>,
    times: Seq<Timestamp>,
) -> SocketManagerView
    recommends
        times.len() == agents.len(),
    decreases agents.len(),
{
    if agents.len() == 0 {
        m
    } else {
        absorbed(m, agents.drop_last(), times.drop_last()).added(agents.last(), times.last())
    }
}

/// The registry after a reload that found `agents`: each is added in turn,
/// then the watched sockets not marked in `present` are dropped.
pub open spec fn reloaded(
    m: SocketManagerView,
    agents: Seq<Seq<char>>,
    times: Seq<Timestamp>,
    present: Seq<bool>,
) -> SocketManagerView {
    absorbed(m, agents, times).retained(present)
}

/// How many paths of `agents` are new to the registry when added in turn.
pub open spec fn newly_added(m: SocketManagerView, agents: Seq<Seq<char>>, times: Seq<Timestamp>) -> nat
    recommends
        times.len() == agents.len(),
    decreases agents.len(),
{
    if agents.len() == 0 {
        0
    } else {
        let before = newly_added(m, agents.drop_last(), times.drop_last());
        if absorbed(m, agents.drop_last(), times.drop_last()).is_watched(agents.last()) {
            before
        } else {
            before + 1
        }
    }
}

/// How many of `sockets` have the status `healthy`.
pub open spec fn healthy_among(sockets: Seq<SocketHealthInfoView>) -> nat
    decreases sockets.len(),
{
    if sockets.len() == 0 {
        0
    } else if sockets.last().status == SocketHealthStatus::Healthy {
        healthy_among(sockets.drop_last()) + 1
    } else {
        healthy_among(sockets.drop_last())
    }
}

/// The result of a health check that probed `sockets` and then removed the
/// sockets at `removed`.
pub open spec fn health_result(
    sockets: Seq<SocketHealthInfoView>,
    removed: Seq<Seq<char>>,
) -> HealthCheckResultView {
    HealthCheckResultView {
        sockets,
        healthy_count: healthy_among(sockets) as usize,
        unhealthy_count: (sockets.len() - healthy_among(sockets)) as usize,
        removed,
    }
}

fn text_with(prefix: &str, rest: &str) -> (text: String)
    ensures
        text@ == prefix@ + rest@,
{
    let mut text = owned(prefix);
    text.append(rest);
    text
}

fn success_with(prefix: &str, rest: &str) -> (response: ControlResponse)
    ensures
        response.deep_view() == success(prefix@ + rest@),
{
    ControlResponse::Success { message: Some(text_with(prefix, rest)) }
}

fn failure_with(prefix: &str, rest: &str) -> (response: ControlResponse)
    ensures
        response.deep_view() == failure(prefix@ + rest@),
{
    ControlResponse::Error { error: text_with(prefix, rest) }
}

/// The status of the daemon at the instant `at`.
pub fn status_info(
    state: &ControlServerState,
    manager: &SocketManager,
    at: &Timestamp,
) -> (info: StatusInfo)
    ensures
        info.deep_view() == status_of(state.deep_view(), manager@, *at),
{
    StatusInfo {
        version: state.version.clone(),
        git_commit: state.git_commit.clone(),
        uptime_secs: manager.uptime_secs_at(at),
        pid: state.pid,
        listening_on: state.listen_path.clone(),
        control_socket: state.control_path.clone(),
        watch_enabled: state.watch_enabled,
        watcher_status: state.watcher_status.duplicate(),
        socket_count: manager.total_count(),
        key_count: None,
    }
}

/// Adds `path` to the watched sockets if it exists on disk, as `exists`
/// says, and is not tracked yet, stamped with the instant `at`.
pub fn add_socket(
    manager: &mut SocketManager,
    path: String,
    exists: bool,
    at: Timestamp,
) -> (response: ControlResponse)
    ensures
        response.deep_view() == add_socket_reply(old(manager)@, path@, exists),
        final(manager)@ == add_socket_state(old(manager)@, path@, exists, at),
{
    if !exists {
        return failure_with("Socket does not exist: ", path.as_str());
    }
    if manager.is_watched(path.as_str()) || manager.is_configured(path.as_str()) {
        return failure_with("Socket already tracked: ", path.as_str());
    }
    let response = success_with("Added socket: ", path.as_str());
    manager.add_watched_at(path, at);
    response
}

/// Removes `path` from the watched sockets; refuses a configured socket.
pub fn remove_socket(manager: &mut SocketManager, path: &str) -> (response: ControlResponse)
    ensures
        response.deep_view() == remove_socket_reply(old(manager)@, path@),
        final(manager)@ == remove_socket_state(old(manager)@, path@),
{
    if manager.is_configured(path) {
        let mut error = text_with("Cannot remove configured socket: ", path);
        error.append(" (edit config file instead)");
        return ControlResponse::Error { error };
    }
    if manager.remove_watched(path) {
        success_with("Removed socket: ", path)
    } else {
        failure_with("Socket not found in watched list: ", path)
    }
}

/// The reply to a validation that removed the sockets at `removed`.
pub fn validation_response(removed: &Vec<String>) -> (response: ControlResponse)
    ensures
        response.deep_view() == validation_reply(removed.deep_view()),
{
    assert(removed.deep_view().len() == removed.len());
    if removed.len() == 0 {
        ControlResponse::Success { message: Some(owned("All sockets healthy")) }
    } else {
        let mut message = owned("Removed ");
        push_decimal(&mut message, removed.len() as u64);
        message.append(" stale socket(s): ");
        let listed = join(removed, ", ");
        message.append(listed.as_str());
        ControlResponse::Success { message: Some(message) }
    }
}

/// Drops the watched sockets not marked in `present`, which has one mark for
/// each watched socket in order, and reports what was removed.
pub fn validate_sockets(
    manager: &mut SocketManager,
    present: &Vec<bool>,
) -> (response: ControlResponse)
    requires
        present.len() == old(manager)@.watched.len(),
    ensures
        response.deep_view() == validation_reply(dropped(old(manager)@.watched, present@)),
        final(manager)@ == old(manager)@.retained(present@),
{
    let removed = manager.retain_present(present);
    validation_response(&removed)
}

/// The reply to a reload that added `added` sockets and removed `removed`.
pub fn reload_response(added: usize, removed: usize) -> (response: ControlResponse)
    ensures
        response.deep_view() == reload_reply(added as nat, removed as nat),
{
    let mut message = owned("Reload complete: ");
    push_decimal(&mut message, added as u64);
    message.append(" added, ");
    push_decimal(&mut message, removed as u64);
    message.append(" removed");
    ControlResponse::Success { message: Some(message) }
}

/// What handling `request` must come to: the registry `after` and the step
/// taken, given the registry `before`.
///
/// `Ping`, `Status`, `ListSockets`, `ListKeys` and `HealthCheck` leave the
/// registry as it is, and so does `Reload`, which is refused unless watching
/// is enabled.  `Status` reports the uptime at some instant; `ListSockets`
/// and `ValidateSockets` go by some answer of the disk for each socket;
/// `AddSocket` goes by some answer of the disk for its path and stamps the
/// socket with some instant.
pub open spec fn request_handled(
    request: ControlRequestView,
    state: ControlServerStateView,
    before: SocketManagerView,
    after: SocketManagerView,
    step: ControlStepView,
) -> bool {
    match request {
        ControlRequestView::Ping => {
            &&& step == ControlStepView::Reply(ControlResponseView::Pong)
            &&& after == before
        },
        ControlRequestView::Status => {
            &&& exists|at: Timestamp|
                step == ControlStepView::Reply(
                    ControlResponseView::Status(#[trigger] status_of(state, before, at)),
                )
            &&& after == before
        },
        ControlRequestView::ListSockets => {
            &&& exists|present: Seq<bool>|
                present.len() == before.watched.len() + before.configured.len() && step
                    == ControlStepView::Reply(
                    ControlResponseView::Sockets { sockets: #[trigger] before.socket_infos(present) },
                )
            &&& after == before
        },
        ControlRequestView::ListKeys => {
            &&& step == ControlStepView::QueryKeys(before.ordered_paths())
            &&& after == before
        },
        ControlRequestView::Reload => {
            &&& step == if state.watch_enabled {
                ControlStepView::Scan
            } else {
                ControlStepView::Reply(failure("SSH forwarding watch is not enabled"@))
            }
            &&& after == before
        },
        ControlRequestView::ValidateSockets => exists|present: Seq<bool>|
            {
                &&& present.len() == before.watched.len()
                &&& after == #[trigger] before.retained(present)
                &&& step == ControlStepView::Reply(
                    validation_reply(dropped(before.watched, present)),
                )
            },
        ControlRequestView::AddSocket { path } => exists|exists: bool, at: Timestamp|
            {
                &&& after == #[trigger] add_socket_state(before, path, exists, at)
                &&& step == ControlStepView::Reply(add_socket_reply(before, path, exists))
            },
        ControlRequestView::RemoveSocket { path } => {
            &&& after == remove_socket_state(before, path)
            &&& step == ControlStepView::Reply(remove_socket_reply(before, path))
        },
        ControlRequestView::HealthCheck => {
            &&& step == ControlStepView::Probe(before.ordered_paths())
            &&& after == before
        },
    }
}

/// Handle a single control request.
///
/// `Ping`, `Status`, `ListSockets`, `ValidateSockets`, `AddSocket` and
/// `RemoveSocket` are answered at once; the clock is read for `Status` and
/// `AddSocket`, and the disk is probed for `ListSockets`, `ValidateSockets`
/// and `AddSocket`.  `Reload`, `HealthCheck` and `ListKeys` hand work to the
/// caller.
pub fn handle_request(
    request: ControlRequest,
    state: &ControlServerState,
    manager: &mut SocketManager,
) -> (step: ControlStep)
    ensures
        request_handled(
            request.deep_view(),
            state.deep_view(),
            old(manager)@,
            final(manager)@,
            step.deep_view(),
        ),
{
    let ghost asked = request.deep_view();
    let ghost before = manager@;
    match request {
        ControlRequest::Ping => ControlStep::Reply(ControlResponse::Pong),
        ControlRequest::Status => {
            let at = now();
            let step = ControlStep::Reply(ControlResponse::Status(status_info(state, manager, &at)));
            assert(step.deep_view() == ControlStepView::Reply(
                ControlResponseView::Status(status_of(state.deep_view(), before, at)),
            ));
            step
        },
        ControlRequest::ListSockets => {
            let step = ControlStep::Reply(
                ControlResponse::Sockets { sockets: manager.get_socket_info() },
            );
            assert(request_handled(asked, state.deep_view(), before, manager@, step.deep_view()));
            step
        },
        ControlRequest::ListKeys => ControlStep::QueryKeys(manager.get_ordered_sockets()),
        ControlRequest::Reload => {
            if !state.watch_enabled {
                ControlStep::Reply(
                    ControlResponse::Error { error: owned("SSH forwarding watch is not enabled") },
                )
            } else {
                ControlStep::Scan
            }
        },
        ControlRequest::ValidateSockets => {
            let removed = manager.validate_and_cleanup();
            let step = ControlStep::Reply(validation_response(&removed));
            assert(request_handled(asked, state.deep_view(), before, manager@, step.deep_view()));
            step
        },
        ControlRequest::AddSocket { path } => {
            let exists = path_exists(path.as_str());
            let at = now();
            let step = ControlStep::Reply(add_socket(manager, path, exists, at));
            assert(manager@ == add_socket_state(before, path@, exists, at));
            assert(request_handled(asked, state.deep_view(), before, manager@, step.deep_view()));
            step
        },
        ControlRequest::RemoveSocket { path } => {
            ControlStep::Reply(remove_socket(manager, path.as_str()))
        },
        ControlRequest::HealthCheck => ControlStep::Probe(manager.get_ordered_sockets()),
    }
}

/// No request makes a path both watched and configured, and no request
/// changes the configured sockets.
pub proof fn lemma_requests_keep_disjoint(
    request: ControlRequestView,
    state: ControlServerStateView,
    before: SocketManagerView,
    after: SocketManagerView,
    step: ControlStepView,
)
    requires
        before.disjoint(),
        request_handled(request, state, before, after, step),
    ensures
        after.disjoint(),
        after.configured == before.configured,
{
    match request {
        ControlRequestView::ValidateSockets => {
            let present = choose|present: Seq<bool>|
                {
                    &&& present.len() == before.watched.len()
                    &&& after == #[trigger] before.retained(present)
                    &&& step == ControlStepView::Reply(
                        validation_reply(dropped(before.watched, present)),
                    )
                };
            lemma_retained_keeps_disjoint(before, present);
        },
        ControlRequestView::AddSocket { path } => {
            let (exists, at) = choose|exists: bool, at: Timestamp|
                {
                    &&& after == #[trigger] add_socket_state(before, path, exists, at)
                    &&& step == ControlStepView::Reply(add_socket_reply(before, path, exists))
                };
            lemma_add_socket_keeps_disjoint(before, path, exists, at);
        },
        ControlRequestView::RemoveSocket { path } => {
            lemma_remove_socket_keeps_disjoint(before, path);
        },
        _ => {},
    }
}

/// Adds each path of `agents` to the watched sockets in turn, each stamped
/// with the system clock, and returns how many were new.
pub fn absorb_agents(manager: &mut SocketManager, agents: &Vec<String>) -> (added: usize)
    ensures
        exists|times: Seq<Timestamp>|
            times.len() == agents.len() && final(manager)@ == #[trigger] absorbed(
                old(manager)@,
                agents.deep_view(),
                times,
            ) && added == newly_added(old(manager)@, agents.deep_view(), times),
{
    let mut added: usize = 0;
    let mut i: usize = 0;
    let ghost mut times: Seq<Timestamp> = Seq::empty();
    while i < agents.len()
        invariant
            i <= agents.len(),
            added <= i,
            times.len() == i,
            manager@ == absorbed(old(manager)@, agents.deep_view().take(i as int), times),
            added == newly_added(old(manager)@, agents.deep_view().take(i as int), times),
        decreases agents.len() - i,
    {
        let at = now();
        let fresh = manager.add_watched_at(agents[i].clone(), at);
        proof {
            let next = agents.deep_view().take(i + 1);
            assert(next.drop_last() =~= agents.deep_view().take(i as int));
            assert(next.last() == agents.deep_view()[i as int]);
            assert(times.push(at).drop_last() =~= times);
            times = times.push(at);
        }
        if fresh {
            added += 1;
        }
        i += 1;
    }
    assert(agents.deep_view().take(agents.len() as int) =~= agents.deep_view());
    added
}

/// Completes a reload with the outcome of the scan: the agents found, or
/// the reason the scan failed.  Agents found are added to the watched
/// sockets, then watched sockets whose path is gone are removed.
pub fn finish_reload(
    manager: &mut SocketManager,
    scan: Result<Vec<String>, String>,
) -> (response: ControlResponse)
    ensures
        match scan {
            Ok(agents) => exists|times: Seq<Timestamp>, present: Seq<bool>|
                {
                    &&& times.len() == agents.len()
                    &&& present.len() == absorbed(
                        old(manager)@,
                        agents.deep_view(),
                        times,
                    ).watched.len()
                    &&& final(manager)@ == #[trigger] reloaded(
                        old(manager)@,
                        agents.deep_view(),
                        times,
                        present,
                    )
                    &&& response.deep_view() == reload_reply(
                        newly_added(old(manager)@, agents.deep_view(), times),
                        dropped(
                            absorbed(old(manager)@, agents.deep_view(), times).watched,
                            present,
                        ).len(),
                    )
                },
            Err(reason) => {
                &&& final(manager)@ == old(manager)@
                &&& response.deep_view() == failure("Failed to scan for agents: "@ + reason@)
            },
        },
{
    match scan {
        Ok(agents) => {
            let added = absorb_agents(manager, &agents);
            let ghost grown = manager@;
            let removed = manager.validate_and_cleanup();
            assert(removed.deep_view().len() == removed.len());
            let response = reload_response(added, removed.len());
            proof {
                let times = choose|times: Seq<Timestamp>|
                    times.len() == agents.len() && grown == #[trigger] absorbed(
                        old(manager)@,
                        agents.deep_view(),
                        times,
                    ) && added == newly_added(old(manager)@, agents.deep_view(), times);
                let present = choose|present: Seq<bool>|
                    present.len() == grown.watched.len() && manager@ == #[trigger] grown.retained(
                        present,
                    ) && removed.deep_view() == dropped(grown.watched, present);
                assert(manager@ == reloaded(old(manager)@, agents.deep_view(), times, present));
            }
            response
        },
        Err(reason) => failure_with("Failed to scan for agents: ", reason.as_str()),
    }
}

/// What probing one upstream socket came to.
#[derive(Debug)]
pub enum ProbeOutcome {
    /// Nothing exists at the path
    Missing,
    /// Connecting failed, with the reason
    ConnectionFailed(String),
    /// The connection did not speak the agent protocol, with the reason
    ProtocolError(String),
    /// The agent did not list its keys, with the reason
    QueryFailed(String),
    /// The agent answered; the number of its keys where they were counted
    Healthy(Option<usize>),
}

/// The mathematical form of a [`ProbeOutcome`].
pub ghost enum ProbeOutcomeView {
    Missing,
    ConnectionFailed(Seq<char>),
    ProtocolError(Seq<char>),
    QueryFailed(Seq<char>),
    Healthy(Option<usize>),
}

impl DeepView for ProbeOutcome {
    type V = ProbeOutcomeView;

    open spec fn deep_view(&self) -> ProbeOutcomeView {
        match self {
            ProbeOutcome::Missing => ProbeOutcomeView::Missing,
            ProbeOutcome::ConnectionFailed(reason) => ProbeOutcomeView::ConnectionFailed(reason@),
            ProbeOutcome::ProtocolError(reason) => ProbeOutcomeView::ProtocolError(reason@),
            ProbeOutcome::QueryFailed(reason) => ProbeOutcomeView::QueryFailed(reason@),
            ProbeOutcome::Healthy(keys) => ProbeOutcomeView::Healthy(*keys),
        }
    }
}

/// The health reported for the socket at `path` after a probe.
pub open spec fn health_of(path: Seq<char>, outcome: ProbeOutcomeView) -> SocketHealthInfoView {
    match outcome {
        ProbeOutcomeView::Missing => SocketHealthInfoView {
            path,
            status: SocketHealthStatus::Missing,
            key_count: None,
            error: Some("Socket file does not exist"@),
        },
        ProbeOutcomeView::ConnectionFailed(reason) => SocketHealthInfoView {
            path,
            status: SocketHealthStatus::ConnectionFailed,
            key_count: None,
            error: Some("Connection failed: "@ + reason),
        },
        ProbeOutcomeView::ProtocolError(reason) => SocketHealthInfoView {
            path,
            status: SocketHealthStatus::ProtocolError,
            key_count: None,
            error: Some("Protocol error: "@ + reason),
        },
        ProbeOutcomeView::QueryFailed(reason) => SocketHealthInfoView {
            path,
            status: SocketHealthStatus::QueryFailed,
            key_count: None,
            error: Some("Query failed: "@ + reason),
        },
        ProbeOutcomeView::Healthy(keys) => SocketHealthInfoView {
            path,
            status: SocketHealthStatus::Healthy,
            key_count: keys,
            error: None,
        },
    }
}

/// The health to report for the socket at `path` after a probe.
pub fn check_socket_health(path: &str, outcome: &ProbeOutcome) -> (info: SocketHealthInfo)
    ensures
        info.deep_view() == health_of(path@, outcome.deep_view()),
{
    match outcome {
        ProbeOutcome::Missing => SocketHealthInfo {
            path: owned(path),
            status: SocketHealthStatus::Missing,
            key_count: None,
            error: Some(owned("Socket file does not exist")),
        },
        ProbeOutcome::ConnectionFailed(reason) => SocketHealthInfo {
            path: owned(path),
            status: SocketHealthStatus::ConnectionFailed,
            key_count: None,
            error: Some(text_with("Connection failed: ", reason.as_str())),
        },
        ProbeOutcome::ProtocolError(reason) => SocketHealthInfo {
            path: owned(path),
            status: SocketHealthStatus::ProtocolError,
            key_count: None,
            error: Some(text_with("Protocol error: ", reason.as_str())),
        },
        ProbeOutcome::QueryFailed(reason) => SocketHealthInfo {
            path: owned(path),
            status: SocketHealthStatus::QueryFailed,
            key_count: None,
            error: Some(text_with("Query failed: ", reason.as_str())),
        },
        ProbeOutcome::Healthy(keys) => SocketHealthInfo {
            path: owned(path),
            status: SocketHealthStatus::Healthy,
            key_count: *keys,
            error: None,
        },
    }
}

/// Sums up a health check: the health of each socket as probed, how many
/// are healthy and how many are not, and the paths removed afterwards.
pub fn health_check_result(
    sockets: Vec<SocketHealthInfo>,
    removed: Vec<String>,
) -> (result: HealthCheckResult)
    ensures
        result.deep_view() == health_result(sockets.deep_view(), removed.deep_view()),
        result.healthy_count + result.unhealthy_count == sockets.len(),
{
    let mut healthy: usize = 0;
    let mut i: usize = 0;
    while i < sockets.len()
        invariant
            i <= sockets.len(),
            healthy <= i,
            healthy == healthy_among(sockets.deep_view().take(i as int)),
        decreases sockets.len() - i,
    {
        assert(sockets.deep_view().take(i + 1).drop_last() =~= sockets.deep_view().take(i as int));
        assert(sockets.deep_view().take(i + 1).last() == sockets@[i as int].deep_view());
        match sockets[i].status {
            SocketHealthStatus::Healthy => {
                healthy += 1;
            },
            _ => {},
        }
        i += 1;
    }
    assert(sockets.deep_view().take(sockets.len() as int) =~= sockets.deep_view());
    assert(sockets.deep_view().len() == sockets.len());
    let unhealthy = sockets.len() - healthy;
    HealthCheckResult { sockets, healthy_count: healthy, unhealthy_count: unhealthy, removed }
}

/// Completes a health check with the health of each socket as probed: drops
/// the watched sockets whose path is gone and reports the whole.
pub fn finish_health_check(
    manager: &mut SocketManager,
    sockets: Vec<SocketHealthInfo>,
) -> (response: ControlResponse)
    ensures
        exists|present: Seq<bool>|
            {
                &&& present.len() == old(manager)@.watched.len()
                &&& final(manager)@ == #[trigger] old(manager)@.retained(present)
                &&& response.deep_view() == ControlResponseView::HealthCheck(
                    health_result(sockets.deep_view(), dropped(old(manager)@.watched, present)),
                )
            },
{
    let removed = manager.validate_and_cleanup();
    ControlResponse::HealthCheck(health_check_result(sockets, removed))
}

/// A key as an upstream agent lists it.
#[derive(Debug, Clone)]
pub struct AgentKey {
    /// Key fingerprint (SHA256:...)
    pub fingerprint: String,
    /// Key type (ed25519, rsa, ecdsa, etc.)
    pub key_type: String,
    /// Key size in bits (if applicable)
    pub bits: Option<u32>,
    /// Key comment
    pub comment: String,
}

/// The mathematical form of an [`AgentKey`].
pub ghost struct AgentKeyView {
    pub fingerprint: Seq<char>,
    pub key_type: Seq<char>,
    pub bits: Option<u32>,
    pub comment: Seq<char>,
}

impl DeepView for AgentKey {
    type V = AgentKeyView;

    open spec fn deep_view(&self) -> AgentKeyView {
        AgentKeyView {
            fingerprint: self.fingerprint@,
            key_type: self.key_type@,
            bits: self.bits,
            comment: self.comment@,
        }
    }
}

/// What one upstream agent answered when asked for its keys.
#[derive(Debug, Clone)]
pub struct UpstreamKeys {
    /// The path of the upstream socket
    pub socket: String,
    /// The keys it listed, or `None` where it could not be asked
    pub keys: Option<Vec<AgentKey>>,
}

/// The mathematical form of an [`UpstreamKeys`].
pub ghost struct UpstreamKeysView {
    pub socket: Seq<char>,
    pub keys: Option<Seq<AgentKeyView>>,
}

impl DeepView for UpstreamKeys {
    type V = UpstreamKeysView;

    open spec fn deep_view(&self) -> UpstreamKeysView {
        UpstreamKeysView { socket: self.socket@, keys: self.keys.deep_view() }
    }
}

/// The keys of one upstream, each tagged with the socket it came from.
pub open spec fn tagged(socket: Seq<char>, keys: Seq<AgentKeyView>) -> Seq<KeyInfoView> {
    Seq::new(
        keys.len(),
        |i: int|
            KeyInfoView {
                fingerprint: keys[i].fingerprint,
                key_type: keys[i].key_type,
                bits: keys[i].bits,
                comment: keys[i].comment,
                source_socket: socket,
            },
    )
}

/// The keys of all upstreams that answered, in the order of the upstreams
/// and within each in the order listed.  Keys that several upstreams hold
/// appear once for each.
pub open spec fn keys_listed(replies: Seq<UpstreamKeysView>) -> Seq<KeyInfoView>
    decreases replies.len(),
{
    if replies.len() == 0 {
        Seq::empty()
    } else {
        let before = keys_listed(replies.drop_last());
        match replies.last().keys {
            Some(keys) => before + tagged(replies.last().socket, keys),
            None => before,
        }
    }
}

/// Completes a listing of keys with what each upstream answered.
pub fn finish_list_keys(replies: &Vec<UpstreamKeys>) -> (response: ControlResponse)
    ensures
        response.deep_view() == (ControlResponseView::Keys {
            keys: keys_listed(replies.deep_view()),
        }),
{
    let mut listed: Vec<KeyInfo> = Vec::new();
    let mut i: usize = 0;
    assert(listed.deep_view() =~= Seq::empty());
    while i < replies.len()
        invariant
            i <= replies.len(),
            listed.deep_view() == keys_listed(replies.deep_view().take(i as int)),
        decreases replies.len() - i,
    {
        assert(replies.deep_view().take(i + 1).drop_last() =~= replies.deep_view().take(i as int));
        assert(replies.deep_view().take(i + 1).last() == replies@[i as int].deep_view());
        let reply = &replies[i];
        match &reply.keys {
            Some(keys) => {
                let ghost before = listed.deep_view();
                let mut j: usize = 0;
                assert(listed.deep_view() =~= before + tagged(reply.socket@, keys.deep_view()).take(0));
                while j < keys.len()
                    invariant
                        j <= keys.len(),
                        listed.deep_view() == before + tagged(reply.socket@, keys.deep_view()).take(
                            j as int,
                        ),
                    decreases keys.len() - j,
                {
                    let ghost sofar = listed.deep_view();
                    let key = &keys[j];
                    listed.push(
                        KeyInfo {
                            fingerprint: key.fingerprint.clone(),
                            key_type: key.key_type.clone(),
                            bits: key.bits,
                            comment: key.comment.clone(),
                            source_socket: reply.socket.clone(),
                        },
                    );
                    assert(listed.deep_view() =~= sofar.push(
                        tagged(reply.socket@, keys.deep_view())[j as int],
                    ));
                    assert(listed.deep_view() =~= before + tagged(
                        reply.socket@,
                        keys.deep_view(),
                    ).take(j + 1));
                    j += 1;
                }
                assert(tagged(reply.socket@, keys.deep_view()).take(keys.len() as int) =~= tagged(
                    reply.socket@,
                    keys.deep_view(),
                ));
            },
            None => {},
        }
        i += 1;
    }
    assert(replies.deep_view().take(replies.len() as int) =~= replies.deep_view());
    ControlResponse::Keys { keys: listed }
}

/// A request to add a socket never makes a path both watched and configured.
pub proof fn lemma_add_socket_keeps_disjoint(
    m: SocketManagerView,
    path: Seq<char>,
    exists: bool,
    at: Timestamp,
)
    requires
        m.disjoint(),
    ensures
        add_socket_state(m, path, exists, at).disjoint(),
        add_socket_state(m, path, exists, at).configured == m.configured,
{
    let after = add_socket_state(m, path, exists, at);
    assert forall|other: Seq<char>| !(after.is_watched(other) && after.is_configured(other)) by {
        lemma_added_watches(m, path, at, other);
        assert(!(m.is_watched(other) && m.is_configured(other)));
    }
}

/// A request to remove a socket never touches the configured sockets and
/// never makes a path both watched and configured.
pub proof fn lemma_remove_socket_keeps_disjoint(m: SocketManagerView, path: Seq<char>)
    requires
        m.disjoint(),
    ensures
        remove_socket_state(m, path).disjoint(),
        remove_socket_state(m, path).configured == m.configured,
{
    lemma_removed_keeps_disjoint(m, path);
}

/// Dropping watched sockets never touches the configured sockets and never
/// makes a path both watched and configured.
pub proof fn lemma_retained_keeps_disjoint(m: SocketManagerView, present: Seq<bool>)
    requires
        m.disjoint(),
        present.len() == m.watched.len(),
    ensures
        m.retained(present).disjoint(),
        m.retained(present).configured == m.configured,
{
    let after = m.retained(present);
    assert forall|other: Seq<char>| !(after.is_watched(other) && after.is_configured(other)) by {
        lemma_retained_watches(m, present, other);
        assert(!(m.is_watched(other) && m.is_configured(other)));
    }
}

/// What handling one line of a control connection comes to.
#[derive(Debug)]
pub enum LineStep {
    /// Write this line, which ends in a newline, and read on.
    Send(String),
    /// Scan `/tmp` for forwarded agents, call [`finish_reload`], and send
    /// the [`response_line`] of what it returns.
    Scan,
    /// Probe each of these sockets, call [`finish_health_check`], and send
    /// the [`response_line`] of what it returns.
    Probe(Vec<String>),
    /// Ask each of these upstream agents for its keys, call
    /// [`finish_list_keys`], and send the [`response_line`] of what it
    /// returns.
    QueryKeys(Vec<String>),
    /// The response could not be written as JSON: give up the connection.
    Fail(WireError),
}

/// The mathematical form of a [`LineStep`].
pub ghost enum LineStepView {
    Send(Seq<char>),
    Scan,
    Probe(Seq<Seq<char>>),
    QueryKeys(Seq<Seq<char>>),
    Fail(WireErrorView),
}

impl DeepView for LineStep {
    type V = LineStepView;

    open spec fn deep_view(&self) -> LineStepView {
        match self {
            LineStep::Send(line) => LineStepView::Send(line@),
            LineStep::Scan => LineStepView::Scan,
            LineStep::Probe(sockets) => LineStepView::Probe(sockets.deep_view()),
            LineStep::QueryKeys(sockets) => LineStepView::QueryKeys(sockets.deep_view()),
            LineStep::Fail(error) => LineStepView::Fail(error.deep_view()),
        }
    }
}

/// Whether `out` is what sending `response` comes to: the line that carries
/// the response, or, only where the response cannot be written as text that
/// reads as the response again, a failure.
pub open spec fn sends(response: ControlResponseView, out: LineStepView) -> bool {
    match out {
        LineStepView::Send(line) => carries_response(line, response),
        LineStepView::Fail(error) => error is Unwritable && !reads_back(
            response_tree(response),
        ),
        _ => false,
    }
}

/// Whether `out` is the step on the line that the step on the request comes
/// to.
pub open spec fn line_step_fits(step: ControlStepView, out: LineStepView) -> bool {
    match step {
        ControlStepView::Reply(response) => sends(response, out),
        ControlStepView::Scan => out == LineStepView::Scan,
        ControlStepView::Probe(sockets) => out == LineStepView::Probe(sockets),
        ControlStepView::QueryKeys(sockets) => out == LineStepView::QueryKeys(sockets),
    }
}

/// The line that carries `response`: its JSON text, which reads as the
/// response, and a newline.
pub fn response_line(response: &ControlResponse) -> (outcome: Result<String, WireError>)
    ensures
        match outcome {
            Ok(line) => carries_response(line@, response.deep_view()),
            Err(error) => error is Unwritable && !reads_back(
                response_tree(response.deep_view()),
            ),
        },
{
    response.to_line()
}

fn send(response: &ControlResponse) -> (step: LineStep)
    ensures
        sends(response.deep_view(), step.deep_view()),
{
    match response_line(response) {
        Ok(line) => LineStep::Send(line),
        Err(error) => LineStep::Fail(error),
    }
}

/// Handles one line of a control connection: reads the request it carries,
/// handles it, and makes the line to answer with.  A line that carries no
/// request leaves the registry as it is and is answered with an error that
/// begins `Invalid request: `; the connection goes on.  The step fails only
/// where the answer cannot be written as text that reads as the answer again.
pub fn handle_line(
    line: &str,
    state: &ControlServerState,
    manager: &mut SocketManager,
) -> (outcome: LineStep)
    ensures
        match request_in(line@) {
            Some(request) => exists|step: ControlStepView|
                #[trigger] request_handled(
                    request,
                    state.deep_view(),
                    old(manager)@,
                    final(manager)@,
                    step,
                ) && line_step_fits(step, outcome.deep_view()),
            None => final(manager)@ == old(manager)@ && exists|reason: Seq<char>|
                sends(#[trigger] failure("Invalid request: "@ + reason), outcome.deep_view()),
        },
{
    match ControlRequest::from_json(line) {
        Ok(request) => {
            let ghost asked = request.deep_view();
            let step = handle_request(request, state, manager);
            let ghost taken = step.deep_view();
            let outcome = match step {
                ControlStep::Reply(response) => send(&response),
                ControlStep::Scan => LineStep::Scan,
                ControlStep::Probe(sockets) => LineStep::Probe(sockets),
                ControlStep::QueryKeys(sockets) => LineStep::QueryKeys(sockets),
            };
            assert(request_handled(asked, state.deep_view(), old(manager)@, manager@, taken)
                && line_step_fits(taken, outcome.deep_view()));
            outcome
        },
        Err(error) => {
            let reason = error.to_text();
            let response = failure_with("Invalid request: ", reason.as_str());
            assert(response.deep_view() == failure("Invalid request: "@ + reason@));
            send(&response)
        },
    }
}

} // verus!
