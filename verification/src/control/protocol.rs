//! Control protocol types for communication between a client and the daemon.
//!
//! Every type has a mathematical counterpart, reached by `deep_view()`, in
//! which strings are sequences of characters and vectors are sequences; the
//! contracts of the crate are stated over those.

use vstd::prelude::*;
use crate::text::owned;
use vstd::string::StringExecFns;

verus! {

/// Request types sent from a client to the daemon.
#[derive(Debug, Clone, PartialEq, Eq)]
pub enum ControlRequest {
    /// Get daemon status (uptime, version, config)
    Status,
    /// List all upstream agent sockets with metadata
    ListSockets,
    /// List all available SSH keys with source info
    ListKeys,
    /// Re-scan /tmp for forwarded agents
    Reload,
    /// Validate all sockets, remove unreachable ones
    ValidateSockets,
    /// Remove a specific socket from the watched list
    RemoveSocket { path: String },
    /// Add a socket to the watched list
    AddSocket { path: String },
    /// Full health check: validate + query keys from each socket
    HealthCheck,
    /// Ping (for connection testing / liveness check)
    Ping,
}

/// The mathematical form of a [`ControlRequest`].
pub ghost enum ControlRequestView {
    Status,
    ListSockets,
    ListKeys,
    Reload,
    ValidateSockets,
    RemoveSocket { path: Seq<char> },
    AddSocket { path: Seq<char> },
    HealthCheck,
    Ping,
}

impl DeepView for ControlRequest {
    type V = ControlRequestView;

    open spec fn deep_view(&self) -> ControlRequestView {
        match self {
            ControlRequest::Status => ControlRequestView::Status,
            ControlRequest::ListSockets => ControlRequestView::ListSockets,
            ControlRequest::ListKeys => ControlRequestView::ListKeys,
            ControlRequest::Reload => ControlRequestView::Reload,
            ControlRequest::ValidateSockets => ControlRequestView::ValidateSockets,
            ControlRequest::RemoveSocket { path } => ControlRequestView::RemoveSocket { path: path@ },
            ControlRequest::AddSocket { path } => ControlRequestView::AddSocket { path: path@ },
            ControlRequest::HealthCheck => ControlRequestView::HealthCheck,
            ControlRequest::Ping => ControlRequestView::Ping,
        }
    }
}

/// Source of a socket (how it was added).
#[derive(Debug, Clone, Copy, PartialEq, Eq, Structural)]
pub enum SocketSource {
    /// Socket was configured in config file or CLI args
    Configured,
    /// Socket was detected by watching /tmp or added at run time
    Watched,
}

impl DeepView for SocketSource {
    type V = SocketSource;

    open spec fn deep_view(&self) -> SocketSource {
        *self
    }
}

impl SocketSource {
    /// The word shown for this source, which is also its name on the wire.
    pub open spec fn text(self) -> Seq<char> {
        match self {
            SocketSource::Configured => "configured"@,
            SocketSource::Watched => "watched"@,
        }
    }

    /// The word shown for this source: `configured` or `watched`.
    pub fn to_text(&self) -> (text: String)
        ensures
            text@ == self.text(),
    {
        match self {
            SocketSource::Configured => owned("configured"),
            SocketSource::Watched => owned("watched"),
        }
    }
}

/// Health status of a socket.
#[derive(Debug, Clone, Copy, PartialEq, Eq, Structural)]
pub enum SocketHealthStatus {
    /// Socket is healthy and responding
    Healthy,
    /// Socket file is missing
    Missing,
    /// Socket exists but connection failed
    ConnectionFailed,
    /// Connected but protocol error occurred
    ProtocolError,
    /// Connected but failed to query keys
    QueryFailed,
}

impl DeepView for SocketHealthStatus {
    type V = SocketHealthStatus;

    open spec fn deep_view(&self) -> SocketHealthStatus {
        *self
    }
}

impl SocketHealthStatus {
    /// The words shown to a person for this status.
    pub open spec fn text(self) -> Seq<char> {
        match self {
            SocketHealthStatus::Healthy => "healthy"@,
            SocketHealthStatus::Missing => "missing"@,
            SocketHealthStatus::ConnectionFailed => "connection failed"@,
            SocketHealthStatus::ProtocolError => "protocol error"@,
            SocketHealthStatus::QueryFailed => "query failed"@,
        }
    }

    /// The name of this status on the wire, in snake case.
    pub open spec fn wire_name(self) -> Seq<char> {
        match self {
            SocketHealthStatus::Healthy => "healthy"@,
            SocketHealthStatus::Missing => "missing"@,
            SocketHealthStatus::ConnectionFailed => "connection_failed"@,
            SocketHealthStatus::ProtocolError => "protocol_error"@,
            SocketHealthStatus::QueryFailed => "query_failed"@,
        }
    }

    /// The words shown to a person for this status, such as `connection failed`.
    pub fn to_text(&self) -> (text: String)
        ensures
            text@ == self.text(),
    {
        match self {
            SocketHealthStatus::Healthy => owned("healthy"),
            SocketHealthStatus::Missing => owned("missing"),
            SocketHealthStatus::ConnectionFailed => owned("connection failed"),
            SocketHealthStatus::ProtocolError => owned("protocol error"),
            SocketHealthStatus::QueryFailed => owned("query failed"),
        }
    }

    /// The name of this status on the wire, such as `connection_failed`.
    pub fn to_wire_name(&self) -> (text: String)
        ensures
            text@ == self.wire_name(),
    {
        match self {
            SocketHealthStatus::Healthy => owned("healthy"),
            SocketHealthStatus::Missing => owned("missing"),
            SocketHealthStatus::ConnectionFailed => owned("connection_failed"),
            SocketHealthStatus::ProtocolError => owned("protocol_error"),
            SocketHealthStatus::QueryFailed => owned("query_failed"),
        }
    }
}

/// Status of the file watcher.
#[derive(Debug, Clone, PartialEq, Eq)]
pub enum WatcherStatus {
    /// File watcher is active and healthy
    Active,
    /// File watcher failed, using polling fallback
    PollingFallback(String),
    /// Watching disabled in config
    Disabled,
}

/// The mathematical form of a [`WatcherStatus`].
pub ghost enum WatcherStatusView {
    Active,
    PollingFallback(Seq<char>),
    Disabled,
}

impl DeepView for WatcherStatus {
    type V = WatcherStatusView;

    open spec fn deep_view(&self) -> WatcherStatusView {
        match self {
            WatcherStatus::Active => WatcherStatusView::Active,
            WatcherStatus::PollingFallback(reason) => WatcherStatusView::PollingFallback(reason@),
            WatcherStatus::Disabled => WatcherStatusView::Disabled,
        }
    }
}

impl WatcherStatusView {
    /// The words shown to a person for this status.
    pub open spec fn text(self) -> Seq<char> {
        match self {
            WatcherStatusView::Active => "active"@,
            WatcherStatusView::PollingFallback(reason) => "polling ("@ + reason + ")"@,
            WatcherStatusView::Disabled => "disabled"@,
        }
    }
}

impl WatcherStatus {
    /// The words shown to a person: `active`, `disabled`, or `polling (..)`
    /// with the reason for the fallback in the brackets.
    pub fn to_text(&self) -> (text: String)
        ensures
            text@ == self.deep_view().text(),
    {
        match self {
            WatcherStatus::Active => owned("active"),
            WatcherStatus::PollingFallback(reason) => {
                let mut text = owned("polling (");
                text.append(reason.as_str());
                text.append(")");
                text
            },
            WatcherStatus::Disabled => owned("disabled"),
        }
    }

    /// A copy of this status.
    pub fn duplicate(&self) -> (copy: WatcherStatus)
        ensures
            copy.deep_view() == self.deep_view(),
    {
        match self {
            WatcherStatus::Active => WatcherStatus::Active,
            WatcherStatus::PollingFallback(reason) => WatcherStatus::PollingFallback(
                reason.clone(),
            ),
            WatcherStatus::Disabled => WatcherStatus::Disabled,
        }
    }
}

/// Daemon status information.
#[derive(Debug, Clone, PartialEq, Eq)]
pub struct StatusInfo {
    /// Software version
    pub version: String,
    /// Git commit hash
    pub git_commit: String,
    /// Daemon uptime in seconds
    pub uptime_secs: u64,
    /// Process ID
    pub pid: u32,
    /// Path to the SSH agent listening socket
    pub listening_on: String,
    /// Path to the control socket
    pub control_socket: String,
    /// Whether SSH forwarding watch is enabled
    pub watch_enabled: bool,
    /// Current watcher status
    pub watcher_status: WatcherStatus,
    /// Number of upstream agent sockets
    pub socket_count: usize,
    /// Number of available SSH keys (if known)
    pub key_count: Option<usize>,
}

/// The mathematical form of a [`StatusInfo`].
pub ghost struct StatusInfoView {
    pub version: Seq<char>,
    pub git_commit: Seq<char>,
    pub uptime_secs: u64,
    pub pid: u32,
    pub listening_on: Seq<char>,
    pub control_socket: Seq<char>,
    pub watch_enabled: bool,
    pub watcher_status: WatcherStatusView,
    pub socket_count: usize,
    pub key_count: Option<usize>,
}

impl DeepView for StatusInfo {
    type V = StatusInfoView;

    open spec fn deep_view(&self) -> StatusInfoView {
        StatusInfoView {
            version: self.version@,
            git_commit: self.git_commit@,
            uptime_secs: self.uptime_secs,
            pid: self.pid,
            listening_on: self.listening_on@,
            control_socket: self.control_socket@,
            watch_enabled: self.watch_enabled,
            watcher_status: self.watcher_status.deep_view(),
            socket_count: self.socket_count,
            key_count: self.key_count,
        }
    }
}

/// Information about an upstream agent socket.
#[derive(Debug, Clone, PartialEq, Eq)]
pub struct SocketInfo {
    /// Path to the socket
    pub path: String,
    /// How this socket was added (configured vs watched)
    pub source: SocketSource,
    /// When this socket was added (RFC 3339 timestamp), None for configured sockets
    pub added_at: Option<String>,
    /// Whether the socket is currently healthy
    pub healthy: bool,
    /// Last health check time (RFC 3339 timestamp)
    pub last_health_check: Option<String>,
    /// Number of keys from this socket (if known)
    pub key_count: Option<usize>,
    /// Priority order (1 = highest priority)
    pub order: usize,
}

/// The mathematical form of a [`SocketInfo`].
pub ghost struct SocketInfoView {
    pub path: Seq<char>,
    pub source: SocketSource,
    pub added_at: Option<Seq<char>>,
    pub healthy: bool,
    pub last_health_check: Option<Seq<char>>,
    pub key_count: Option<usize>,
    pub order: usize,
}

impl DeepView for SocketInfo {
    type V = SocketInfoView;

    open spec fn deep_view(&self) -> SocketInfoView {
        SocketInfoView {
            path: self.path@,
            source: self.source,
            added_at: self.added_at.deep_view(),
            healthy: self.healthy,
            last_health_check: self.last_health_check.deep_view(),
            key_count: self.key_count,
            order: self.order,
        }
    }
}

/// Information about an SSH key.
#[derive(Debug, Clone, PartialEq, Eq)]
pub struct KeyInfo {
    /// Key fingerprint (SHA256:...)
    pub fingerprint: String,
    /// Key type (ed25519, rsa, ecdsa, etc.)
    pub key_type: String,
    /// Key size in bits (if applicable)
    pub bits: Option<u32>,
    /// Key comment (usually user@host or description)
    pub comment: String,
    /// Path to the source socket that provides this key
    pub source_socket: String,
}

/// The mathematical form of a [`KeyInfo`].
pub ghost struct KeyInfoView {
    pub fingerprint: Seq<char>,
    pub key_type: Seq<char>,
    pub bits: Option<u32>,
    pub comment: Seq<char>,
    pub source_socket: Seq<char>,
}

impl DeepView for KeyInfo {
    type V = KeyInfoView;

    open spec fn deep_view(&self) -> KeyInfoView {
        KeyInfoView {
            fingerprint: self.fingerprint@,
            key_type: self.key_type@,
            bits: self.bits,
            comment: self.comment@,
            source_socket: self.source_socket@,
        }
    }
}

/// Health status of a single socket.
#[derive(Debug, Clone, PartialEq, Eq)]
pub struct SocketHealthInfo {
    /// Socket path
    pub path: String,
    /// Health status
    pub status: SocketHealthStatus,
    /// Number of keys (if healthy)
    pub key_count: Option<usize>,
    /// Error message (if unhealthy)
    pub error: Option<String>,
}

/// The mathematical form of a [`SocketHealthInfo`].
pub ghost struct SocketHealthInfoView {
    pub path: Seq<char>,
    pub status: SocketHealthStatus,
    pub key_count: Option<usize>,
    pub error: Option<Seq<char>>,
}

impl DeepView for SocketHealthInfo {
    type V = SocketHealthInfoView;

    open spec fn deep_view(&self) -> SocketHealthInfoView {
        SocketHealthInfoView {
            path: self.path@,
            status: self.status,
            key_count: self.key_count,
            error: self.error.deep_view(),
        }
    }
}

/// Result of a health check operation.
#[derive(Debug, Clone, PartialEq, Eq)]
pub struct HealthCheckResult {
    /// Results for each socket
    pub sockets: Vec<SocketHealthInfo>,
    /// Total number of healthy sockets
    pub healthy_count: usize,
    /// Total number of unhealthy sockets
    pub unhealthy_count: usize,
    /// Sockets that were removed due to being unreachable
    pub removed: Vec<String>,
}

/// The mathematical form of a [`HealthCheckResult`].
pub ghost struct HealthCheckResultView {
    pub sockets: Seq<SocketHealthInfoView>,
    pub healthy_count: usize,
    pub unhealthy_count: usize,
    pub removed: Seq<Seq<char>>,
}

impl DeepView for HealthCheckResult {
    type V = HealthCheckResultView;

    open spec fn deep_view(&self) -> HealthCheckResultView {
        HealthCheckResultView {
            sockets: self.sockets.deep_view(),
            healthy_count: self.healthy_count,
            unhealthy_count: self.unhealthy_count,
            removed: self.removed.deep_view(),
        }
    }
}

/// Response types sent from the daemon to a client.
#[derive(Debug, Clone, PartialEq, Eq)]
pub enum ControlResponse {
    /// Status information
    Status(StatusInfo),
    /// List of sockets
    Sockets { sockets: Vec<SocketInfo> },
    /// List of keys
    Keys { keys: Vec<KeyInfo> },
    /// Health check results
    HealthCheck(HealthCheckResult),
    /// Generic success with optional message
    Success { message: Option<String> },
    /// Error response
    Error { error: String },
    /// Pong response (reply to Ping)
    Pong,
}

/// The mathematical form of a [`ControlResponse`].
pub ghost enum ControlResponseView {
    Status(StatusInfoView),
    Sockets { sockets: Seq<SocketInfoView> },
    Keys { keys: Seq<KeyInfoView> },
    HealthCheck(HealthCheckResultView),
    Success { message: Option<Seq<char>> },
    Error { error: Seq<char> },
    Pong,
}

impl DeepView for ControlResponse {
    type V = ControlResponseView;

    open spec fn deep_view(&self) -> ControlResponseView {
        match self {
            ControlResponse::Status(info) => ControlResponseView::Status(info.deep_view()),
            ControlResponse::Sockets { sockets } => ControlResponseView::Sockets {
                sockets: sockets.deep_view(),
            },
            ControlResponse::Keys { keys } => ControlResponseView::Keys { keys: keys.deep_view() },
            ControlResponse::HealthCheck(result) => ControlResponseView::HealthCheck(
                result.deep_view(),
            ),
            ControlResponse::Success { message } => ControlResponseView::Success {
                message: message.deep_view(),
            },
            ControlResponse::Error { error } => ControlResponseView::Error { error: error@ },
            ControlResponse::Pong => ControlResponseView::Pong,
        }
    }
}

} // verus!
