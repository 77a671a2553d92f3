//! The control interface of the daemon.
//!
//! A client and the daemon exchange newline-delimited JSON messages over a
//! Unix socket.  This module holds the message types, their JSON form, the
//! daemon's handling of each request and the client's reading of each reply.

pub mod client;
pub mod codec;
pub mod json;
pub mod protocol;
pub mod server;

pub use client::{default_control_path, ControlClientError};
pub use protocol::{
    ControlRequest, ControlResponse, HealthCheckResult, KeyInfo, SocketHealthInfo,
    SocketHealthStatus, SocketInfo, SocketSource, StatusInfo, WatcherStatus,
};
pub use json::WireError;
pub use server::{ControlServerState, ControlStep, LineStep};
