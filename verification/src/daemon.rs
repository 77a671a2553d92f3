//! Decisions the daemon takes while it starts and runs: which watcher status
//! to report, how often to check on the sockets, and what a discovery event
//! does to the registry.

use vstd::prelude::*;
use crate::clock::Timestamp;
use crate::control::protocol::{WatcherStatus, WatcherStatusView};
use crate::socket_manager::SocketManager;
use crate::text::owned;
use crate::watcher::{WatchEvent, WatchEventView, WatchMode, WatchResult};

verus! {

/// How long file events are held back so that a burst of them, as when a
/// session sets up its socket, is reported once: in milliseconds.
pub const DEBOUNCE_MILLIS: u64 = 200;

/// How often `/tmp` is scanned where file events cannot be had: in seconds.
pub const POLL_INTERVAL_SECS: u64 = 30;

/// The watcher status before any attempt to watch: active where watching is
/// asked for, disabled otherwise.
pub fn initial_watcher_status(watch_enabled: bool) -> (status: WatcherStatus)
    ensures
        status.deep_view() == if watch_enabled {
            WatcherStatusView::Active
        } else {
            WatcherStatusView::Disabled
        },
{
    if watch_enabled {
        WatcherStatus::Active
    } else {
        WatcherStatus::Disabled
    }
}

/// The reason reported for a fallback to polling that came without one.
pub open spec fn unknown_reason() -> Seq<char> {
    "Unknown error"@
}

/// The watcher status once watching has started: active under file events,
/// and under polling a fallback with its reason.
pub fn watcher_status_for(result: &WatchResult) -> (status: WatcherStatus)
    ensures
        status.deep_view() == match result.mode {
            WatchMode::Smart(_) => WatcherStatusView::Active,
            WatchMode::Polling => WatcherStatusView::PollingFallback(
                match result.fallback_reason {
                    Some(reason) => reason@,
                    None => unknown_reason(),
                },
            ),
        },
{
    match &result.mode {
        WatchMode::Smart(_) => WatcherStatus::Active,
        WatchMode::Polling => match &result.fallback_reason {
            Some(reason) => WatcherStatus::PollingFallback(reason.clone()),
            None => WatcherStatus::PollingFallback(owned("Unknown error")),
        },
    }
}

/// A span of time: whole seconds and the nanoseconds past them.
#[derive(Clone, Copy, Debug, PartialEq, Eq, Structural)]
pub struct Interval {
    pub secs: u64,
    pub nanos: u32,
}

/// The interval between health checks: half the watchdog timeout where the
/// service manager set one, in microseconds; otherwise the configured number
/// of seconds where it is not zero; otherwise none, and no health checks.
pub open spec fn health_interval_of(
    watchdog_usec: Option<u64>,
    configured_secs: u64,
) -> Option<Interval> {
    match watchdog_usec {
        Some(usec) => Some(
            Interval {
                secs: ((usec / 2) / 1_000_000) as u64,
                nanos: (((usec / 2) % 1_000_000) * 1000) as u32,
            },
        ),
        None => if configured_secs > 0 {
            Some(Interval { secs: configured_secs, nanos: 0 })
        } else {
            None
        },
    }
}

/// Chooses the interval between health checks.  With a watchdog, checking
/// twice per timeout lets every ping to the service manager follow a
/// completed check.
pub fn health_interval(
    watchdog_usec: Option<u64>,
    configured_secs: u64,
) -> (interval: Option<Interval>)
    ensures
        interval == health_interval_of(watchdog_usec, configured_secs),
{
    match watchdog_usec {
        Some(usec) => {
            let half: u64 = usec / 2;
            let micros: u64 = half % 1_000_000;
            Some(Interval { secs: half / 1_000_000, nanos: (micros * 1000) as u32 })
        },
        None => if configured_secs > 0 {
            Some(Interval { secs: configured_secs, nanos: 0 })
        } else {
            None
        },
    }
}

/// Applies a discovery event to the registry, stamped with the system clock:
/// an added agent becomes a watched socket, a removed agent stops being one.
/// Returns whether the registry changed.
pub fn apply_watch_event(manager: &mut SocketManager, event: &WatchEvent) -> (changed: bool)
    ensures
        match event.deep_view() {
            WatchEventView::Added(path) => {
                &&& changed == !old(manager)@.is_watched(path)
                &&& exists|at: Timestamp|
                    final(manager)@ == #[trigger] old(manager)@.added(path, at)
            },
            WatchEventView::Removed(path) => {
                &&& changed == old(manager)@.is_watched(path)
                &&& final(manager)@ == old(manager)@.removed(path)
            },
        },
{
    match event {
        WatchEvent::Added(path) => manager.add_watched(path.clone()),
        WatchEvent::Removed(path) => manager.remove_watched(path.as_str()),
    }
}

/// Applies a discovery event to the registry as of the instant `at`.
/// Returns whether the registry changed.
pub fn apply_watch_event_at(
    manager: &mut SocketManager,
    event: &WatchEvent,
    at: Timestamp,
) -> (changed: bool)
    ensures
        match event.deep_view() {
            WatchEventView::Added(path) => {
                &&& changed == !old(manager)@.is_watched(path)
                &&& final(manager)@ == old(manager)@.added(path, at)
            },
            WatchEventView::Removed(path) => {
                &&& changed == old(manager)@.is_watched(path)
                &&& final(manager)@ == old(manager)@.removed(path)
            },
        },
{
    match event {
        WatchEvent::Added(path) => manager.add_watched_at(path.clone(), at),
        WatchEvent::Removed(path) => manager.remove_watched(path.as_str()),
    }
}

} // verus!
