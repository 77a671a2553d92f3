//! Core of an SSH agent multiplexer.
//!
//! The multiplexer is a daemon that offers one agent socket and answers from
//! all the agents it knows: those named in its configuration and those that
//! inbound SSH sessions forward and leave under `/tmp`.  This crate holds the
//! rules of the daemon and proves them:
//!
//! * [`socket_manager`]: the registry of upstream sockets and its ordered view;
//! * [`watcher`]: which paths are forwarded agents, what file events and scans
//!   mean, and what changed between two polls;
//! * [`mux`]: how agent requests are dispatched over a snapshot of the
//!   registry;
//! * [`control`]: the control protocol, its JSON form, the daemon's handling
//!   of each request and the client's reading of each reply;
//! * [`daemon`]: the decisions taken while the daemon starts and runs;
//! * [`commands`] and [`cli`]: what the command-line client shows, and the
//!   configuration;
//! * [`clock`], [`probe`], [`paths`], [`lists`] and [`text`]: instants, the
//!   file system, paths, lists of paths and text.
//!
//! Sockets, file events, timers and processes are left to the caller.  The
//! crate reads the clock, asks whether a path exists, formats instants with
//! `chrono`, reads and writes JSON with `serde_json` and expands `~` with
//! `expand_tilde`; these steps are marked as trusted where they are made.

pub mod cli;
pub mod clock;
pub mod commands;
pub mod control;
pub mod daemon;
pub mod lists;
pub mod mux;
pub mod paths;
pub mod probe;
pub mod socket_manager;
pub mod text;
pub mod watcher;
