//! The configuration of the daemon and the paths that follow from it.
//!
//! Reading the command line and the configuration file is the caller's; the
//! values arrive here as plain data.

use vstd::prelude::*;
use crate::control::client::{control_path_for, default_control_path};
use crate::paths::{child, child_path};
use crate::text::owned;

verus! {

/// Log level for agent
#[derive(Clone, Copy, Debug, PartialEq, Eq, Structural)]
pub enum LogLevel {
    Error,
    Warn,
    Info,
    Debug,
    Trace,
}

/// The configuration of the daemon.
#[derive(Debug, Clone)]
pub struct Config {
    /// Listen path
    pub listen_path: String,
    /// Control socket path (from config file)
    pub control_socket_path: Option<String>,
    /// Log level for agent
    pub log_level: LogLevel,
    /// Optional log file for agent (logs to standard output, otherwise)
    pub log_file: Option<String>,
    /// Agent sockets to multiplex
    pub agent_sock_paths: Vec<String>,
    /// Watch /tmp for SSH forwarded agents
    pub watch_for_ssh_forward: bool,
    /// Health check interval in seconds (0 to disable)
    pub health_check_interval: u64,
    /// Config file path
    pub config_path: String,
}

/// The mathematical form of a [`Config`].
pub ghost struct ConfigView {
    pub listen_path: Seq<char>,
    pub control_socket_path: Option<Seq<char>>,
    pub log_level: LogLevel,
    pub log_file: Option<Seq<char>>,
    pub agent_sock_paths: Seq<Seq<char>>,
    pub watch_for_ssh_forward: bool,
    pub health_check_interval: u64,
    pub config_path: Seq<char>,
}

impl DeepView for Config {
    type V = ConfigView;

    open spec fn deep_view(&self) -> ConfigView {
        ConfigView {
            listen_path: self.listen_path@,
            control_socket_path: self.control_socket_path.deep_view(),
            log_level: self.log_level,
            log_file: self.log_file.deep_view(),
            agent_sock_paths: self.agent_sock_paths.deep_view(),
            watch_for_ssh_forward: self.watch_for_ssh_forward,
            health_check_interval: self.health_check_interval,
            config_path: self.config_path@,
        }
    }
}

/// Whether expanding the home directory may touch `path`: only a path that
/// begins with a tilde is ever changed.
pub open spec fn begins_with_tilde(path: Seq<char>) -> bool {
    path.len() > 0 && path[0] == '~'
}

/// Replaces a leading `~` of `path` by the user's home directory.
///
/// Trusted: `expand_tilde::expand_tilde_owned`, with the outcome turned
/// back into a string; `None` stands for a home directory that is not known
/// or not text.  The home directory depends on the environment of the
/// process, so the contract claims only that a path that does not begin with
/// a tilde comes back as it is.
#[verifier::external_body]
pub(crate) fn expand_home(path: &str) -> (expanded: Option<String>)
    ensures
        !begins_with_tilde(path@) ==> expanded.deep_view() == Some(path@),
{
    expand_tilde::expand_tilde_owned(path).ok().and_then(
        |expanded| expanded.into_os_string().into_string().ok(),
    )
}

/// The configuration file in the configuration directory `config_dir`: the
/// file `ssh-agent-mux.toml` in its subdirectory `ssh-agent-mux`.
pub open spec fn config_path_in(config_dir: Seq<char>) -> Seq<char> {
    child(child(config_dir, "ssh-agent-mux"@), "ssh-agent-mux.toml"@)
}

/// The configuration file used where none is named: the one in the
/// directory `xdg_config_home`, or in `~/.config` where that is not set, with
/// the home directory filled in.  There is none where the home directory is
/// needed and not known.
pub fn default_config_path(xdg_config_home: Option<&str>) -> (path: Option<String>)
    ensures
        path matches Some(path) ==> exists|config_dir: Seq<char>|
            path@ == #[trigger] config_path_in(config_dir),
        xdg_config_home matches Some(dir) ==> (!begins_with_tilde(dir@) ==> path.deep_view()
            == Some(config_path_in(dir@))),
{
    let base = match xdg_config_home {
        Some(dir) => dir,
        None => "~/.config",
    };
    match expand_home(base) {
        Some(config_dir) => {
            let inner = child_path(config_dir.as_str(), "ssh-agent-mux");
            let path = child_path(inner.as_str(), "ssh-agent-mux.toml");
            assert(path@ == config_path_in(config_dir@));
            Some(path)
        },
        None => None,
    }
}

/// Derive control socket path from listen path
pub fn derive_control_path(listen_path: &str) -> (control_path: String)
    ensures
        control_path@ == control_path_for(listen_path@),
{
    default_control_path(listen_path)
}

/// The listening socket used where none is configured, before the home
/// directory is filled in.
pub open spec fn default_listen() -> Seq<char> {
    "~/.ssh/ssh-agent-mux.sock"@
}

/// The listening socket used where none is configured.
pub fn default_listen_path() -> (path: String)
    ensures
        path@ == default_listen(),
{
    owned("~/.ssh/ssh-agent-mux.sock")
}

/// The control socket for client commands where the listening socket, with
/// the home directory filled in, is `listen_path`; an unknown home directory
/// (`None`) counts as the empty path.
pub open spec fn control_socket_for(listen_path: Option<Seq<char>>) -> Seq<char> {
    control_path_for(
        match listen_path {
            Some(path) => path,
            None => Seq::empty(),
        },
    )
}

/// The control socket that goes with a listening socket whose home directory
/// is filled in, or is not known.
pub fn control_socket_of(listen_path: &Option<String>) -> (control_path: String)
    ensures
        control_path@ == control_socket_for(listen_path.deep_view()),
{
    match listen_path {
        Some(path) => derive_control_path(path.as_str()),
        None => {
            proof {
                reveal_strlit("");
                assert(""@ =~= Seq::<char>::empty());
            }
            derive_control_path("")
        },
    }
}

/// Get the default control socket path for client commands
pub fn default_control_socket() -> (control_path: String)
    ensures
        exists|listen_path: Option<Seq<char>>| control_path@ == control_socket_for(listen_path),
{
    let listen = default_listen_path();
    let expanded = expand_home(listen.as_str());
    control_socket_of(&expanded)
}

/// What the lookups of the home directory gave for the paths of a
/// configuration: for each path, the path with the home directory filled in,
/// or `None` where the home directory was needed and not known.
#[derive(Debug, Clone)]
pub struct ExpandedPaths {
    /// The answer for the listening socket
    pub listen_path: Option<String>,
    /// The answer for the control socket; it counts only where the
    /// configuration names a control socket
    pub control_socket_path: Option<String>,
    /// The answer for the log file; it counts only where the configuration
    /// names a log file
    pub log_file: Option<String>,
    /// The answers for the agent sockets, one for each, in order
    pub agent_sock_paths: Vec<Option<String>>,
}

/// The mathematical form of [`ExpandedPaths`].
pub ghost struct ExpandedPathsView {
    pub listen_path: Option<Seq<char>>,
    pub control_socket_path: Option<Seq<char>>,
    pub log_file: Option<Seq<char>>,
    pub agent_sock_paths: Seq<Option<Seq<char>>>,
}

impl DeepView for ExpandedPaths {
    type V = ExpandedPathsView;

    open spec fn deep_view(&self) -> ExpandedPathsView {
        ExpandedPathsView {
            listen_path: self.listen_path.deep_view(),
            control_socket_path: self.control_socket_path.deep_view(),
            log_file: self.log_file.deep_view(),
            agent_sock_paths: self.agent_sock_paths.deep_view(),
        }
    }
}

impl ConfigView {
    /// The control socket path that this configuration comes to.
    pub open spec fn control_socket(self) -> Seq<char> {
        match self.control_socket_path {
            Some(path) => path,
            None => control_path_for(self.listen_path),
        }
    }

    /// Whether `answers` may be what the lookups of the home directory give
    /// for the paths of this configuration: there is one answer for each
    /// agent socket, and a path that does not begin with a tilde is answered
    /// with itself.
    pub open spec fn answered_by(self, answers: ExpandedPathsView) -> bool {
        &&& !begins_with_tilde(self.listen_path) ==> answers.listen_path == Some(
            self.listen_path,
        )
        &&& self.control_socket_path matches Some(path) ==> (!begins_with_tilde(path)
            ==> answers.control_socket_path == Some(path))
        &&& self.log_file matches Some(path) ==> (!begins_with_tilde(path) ==> answers.log_file
            == Some(path))
        &&& answers.agent_sock_paths.len() == self.agent_sock_paths.len()
        &&& forall|i: int|
            0 <= i < self.agent_sock_paths.len() && !begins_with_tilde(
                #[trigger] self.agent_sock_paths[i],
            ) ==> answers.agent_sock_paths[i] == Some(self.agent_sock_paths[i])
    }

    /// Whether `answers` holds a path for every path of this configuration.
    pub open spec fn all_known(self, answers: ExpandedPathsView) -> bool {
        &&& answers.listen_path is Some
        &&& self.control_socket_path is Some ==> answers.control_socket_path is Some
        &&& self.log_file is Some ==> answers.log_file is Some
        &&& forall|i: int|
            0 <= i < self.agent_sock_paths.len() ==> (#[trigger] answers.agent_sock_paths[i])
                is Some
    }

    /// This configuration with each of its paths replaced by its answer, or
    /// `None` where an answer is missing.  A control socket or a log file
    /// that the configuration does not name stays unnamed.
    pub open spec fn with_paths(self, answers: ExpandedPathsView) -> Option<ConfigView> {
        if self.all_known(answers) {
            Some(
                ConfigView {
                    listen_path: answers.listen_path->0,
                    control_socket_path: if self.control_socket_path is Some {
                        answers.control_socket_path
                    } else {
                        None
                    },
                    log_file: if self.log_file is Some {
                        answers.log_file
                    } else {
                        None
                    },
                    agent_sock_paths: Seq::new(
                        self.agent_sock_paths.len(),
                        |i: int| answers.agent_sock_paths[i]->0,
                    ),
                    ..self
                },
            )
        } else {
            None
        }
    }

    /// Whether `after` may be this configuration with the home directory
    /// filled in: every path that does not begin with a tilde is the same,
    /// no path has come or gone, and everything else is the same.
    pub open spec fn expands_to(self, after: ConfigView) -> bool {
        &&& after.log_level == self.log_level
        &&& after.watch_for_ssh_forward == self.watch_for_ssh_forward
        &&& after.health_check_interval == self.health_check_interval
        &&& after.config_path == self.config_path
        &&& !begins_with_tilde(self.listen_path) ==> after.listen_path == self.listen_path
        &&& after.control_socket_path is Some <==> self.control_socket_path is Some
        &&& self.control_socket_path matches Some(path) ==> (!begins_with_tilde(path)
            ==> after.control_socket_path == Some(path))
        &&& after.log_file is Some <==> self.log_file is Some
        &&& self.log_file matches Some(path) ==> (!begins_with_tilde(path) ==> after.log_file
            == Some(path))
        &&& after.agent_sock_paths.len() == self.agent_sock_paths.len()
        &&& forall|i: int|
            0 <= i < self.agent_sock_paths.len() && !begins_with_tilde(
                #[trigger] self.agent_sock_paths[i],
            ) ==> after.agent_sock_paths[i] == self.agent_sock_paths[i]
    }

    /// Whether no path of the configuration begins with a tilde, so that
    /// filling in the home directory changes nothing.
    pub open spec fn is_expanded(self) -> bool {
        &&& !begins_with_tilde(self.listen_path)
        &&& self.control_socket_path matches Some(path) ==> !begins_with_tilde(path)
        &&& self.log_file matches Some(path) ==> !begins_with_tilde(path)
        &&& forall|i: int|
            0 <= i < self.agent_sock_paths.len() ==> !begins_with_tilde(
                #[trigger] self.agent_sock_paths[i],
            )
    }
}

impl Config {
    /// Get the control socket path, deriving from listen_path if not set
    pub fn get_control_socket_path(&self) -> (control_path: String)
        ensures
            control_path@ == self.deep_view().control_socket(),
    {
        match &self.control_socket_path {
            Some(path) => path.clone(),
            None => derive_control_path(self.listen_path.as_str()),
        }
    }

    /// Replaces each path of the configuration by its answer in `answers`,
    /// which holds what the lookups of the home directory gave: for the
    /// listening socket, for the control socket and the log file where the
    /// configuration names them, and for each agent socket.  There is no
    /// result where one of these answers is missing.  Everything that is not
    /// a path stays as it is.
    pub fn expand_paths_with(self, answers: ExpandedPaths) -> (expanded: Option<Config>)
        requires
            answers.agent_sock_paths.len() == self.agent_sock_paths.len(),
        ensures
            expanded.deep_view() == self.deep_view().with_paths(answers.deep_view()),
    {
        let ghost before = self.deep_view();
        let ghost given = answers.deep_view();
        let ExpandedPaths {
            listen_path: listen_answer,
            control_socket_path: control_answer,
            log_file: log_answer,
            agent_sock_paths: agent_answers,
        } = answers;
        let listen_path = match listen_answer {
            Some(path) => path,
            None => {
                return None;
            },
        };
        let control_socket_path = match &self.control_socket_path {
            Some(_) => match control_answer {
                Some(path) => Some(path),
                None => {
                    return None;
                },
            },
            None => None,
        };
        let log_file = match &self.log_file {
            Some(_) => match log_answer {
                Some(path) => Some(path),
                None => {
                    return None;
                },
            },
            None => None,
        };
        let mut agent_sock_paths: Vec<String> = Vec::new();
        let mut i: usize = 0;
        while i < agent_answers.len()
            invariant
                i <= agent_answers.len(),
                agent_answers.len() == self.agent_sock_paths.len(),
                before == self.deep_view(),
                given == answers.deep_view(),
                given.agent_sock_paths == agent_answers.deep_view(),
                before.agent_sock_paths.len() == agent_answers.len(),
                agent_sock_paths.len() == i,
                forall|k: int|
                    0 <= k < i ==> (#[trigger] given.agent_sock_paths[k]) == Some(
                        agent_sock_paths@[k]@,
                    ),
            decreases agent_answers.len() - i,
        {
            assert(given.agent_sock_paths[i as int] == agent_answers@[i as int].deep_view());
            match &agent_answers[i] {
                Some(path) => {
                    agent_sock_paths.push(path.clone());
                },
                None => {
                    assert(!before.all_known(given));
                    return None;
                },
            }
            i += 1;
        }
        let config = Config {
            listen_path,
            control_socket_path,
            log_level: self.log_level,
            log_file,
            agent_sock_paths,
            watch_for_ssh_forward: self.watch_for_ssh_forward,
            health_check_interval: self.health_check_interval,
            config_path: self.config_path,
        };
        proof {
            assert(before.all_known(given));
            assert(config.deep_view().agent_sock_paths =~= before.with_paths(
                given,
            )->0.agent_sock_paths);
        }
        Some(config)
    }

    /// Fills in the home directory in every path of the configuration that
    /// begins with a tilde: the listening socket, the control socket, the log
    /// file, and the agent sockets.  The home directory is looked up for each
    /// path, and the result is the configuration with each path replaced by
    /// what the lookup gave.  It fails only where the home directory is
    /// needed and not known: never where no path begins with a tilde.
    pub fn expand_paths(self) -> (expanded: Option<Config>)
        ensures
            self.deep_view().is_expanded() ==> expanded is Some,
            exists|answers: ExpandedPathsView|
                self.deep_view().answered_by(answers) && expanded.deep_view()
                    == #[trigger] self.deep_view().with_paths(answers),
    {
        let listen_path = expand_home(self.listen_path.as_str());
        let control_socket_path = match &self.control_socket_path {
            Some(path) => expand_home(path.as_str()),
            None => None,
        };
        let log_file = match &self.log_file {
            Some(path) => expand_home(path.as_str()),
            None => None,
        };
        let mut agent_sock_paths: Vec<Option<String>> = Vec::new();
        let mut i: usize = 0;
        while i < self.agent_sock_paths.len()
            invariant
                i <= self.agent_sock_paths.len(),
                agent_sock_paths.len() == i,
                forall|k: int|
                    0 <= k < i && !begins_with_tilde(#[trigger] self.agent_sock_paths@[k]@)
                        ==> agent_sock_paths@[k].deep_view() == Some(self.agent_sock_paths@[k]@),
            decreases self.agent_sock_paths.len() - i,
        {
            agent_sock_paths.push(expand_home(self.agent_sock_paths[i].as_str()));
            i += 1;
        }
        let answers = ExpandedPaths { listen_path, control_socket_path, log_file, agent_sock_paths };
        proof {
            let before = self.deep_view();
            let given = answers.deep_view();
            assert forall|k: int|
                0 <= k < before.agent_sock_paths.len() && !begins_with_tilde(
                    #[trigger] before.agent_sock_paths[k],
                ) implies given.agent_sock_paths[k] == Some(before.agent_sock_paths[k]) by {
                assert(!begins_with_tilde(self.agent_sock_paths@[k]@));
            }
            assert(before.answered_by(given));
            if before.is_expanded() {
                assert forall|k: int| 0 <= k < before.agent_sock_paths.len() implies (
                #[trigger] given.agent_sock_paths[k]) is Some by {
                    assert(!begins_with_tilde(before.agent_sock_paths[k]));
                }
                assert(before.all_known(given));
            }
        }
        self.expand_paths_with(answers)
    }
}

/// Filling in the home directory leaves alone every path that does not begin
/// with a tilde, brings no path in and takes none away, and leaves everything
/// else as it is; where no path begins with a tilde, the configuration stays
/// as it is.
pub proof fn lemma_expansion_keeps_plain_paths(
    before: ConfigView,
    answers: ExpandedPathsView,
    after: ConfigView,
)
    requires
        before.answered_by(answers),
        before.with_paths(answers) == Some(after),
    ensures
        before.expands_to(after),
        before.is_expanded() ==> after == before,
{
    if before.is_expanded() {
        assert(after.agent_sock_paths =~= before.agent_sock_paths);
    }
}

/// CLI commands
#[derive(Debug, Clone)]
pub enum Command {
    /// Run the daemon (serve mode)
    Serve { config_path: String },
    /// Show daemon status
    Status,
    /// List upstream agent sockets
    List,
    /// List all available SSH keys
    ListKeys,
    /// Re-scan for forwarded agents
    Reload,
    /// Check socket health, remove stale sockets
    Validate,
    /// Add a socket to the watched list
    Add { path: String },
    /// Remove a socket from the watched list
    Remove { path: String },
    /// Full health check of all sockets
    Health,
}

/// The arguments of the command line.
#[derive(Debug, Clone)]
pub struct Args {
    /// Control socket path (for client commands)
    pub control_socket: Option<String>,
    /// Output in JSON format
    pub json: bool,
    /// Subcommand to run
    pub command: Command,
}

impl Args {
    /// Get the control socket path for client commands: the one given, with
    /// the home directory filled in where that works, or else the default.
    pub fn get_control_socket(&self) -> (control_path: String)
        ensures
            match self.control_socket {
                Some(path) => !begins_with_tilde(path@) ==> control_path@ == path@,
                None => exists|listen_path: Option<Seq<char>>|
                    control_path@ == control_socket_for(listen_path),
            },
    {
        match &self.control_socket {
            Some(path) => match expand_home(path.as_str()) {
                Some(expanded) => expanded,
                None => path.clone(),
            },
            None => default_control_socket(),
        }
    }
}

} // verus!
