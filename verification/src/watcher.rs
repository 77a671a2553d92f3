//! Discovery of SSH-forwarded agent sockets under `/tmp`.
//!
//! An inbound SSH session with agent forwarding leaves a socket at
//! `/tmp/ssh-*/agent.*` or `/tmp/auth-agent*/listener.sock`.  This module holds
//! the rules of discovery: which paths are forwarded agents, which directories
//! deserve a subscription, what a batch of file events means, what a scan of
//! `/tmp` found, and what changed between two polls.  Enumerating directories
//! and subscribing to file events are left to the caller.

use vstd::prelude::*;
use crate::lists::{
    contains_path, distinct, distinct_paths, lemma_distinct, lemma_without, paths_without,
    push_distinct, without,
};
use crate::paths::{
    child, child_path, file_name, file_name_of, is_directly_under, is_under, parent_name,
    parent_name_of, path_is_directly_under, path_is_under,
};
use crate::probe::path_exists;
use crate::text::{same_text, starts_with};

verus! {

/// A rule for one name: it begins with a given text, or it is a given text.
#[derive(Clone, Copy, Debug)]
pub enum NamePattern {
    Prefix(&'static str),
    Exact(&'static str),
}

impl NamePattern {
    /// Whether the pattern accepts `candidate`.
    pub open spec fn accepts(self, candidate: Seq<char>) -> bool {
        match self {
            NamePattern::Prefix(prefix) => prefix@.is_prefix_of(candidate),
            NamePattern::Exact(exact) => candidate == exact@,
        }
    }

    /// Whether the pattern accepts `candidate`.
    pub fn matches(&self, candidate: &str) -> (yes: bool)
        ensures
            yes == self.accepts(candidate@),
    {
        match self {
            NamePattern::Prefix(prefix) => starts_with(candidate, prefix),
            NamePattern::Exact(exact) => same_text(candidate, exact),
        }
    }
}

/// A rule for a forwarded agent socket: one pattern for the name of the
/// directory that holds it and one for its own name.
#[derive(Clone, Copy, Debug)]
pub struct ForwardedAgentPattern {
    pub dir_pattern: NamePattern,
    pub file_pattern: NamePattern,
}

impl ForwardedAgentPattern {
    pub fn new(dir_pattern: NamePattern, file_pattern: NamePattern) -> (pattern: Self)
        ensures
            pattern == (ForwardedAgentPattern { dir_pattern, file_pattern }),
    {
        Self { dir_pattern, file_pattern }
    }

    /// Whether a file named `file` in a directory named `dir` fits the rule.
    pub open spec fn accepts(self, dir: Seq<char>, file: Seq<char>) -> bool {
        self.dir_pattern.accepts(dir) && self.file_pattern.accepts(file)
    }
}

/// The rules for forwarded agent sockets: `ssh-*/agent.*` and
/// `auth-agent*/listener.sock`.
pub open spec fn forwarded_agent_patterns() -> Seq<ForwardedAgentPattern> {
    seq![
        ForwardedAgentPattern {
            dir_pattern: NamePattern::Prefix("ssh-"),
            file_pattern: NamePattern::Prefix("agent."),
        },
        ForwardedAgentPattern {
            dir_pattern: NamePattern::Prefix("auth-agent"),
            file_pattern: NamePattern::Exact("listener.sock"),
        },
    ]
}

/// Whether some rule accepts a file named `file` in a directory named `dir`.
pub open spec fn fits_some_pattern(dir: Seq<char>, file: Seq<char>) -> bool {
    exists|k: int|
        0 <= k < forwarded_agent_patterns().len() && (
        #[trigger] forwarded_agent_patterns()[k]).accepts(dir, file)
}

/// Whether `path` is the path of a forwarded agent socket: it lies under
/// `/tmp`, the directory that holds it and the file itself both have names,
/// and some rule accepts the two names.
pub open spec fn is_forwarded_agent_path(path: Seq<char>) -> bool {
    &&& is_under(path, "tmp"@)
    &&& parent_name(path) is Some
    &&& file_name(path) is Some
    &&& fits_some_pattern(parent_name(path)->0, file_name(path)->0)
}

/// Whether a directory at `path` may hold forwarded agent sockets, going by
/// its name.
pub open spec fn is_agent_directory(path: Seq<char>) -> bool {
    &&& file_name(path) is Some
    &&& ("ssh-"@.is_prefix_of(file_name(path)->0) || "auth-agent"@.is_prefix_of(
        file_name(path)->0,
    ))
}

/// The rules for forwarded agent sockets.
pub fn agent_patterns() -> (patterns: Vec<ForwardedAgentPattern>)
    ensures
        patterns@ == forwarded_agent_patterns(),
{
    let mut patterns: Vec<ForwardedAgentPattern> = Vec::new();
    patterns.push(
        ForwardedAgentPattern::new(NamePattern::Prefix("ssh-"), NamePattern::Prefix("agent.")),
    );
    patterns.push(
        ForwardedAgentPattern::new(
            NamePattern::Prefix("auth-agent"),
            NamePattern::Exact("listener.sock"),
        ),
    );
    assert(patterns@ =~= forwarded_agent_patterns());
    patterns
}

/// A directory fits the directory pattern of some rule exactly when it is an
/// agent directory.
pub proof fn lemma_agent_directory_fits_a_rule(path: Seq<char>)
    ensures
        is_agent_directory(path) <==> file_name(path) is Some && exists|k: int|
            0 <= k < forwarded_agent_patterns().len() && (
            #[trigger] forwarded_agent_patterns()[k]).dir_pattern.accepts(file_name(path)->0),
{
    if file_name(path) is Some {
        let name = file_name(path)->0;
        if is_agent_directory(path) {
            if "ssh-"@.is_prefix_of(name) {
                assert(forwarded_agent_patterns()[0].dir_pattern.accepts(name));
            } else {
                assert(forwarded_agent_patterns()[1].dir_pattern.accepts(name));
            }
        }
    }
}

/// Check if a directory name matches SSH agent directory patterns
pub fn should_watch_directory(path: &str) -> (yes: bool)
    ensures
        yes == is_agent_directory(path@),
{
    match file_name_of(path) {
        Some(name) => starts_with(name.as_str(), "ssh-") || starts_with(
            name.as_str(),
            "auth-agent",
        ),
        None => false,
    }
}

/// Check if a path matches a forwarded SSH agent pattern
/// Supported patterns:
///   * /tmp/ssh-*/agent.*
///   * /tmp/auth-agent*/listener.sock
pub fn is_ssh_forwarded_agent(path: &str) -> (yes: bool)
    ensures
        yes == is_forwarded_agent_path(path@),
{
    if !path_is_under(path, "tmp") {
        return false;
    }
    let parent = match parent_name_of(path) {
        Some(name) => name,
        None => {
            return false;
        },
    };
    let file = match file_name_of(path) {
        Some(name) => name,
        None => {
            return false;
        },
    };
    let patterns = agent_patterns();
    let mut k: usize = 0;
    while k < patterns.len()
        invariant
            k <= patterns.len(),
            patterns@ == forwarded_agent_patterns(),
            is_under(path@, "tmp"@),
            parent_name(path@) == Some(parent@),
            file_name(path@) == Some(file@),
            forall|i: int| 0 <= i < k ==> !(#[trigger] forwarded_agent_patterns()[i]).accepts(
                parent@,
                file@,
            ),
        decreases patterns.len() - k,
    {
        if patterns[k].dir_pattern.matches(parent.as_str()) && patterns[k].file_pattern.matches(
            file.as_str(),
        ) {
            assert(forwarded_agent_patterns()[k as int].accepts(parent@, file@));
            return true;
        }
        k += 1;
    }
    false
}

/// Events emitted by discovery
#[derive(Debug, Clone, PartialEq, Eq)]
pub enum WatchEvent {
    /// A new SSH forwarded agent socket was detected
    Added(String),
    /// An SSH forwarded agent socket was removed
    Removed(String),
}

/// The mathematical form of a [`WatchEvent`].
pub ghost enum WatchEventView {
    Added(Seq<char>),
    Removed(Seq<char>),
}

impl DeepView for WatchEvent {
    type V = WatchEventView;

    open spec fn deep_view(&self) -> WatchEventView {
        match self {
            WatchEvent::Added(path) => WatchEventView::Added(path@),
            WatchEvent::Removed(path) => WatchEventView::Removed(path@),
        }
    }
}

/// What a file event says happened, as far as discovery cares.
#[derive(Clone, Copy, Debug, PartialEq, Eq, Structural)]
pub enum FsEventKind {
    /// A directory was created
    CreateFolder,
    /// Something other than a directory was created, or it is not known what
    Create,
    /// Something was modified
    Modify,
    /// Something was removed
    Remove,
    /// Anything else
    Other,
}

/// The forwarded agent paths among `paths` whose mark in `present` is set, in
/// order.
pub open spec fn arrived(paths: Seq<Seq<char>>, present: Seq<bool>) -> Seq<Seq<char>>
    recommends
        present.len() == paths.len(),
    decreases paths.len(),
{
    if paths.len() == 0 {
        Seq::empty()
    } else {
        let before = arrived(paths.drop_last(), present.drop_last());
        if is_forwarded_agent_path(paths.last()) && present.last() {
            before.push(paths.last())
        } else {
            before
        }
    }
}

/// The forwarded agent paths among `paths`, in order.
pub open spec fn forwarded(paths: Seq<Seq<char>>) -> Seq<Seq<char>>
    decreases paths.len(),
{
    if paths.len() == 0 {
        Seq::empty()
    } else {
        let before = forwarded(paths.drop_last());
        if is_forwarded_agent_path(paths.last()) {
            before.push(paths.last())
        } else {
            before
        }
    }
}

/// An `Added` event for each path.
pub open spec fn additions(paths: Seq<Seq<char>>) -> Seq<WatchEventView> {
    Seq::new(paths.len(), |i: int| WatchEventView::Added(paths[i]))
}

/// A `Removed` event for each path.
pub open spec fn removals(paths: Seq<Seq<char>>) -> Seq<WatchEventView> {
    Seq::new(paths.len(), |i: int| WatchEventView::Removed(paths[i]))
}

/// What discovery makes of a file event of kind `kind` on `paths`, where
/// `present[i]` says whether `paths[i]` still exists: something created or
/// modified that is a forwarded agent and still exists was added; a forwarded
/// agent that was removed was removed.
pub open spec fn events_of(
    kind: FsEventKind,
    paths: Seq<Seq<char>>,
    present: Seq<bool>,
) -> Seq<WatchEventView>
    recommends
        present.len() == paths.len(),
{
    match kind {
        FsEventKind::CreateFolder | FsEventKind::Create | FsEventKind::Modify => additions(
            arrived(paths, present),
        ),
        FsEventKind::Remove => removals(forwarded(paths)),
        FsEventKind::Other => Seq::empty(),
    }
}

/// For each path, whether it is a forwarded agent that exists on disk now.
fn probe_forwarded(paths: &Vec<String>) -> (present: Vec<bool>)
    ensures
        present.len() == paths.len(),
{
    let mut present: Vec<bool> = Vec::new();
    let mut i: usize = 0;
    while i < paths.len()
        invariant
            i <= paths.len(),
            present.len() == i,
        decreases paths.len() - i,
    {
        let exists = is_ssh_forwarded_agent(paths[i].as_str()) && path_exists(paths[i].as_str());
        present.push(exists);
        i += 1;
    }
    present
}

fn added_events_for(paths: &Vec<String>, present: &Vec<bool>) -> (events: Vec<WatchEvent>)
    requires
        present.len() == paths.len(),
    ensures
        events.deep_view() == additions(arrived(paths.deep_view(), present@)),
{
    let mut events: Vec<WatchEvent> = Vec::new();
    let mut i: usize = 0;
    assert(events.deep_view() =~= additions(Seq::empty()));
    while i < paths.len()
        invariant
            i <= paths.len(),
            present.len() == paths.len(),
            events.deep_view() == additions(
                arrived(paths.deep_view().take(i as int), present@.take(i as int)),
            ),
        decreases paths.len() - i,
    {
        assert(paths.deep_view().take(i + 1).drop_last() =~= paths.deep_view().take(i as int));
        assert(present@.take(i + 1).drop_last() =~= present@.take(i as int));
        if is_ssh_forwarded_agent(paths[i].as_str()) && present[i] {
            let ghost before = events.deep_view();
            events.push(WatchEvent::Added(paths[i].clone()));
            assert(events.deep_view() =~= before.push(
                WatchEventView::Added(paths.deep_view()[i as int]),
            ));
            assert(events.deep_view() =~= additions(
                arrived(paths.deep_view().take(i + 1), present@.take(i + 1)),
            ));
        }
        i += 1;
    }
    assert(paths.deep_view().take(paths.len() as int) =~= paths.deep_view());
    assert(present@.take(present.len() as int) =~= present@);
    events
}

fn removed_events_for(paths: &Vec<String>) -> (events: Vec<WatchEvent>)
    ensures
        events.deep_view() == removals(forwarded(paths.deep_view())),
{
    let mut events: Vec<WatchEvent> = Vec::new();
    let mut i: usize = 0;
    assert(events.deep_view() =~= removals(Seq::empty()));
    while i < paths.len()
        invariant
            i <= paths.len(),
            events.deep_view() == removals(forwarded(paths.deep_view().take(i as int))),
        decreases paths.len() - i,
    {
        assert(paths.deep_view().take(i + 1).drop_last() =~= paths.deep_view().take(i as int));
        if is_ssh_forwarded_agent(paths[i].as_str()) {
            let ghost before = events.deep_view();
            events.push(WatchEvent::Removed(paths[i].clone()));
            assert(events.deep_view() =~= before.push(
                WatchEventView::Removed(paths.deep_view()[i as int]),
            ));
            assert(events.deep_view() =~= removals(forwarded(paths.deep_view().take(i + 1))));
        }
        i += 1;
    }
    assert(paths.deep_view().take(paths.len() as int) =~= paths.deep_view());
    events
}

/// What discovery makes of a file event of kind `kind` on `paths`, where
/// `present[i]` says whether `paths[i]` still exists.
pub fn watch_events_for(
    kind: FsEventKind,
    paths: &Vec<String>,
    present: &Vec<bool>,
) -> (events: Vec<WatchEvent>)
    requires
        present.len() == paths.len(),
    ensures
        events.deep_view() == events_of(kind, paths.deep_view(), present@),
{
    match kind {
        FsEventKind::CreateFolder | FsEventKind::Create | FsEventKind::Modify => added_events_for(
            paths,
            present,
        ),
        FsEventKind::Remove => removed_events_for(paths),
        FsEventKind::Other => {
            let events: Vec<WatchEvent> = Vec::new();
            assert(events.deep_view() =~= Seq::empty());
            events
        },
    }
}

/// Handle a file system event from a watcher that sees all of `/tmp`: probes
/// the disk for the forwarded agents among `paths` and says which were added
/// and which removed.
pub fn handle_event(kind: FsEventKind, paths: &Vec<String>) -> (events: Vec<WatchEvent>)
    ensures
        exists|present: Seq<bool>|
            present.len() == paths.len() && events.deep_view() == #[trigger] events_of(
                kind,
                paths.deep_view(),
                present,
            ),
{
    let present = probe_forwarded(paths);
    watch_events_for(kind, paths, &present)
}

/// The paths among `paths` that name an entry directly inside `/tmp`, in
/// order.
pub open spec fn top_level(paths: Seq<Seq<char>>) -> Seq<Seq<char>>
    decreases paths.len(),
{
    if paths.len() == 0 {
        Seq::empty()
    } else {
        let before = top_level(paths.drop_last());
        if is_directly_under(paths.last(), "tmp"@) {
            before.push(paths.last())
        } else {
            before
        }
    }
}

/// The paths among `paths` that name an agent directory directly inside
/// `/tmp`, in order.
pub open spec fn agent_directories(paths: Seq<Seq<char>>) -> Seq<Seq<char>>
    decreases paths.len(),
{
    if paths.len() == 0 {
        Seq::empty()
    } else {
        let before = agent_directories(paths.drop_last());
        if is_directly_under(paths.last(), "tmp"@) && is_agent_directory(paths.last()) {
            before.push(paths.last())
        } else {
            before
        }
    }
}

/// What came of one file event under selective watching.
#[derive(Debug)]
pub struct SmartEventOutcome {
    /// The additions and removals of forwarded agents to report
    pub events: Vec<WatchEvent>,
    /// Agent directories that appeared in `/tmp`.  They are not subscribed
    /// to here; the next scan picks them up.
    pub new_directories: Vec<String>,
}

/// The mathematical form of a [`SmartEventOutcome`].
pub ghost struct SmartEventOutcomeView {
    pub events: Seq<WatchEventView>,
    pub new_directories: Seq<Seq<char>>,
}

impl DeepView for SmartEventOutcome {
    type V = SmartEventOutcomeView;

    open spec fn deep_view(&self) -> SmartEventOutcomeView {
        SmartEventOutcomeView {
            events: self.events.deep_view(),
            new_directories: self.new_directories.deep_view(),
        }
    }
}

/// What selective watching reports for a file event of kind `kind` on
/// `paths`, where `present[i]` says whether `paths[i]` still exists.  A new
/// directory is only noticed; files created or modified count as additions
/// and files removed as removals, as far as they are forwarded agents.
pub open spec fn smart_outcome_of(
    kind: FsEventKind,
    paths: Seq<Seq<char>>,
    present: Seq<bool>,
) -> SmartEventOutcomeView
    recommends
        present.len() == paths.len(),
{
    match kind {
        FsEventKind::CreateFolder => SmartEventOutcomeView {
            events: Seq::empty(),
            new_directories: agent_directories(paths),
        },
        FsEventKind::Create | FsEventKind::Modify => SmartEventOutcomeView {
            events: additions(arrived(paths, present)),
            new_directories: Seq::empty(),
        },
        FsEventKind::Remove => SmartEventOutcomeView {
            events: removals(forwarded(paths)),
            new_directories: Seq::empty(),
        },
        FsEventKind::Other => SmartEventOutcomeView {
            events: Seq::empty(),
            new_directories: Seq::empty(),
        },
    }
}

/// The subscribed directories after a file event of kind `kind` on `paths`:
/// a removed entry of `/tmp` is no longer subscribed to.
pub open spec fn subscriptions_after(
    subscribed: Seq<Seq<char>>,
    kind: FsEventKind,
    paths: Seq<Seq<char>>,
) -> Seq<Seq<char>> {
    match kind {
        FsEventKind::Remove => without(subscribed, top_level(paths)),
        _ => subscribed,
    }
}

fn top_level_paths(paths: &Vec<String>) -> (top: Vec<String>)
    ensures
        top.deep_view() == top_level(paths.deep_view()),
{
    let mut top: Vec<String> = Vec::new();
    let mut i: usize = 0;
    assert(top.deep_view() =~= Seq::empty());
    while i < paths.len()
        invariant
            i <= paths.len(),
            top.deep_view() == top_level(paths.deep_view().take(i as int)),
        decreases paths.len() - i,
    {
        assert(paths.deep_view().take(i + 1).drop_last() =~= paths.deep_view().take(i as int));
        if path_is_directly_under(paths[i].as_str(), "tmp") {
            let ghost before = top.deep_view();
            top.push(paths[i].clone());
            assert(top.deep_view() =~= before.push(paths.deep_view()[i as int]));
        }
        i += 1;
    }
    assert(paths.deep_view().take(paths.len() as int) =~= paths.deep_view());
    top
}

fn agent_directory_paths(paths: &Vec<String>) -> (dirs: Vec<String>)
    ensures
        dirs.deep_view() == agent_directories(paths.deep_view()),
{
    let mut dirs: Vec<String> = Vec::new();
    let mut i: usize = 0;
    assert(dirs.deep_view() =~= Seq::empty());
    while i < paths.len()
        invariant
            i <= paths.len(),
            dirs.deep_view() == agent_directories(paths.deep_view().take(i as int)),
        decreases paths.len() - i,
    {
        assert(paths.deep_view().take(i + 1).drop_last() =~= paths.deep_view().take(i as int));
        if path_is_directly_under(paths[i].as_str(), "tmp") && should_watch_directory(
            paths[i].as_str(),
        ) {
            let ghost before = dirs.deep_view();
            dirs.push(paths[i].clone());
            assert(dirs.deep_view() =~= before.push(paths.deep_view()[i as int]));
        }
        i += 1;
    }
    assert(paths.deep_view().take(paths.len() as int) =~= paths.deep_view());
    dirs
}

/// The state of selective watching: the agent directories under `/tmp` that
/// are subscribed to, each once, in the order they were subscribed.
///
/// `/tmp` itself is watched without its subdirectories, and only directories
/// that may hold forwarded agents are watched in depth, so that directories
/// closed to the user are never touched.
#[derive(Debug)]
pub struct SmartWatcher {
    watched_dirs: Vec<String>,
}

impl View for SmartWatcher {
    type V = Seq<Seq<char>>;

    closed spec fn view(&self) -> Seq<Seq<char>> {
        self.watched_dirs.deep_view()
    }
}

impl SmartWatcher {
    #[verifier::type_invariant]
    spec fn inv(self) -> bool {
        self@.no_duplicates()
    }

    /// A watcher with no subscriptions yet.
    pub fn new() -> (watcher: Self)
        ensures
            watcher@ == Seq::<Seq<char>>::empty(),
    {
        let watcher = Self { watched_dirs: Vec::new() };
        assert(watcher@ =~= Seq::empty());
        watcher
    }

    /// Get list of currently watched directories
    pub fn watched_directories(&self) -> (dirs: Vec<String>)
        ensures
            dirs.deep_view() == self@,
            self@.no_duplicates(),
    {
        proof {
            use_type_invariant(self);
        }
        let mut dirs: Vec<String> = Vec::new();
        let mut i: usize = 0;
        assert(dirs.deep_view() =~= Seq::empty());
        while i < self.watched_dirs.len()
            invariant
                i <= self.watched_dirs.len(),
                dirs.deep_view() == self@.take(i as int),
            decreases self.watched_dirs.len() - i,
        {
            let ghost before = dirs.deep_view();
            dirs.push(self.watched_dirs[i].clone());
            assert(dirs.deep_view() =~= before.push(self@[i as int]));
            assert(self@.take(i + 1) =~= self@.take(i as int).push(self@[i as int]));
            i += 1;
        }
        assert(self@.take(self.watched_dirs.len() as int) =~= self@);
        dirs
    }

    /// Whether `path` is an agent directory that is not subscribed to yet, so
    /// that a subscription should be attempted.
    pub fn needs_subscription(&self, path: &str) -> (yes: bool)
        ensures
            yes == (is_agent_directory(path@) && !self@.contains(path@)),
    {
        should_watch_directory(path) && !contains_path(&self.watched_dirs, path)
    }

    /// Try to add a directory to the watch list, where `subscribed` says
    /// whether the subscription to its file events succeeded, for a path that
    /// needed one.  Returns whether the directory is watched afterwards.
    pub fn try_watch_directory(&mut self, path: &str, subscribed: bool) -> (watching: bool)
        ensures
            watching == (is_agent_directory(path@) && (old(self)@.contains(path@) || subscribed)),
            final(self)@ == if is_agent_directory(path@) && !old(self)@.contains(path@)
                && subscribed {
                old(self)@.push(path@)
            } else {
                old(self)@
            },
    {
        proof {
            use_type_invariant(&*self);
        }
        if !should_watch_directory(path) {
            return false;
        }
        if contains_path(&self.watched_dirs, path) {
            return true;
        }
        if subscribed {
            let mut dirs: Vec<String> = Vec::new();
            core::mem::swap(&mut self.watched_dirs, &mut dirs);
            push_distinct(&mut dirs, path);
            assert(dirs.deep_view().no_duplicates()) by {
                assert forall|i: int, j: int|
                    0 <= i < dirs.deep_view().len() && 0 <= j < dirs.deep_view().len() && i
                        != j implies dirs.deep_view()[i] != dirs.deep_view()[j] by {
                    if i < old(self)@.len() && j < old(self)@.len() {
                        assert(old(self)@[i] != old(self)@[j]);
                    } else if i < old(self)@.len() {
                        assert(old(self)@.contains(old(self)@[i]));
                    } else {
                        assert(old(self)@.contains(old(self)@[j]));
                    }
                }
            }
            self.watched_dirs = dirs;
            true
        } else {
            false
        }
    }

    /// Remove a directory from the watch list.  Returns whether it was on
    /// the list, in which case its subscription should be cancelled.
    pub fn unwatch_directory(&mut self, path: &str) -> (was_watched: bool)
        ensures
            was_watched == old(self)@.contains(path@),
            final(self)@ == without(old(self)@, seq![path@]),
    {
        proof {
            use_type_invariant(&*self);
            lemma_without(self@, seq![path@]);
        }
        let was_watched = contains_path(&self.watched_dirs, path);
        let mut gone: Vec<String> = Vec::new();
        gone.push(crate::text::owned(path));
        assert(gone.deep_view() =~= seq![path@]);
        let rest = paths_without(&self.watched_dirs, &gone);
        self.watched_dirs = rest;
        was_watched
    }

    /// Handle a file event under selective watching, given for each path
    /// whether it still exists.
    pub fn apply_event(
        &mut self,
        kind: FsEventKind,
        paths: &Vec<String>,
        present: &Vec<bool>,
    ) -> (outcome: SmartEventOutcome)
        requires
            present.len() == paths.len(),
        ensures
            outcome.deep_view() == smart_outcome_of(kind, paths.deep_view(), present@),
            final(self)@ == subscriptions_after(old(self)@, kind, paths.deep_view()),
    {
        proof {
            use_type_invariant(&*self);
        }
        match kind {
            FsEventKind::CreateFolder => {
                let events: Vec<WatchEvent> = Vec::new();
                assert(events.deep_view() =~= Seq::empty());
                SmartEventOutcome { events, new_directories: agent_directory_paths(paths) }
            },
            FsEventKind::Create | FsEventKind::Modify => {
                let new_directories: Vec<String> = Vec::new();
                assert(new_directories.deep_view() =~= Seq::empty());
                SmartEventOutcome { events: added_events_for(paths, present), new_directories }
            },
            FsEventKind::Remove => {
                let gone = top_level_paths(paths);
                proof {
                    lemma_without(self@, gone.deep_view());
                }
                let rest = paths_without(&self.watched_dirs, &gone);
                self.watched_dirs = rest;
                let new_directories: Vec<String> = Vec::new();
                assert(new_directories.deep_view() =~= Seq::empty());
                SmartEventOutcome { events: removed_events_for(paths), new_directories }
            },
            FsEventKind::Other => {
                let events: Vec<WatchEvent> = Vec::new();
                let new_directories: Vec<String> = Vec::new();
                assert(events.deep_view() =~= Seq::empty());
                assert(new_directories.deep_view() =~= Seq::empty());
                SmartEventOutcome { events, new_directories }
            },
        }
    }

    /// Handle a file event under selective watching: probes the disk for the
    /// forwarded agents among `paths`, says which were added and which
    /// removed, and forgets subscriptions to removed directories.
    pub fn handle_smart_event(
        &mut self,
        kind: FsEventKind,
        paths: &Vec<String>,
    ) -> (outcome: SmartEventOutcome)
        ensures
            exists|present: Seq<bool>|
                present.len() == paths.len() && outcome.deep_view() == #[trigger] smart_outcome_of(
                    kind,
                    paths.deep_view(),
                    present,
                ),
            final(self)@ == subscriptions_after(old(self)@, kind, paths.deep_view()),
    {
        let present = probe_forwarded(paths);
        self.apply_event(kind, paths, &present)
    }
}

/// What a scan has to find out about one entry of `/tmp`.
#[derive(Debug, Clone)]
pub struct ScanRequest {
    /// Paths to probe: the files that must have an exact name
    pub candidates: Vec<String>,
    /// Whether the entries of the directory have to be listed, for the files
    /// that are known by the beginning of their name
    pub list_entries: bool,
}

/// The mathematical form of a [`ScanRequest`].
pub ghost struct ScanRequestView {
    pub candidates: Seq<Seq<char>>,
    pub list_entries: bool,
}

impl DeepView for ScanRequest {
    type V = ScanRequestView;

    open spec fn deep_view(&self) -> ScanRequestView {
        ScanRequestView {
            candidates: self.candidates.deep_view(),
            list_entries: self.list_entries,
        }
    }
}

/// The files to probe in the directory at `dir`, whose name is `name`: for
/// each rule that accepts the directory and asks for a file of an exact
/// name, that file, in the order of the rules.
pub open spec fn exact_candidates(
    patterns: Seq<ForwardedAgentPattern>,
    dir: Seq<char>,
    name: Seq<char>,
) -> Seq<Seq<char>>
    decreases patterns.len(),
{
    if patterns.len() == 0 {
        Seq::empty()
    } else {
        let before = exact_candidates(patterns.drop_last(), dir, name);
        match patterns.last().file_pattern {
            NamePattern::Exact(file) => if patterns.last().dir_pattern.accepts(name) {
                before.push(child(dir, file@))
            } else {
                before
            },
            NamePattern::Prefix(_) => before,
        }
    }
}

/// Whether some rule accepts a directory named `name` and knows its files by
/// the beginning of their name, so that the directory has to be listed.
pub open spec fn wants_listing(patterns: Seq<ForwardedAgentPattern>, name: Seq<char>) -> bool {
    exists|k: int|
        0 <= k < patterns.len() && (#[trigger] patterns[k]).dir_pattern.accepts(name)
            && patterns[k].file_pattern is Prefix
}

/// What a scan has to find out about the entry of `/tmp` at `dir`: nothing
/// of an entry without a name.
pub open spec fn scan_request_of(dir: Seq<char>) -> ScanRequestView {
    match file_name(dir) {
        Some(name) => ScanRequestView {
            candidates: exact_candidates(forwarded_agent_patterns(), dir, name),
            list_entries: wants_listing(forwarded_agent_patterns(), name),
        },
        None => ScanRequestView { candidates: Seq::empty(), list_entries: false },
    }
}

/// Says what a scan has to find out about the directory at `dir`: which
/// files to probe and whether to list the directory.  A directory is listed
/// only where a rule needs it, so that a directory that cannot be read does
/// not stop the scan where a probe will do.
pub fn scan_request(dir: &str) -> (request: ScanRequest)
    ensures
        request.deep_view() == scan_request_of(dir@),
{
    let mut candidates: Vec<String> = Vec::new();
    let mut list_entries = false;
    assert(candidates.deep_view() =~= Seq::empty());
    let name = match file_name_of(dir) {
        Some(name) => name,
        None => {
            return ScanRequest { candidates, list_entries };
        },
    };
    let patterns = agent_patterns();
    let mut k: usize = 0;
    while k < patterns.len()
        invariant
            k <= patterns.len(),
            patterns@ == forwarded_agent_patterns(),
            file_name(dir@) == Some(name@),
            candidates.deep_view() == exact_candidates(patterns@.take(k as int), dir@, name@),
            list_entries == wants_listing(patterns@.take(k as int), name@),
        decreases patterns.len() - k,
    {
        let ghost seen = patterns@.take(k as int);
        let ghost next = patterns@.take(k + 1);
        assert(next.drop_last() =~= seen);
        assert(next.last() == patterns@[k as int]);
        let accepted = patterns[k].dir_pattern.matches(name.as_str());
        match patterns[k].file_pattern {
            NamePattern::Exact(file) => {
                if accepted {
                    let ghost before = candidates.deep_view();
                    candidates.push(child_path(dir, file));
                    assert(candidates.deep_view() =~= before.push(child(dir@, file@)));
                }
                assert(wants_listing(next, name@) == wants_listing(seen, name@)) by {
                    if wants_listing(next, name@) {
                        let i = choose|i: int|
                            0 <= i < next.len() && (#[trigger] next[i]).dir_pattern.accepts(name@)
                                && next[i].file_pattern is Prefix;
                        assert(seen[i] == next[i]);
                    }
                    if wants_listing(seen, name@) {
                        let i = choose|i: int|
                            0 <= i < seen.len() && (#[trigger] seen[i]).dir_pattern.accepts(name@)
                                && seen[i].file_pattern is Prefix;
                        assert(next[i] == seen[i]);
                    }
                }
            },
            NamePattern::Prefix(_) => {
                assert(wants_listing(next, name@) == (wants_listing(seen, name@) || accepted)) by {
                    if wants_listing(next, name@) {
                        let i = choose|i: int|
                            0 <= i < next.len() && (#[trigger] next[i]).dir_pattern.accepts(name@)
                                && next[i].file_pattern is Prefix;
                        if i < k {
                            assert(seen[i] == next[i]);
                        }
                    }
                    if wants_listing(seen, name@) {
                        let i = choose|i: int|
                            0 <= i < seen.len() && (#[trigger] seen[i]).dir_pattern.accepts(name@)
                                && seen[i].file_pattern is Prefix;
                        assert(next[i] == seen[i]);
                    }
                    if accepted {
                        assert(next[k as int].dir_pattern.accepts(name@));
                    }
                }
                if accepted {
                    list_entries = true;
                }
            },
        }
        k += 1;
    }
    assert(patterns@.take(patterns.len() as int) =~= patterns@);
    ScanRequest { candidates, list_entries }
}

/// An entry of a scanned directory.
#[derive(Debug, Clone)]
pub struct ScannedEntry {
    /// The full path of the entry
    pub path: String,
    /// Whether the path leads to something that exists
    pub exists: bool,
}

/// The mathematical form of a [`ScannedEntry`].
pub ghost struct ScannedEntryView {
    pub path: Seq<char>,
    pub exists: bool,
}

impl DeepView for ScannedEntry {
    type V = ScannedEntryView;

    open spec fn deep_view(&self) -> ScannedEntryView {
        ScannedEntryView { path: self.path@, exists: self.exists }
    }
}

/// An entry of `/tmp` as a scan saw it.
#[derive(Debug, Clone)]
pub struct ScannedDir {
    /// The full path of the entry
    pub path: String,
    /// Whether the entry is a directory
    pub is_dir: bool,
    /// What the directory holds; of interest only for agent directories
    pub entries: Vec<ScannedEntry>,
}

/// The mathematical form of a [`ScannedDir`].
pub ghost struct ScannedDirView {
    pub path: Seq<char>,
    pub is_dir: bool,
    pub entries: Seq<ScannedEntryView>,
}

impl DeepView for ScannedDir {
    type V = ScannedDirView;

    open spec fn deep_view(&self) -> ScannedDirView {
        ScannedDirView {
            path: self.path@,
            is_dir: self.is_dir,
            entries: self.entries.deep_view(),
        }
    }
}

/// The paths among `entries` that are forwarded agents and exist, in order.
pub open spec fn agents_among(entries: Seq<ScannedEntryView>) -> Seq<Seq<char>>
    decreases entries.len(),
{
    if entries.len() == 0 {
        Seq::empty()
    } else {
        let before = agents_among(entries.drop_last());
        if entries.last().exists && is_forwarded_agent_path(entries.last().path) {
            before.push(entries.last().path)
        } else {
            before
        }
    }
}

/// The forwarded agents that one entry of `/tmp` holds: none unless it is an
/// agent directory.
pub open spec fn agents_in(dir: ScannedDirView) -> Seq<Seq<char>> {
    if dir.is_dir && is_agent_directory(dir.path) {
        agents_among(dir.entries)
    } else {
        Seq::empty()
    }
}

/// The forwarded agents that the entries of `/tmp` hold, in order, with
/// repeats.
pub open spec fn agents_found(listing: Seq<ScannedDirView>) -> Seq<Seq<char>>
    decreases listing.len(),
{
    if listing.len() == 0 {
        Seq::empty()
    } else {
        agents_found(listing.drop_last()) + agents_in(listing.last())
    }
}

/// Every path that a scan finds is the path of a forwarded agent.
pub proof fn lemma_scan_finds_forwarded_agents(listing: Seq<ScannedDirView>, path: Seq<char>)
    requires
        distinct(agents_found(listing)).contains(path),
    ensures
        is_forwarded_agent_path(path),
{
    lemma_distinct(agents_found(listing));
    lemma_found_are_forwarded(listing, path);
}

proof fn lemma_found_are_forwarded(listing: Seq<ScannedDirView>, path: Seq<char>)
    requires
        agents_found(listing).contains(path),
    ensures
        is_forwarded_agent_path(path),
    decreases listing.len(),
{
    let before = agents_found(listing.drop_last());
    let last = agents_in(listing.last());
    let k = choose|k: int| 0 <= k < agents_found(listing).len() && agents_found(listing)[k] == path;
    if k < before.len() {
        assert(before[k] == path);
        lemma_found_are_forwarded(listing.drop_last(), path);
    } else {
        assert(last[k - before.len()] == path);
        lemma_among_are_forwarded(listing.last().entries, path);
    }
}

proof fn lemma_among_are_forwarded(entries: Seq<ScannedEntryView>, path: Seq<char>)
    requires
        agents_among(entries).contains(path),
    ensures
        is_forwarded_agent_path(path),
    decreases entries.len(),
{
    let before = agents_among(entries.drop_last());
    let k = choose|k: int| 0 <= k < agents_among(entries).len() && agents_among(entries)[k] == path;
    if k < before.len() {
        assert(before[k] == path);
        lemma_among_are_forwarded(entries.drop_last(), path);
    }
}

/// Picks the existing SSH forwarded agents out of a scan of `/tmp`, one level
/// deep: every existing entry of an agent directory whose path is that of a
/// forwarded agent, each once, in the order found.
pub fn scan_existing_agents(listing: &Vec<ScannedDir>) -> (agents: Vec<String>)
    ensures
        agents.deep_view() == distinct(agents_found(listing.deep_view())),
{
    let mut found: Vec<String> = Vec::new();
    let mut i: usize = 0;
    assert(found.deep_view() =~= Seq::empty());
    while i < listing.len()
        invariant
            i <= listing.len(),
            found.deep_view() == agents_found(listing.deep_view().take(i as int)),
        decreases listing.len() - i,
    {
        assert(listing.deep_view().take(i + 1).drop_last() =~= listing.deep_view().take(i as int));
        assert(listing.deep_view().take(i + 1).last() == listing@[i as int].deep_view());
        let dir = &listing[i];
        if dir.is_dir && should_watch_directory(dir.path.as_str()) {
            let ghost before = found.deep_view();
            let mut j: usize = 0;
            assert(found.deep_view() =~= before + Seq::empty());
            while j < dir.entries.len()
                invariant
                    j <= dir.entries.len(),
                    found.deep_view() == before + agents_among(
                        dir.entries.deep_view().take(j as int),
                    ),
                decreases dir.entries.len() - j,
            {
                assert(dir.entries.deep_view().take(j + 1).drop_last()
                    =~= dir.entries.deep_view().take(j as int));
                assert(dir.entries.deep_view().take(j + 1).last()
                    == dir.entries@[j as int].deep_view());
                let entry = &dir.entries[j];
                if entry.exists && is_ssh_forwarded_agent(entry.path.as_str()) {
                    let ghost sofar = found.deep_view();
                    found.push(entry.path.clone());
                    assert(found.deep_view() =~= sofar.push(entry.path@));
                    assert(found.deep_view() =~= before + agents_among(
                        dir.entries.deep_view().take(j + 1),
                    ));
                }
                j += 1;
            }
            assert(dir.entries.deep_view().take(dir.entries.len() as int)
                =~= dir.entries.deep_view());
        } else {
            assert(found.deep_view() =~= found.deep_view() + Seq::empty());
        }
        i += 1;
    }
    assert(listing.deep_view().take(listing.len() as int) =~= listing.deep_view());
    distinct_paths(&found)
}

/// The events of one poll: an addition for every agent of `current` that was
/// not known, then a removal for every known agent that `current` lacks.
pub open spec fn poll_events(
    known: Seq<Seq<char>>,
    current: Seq<Seq<char>>,
) -> Seq<WatchEventView> {
    additions(without(distinct(current), known)) + removals(without(known, current))
}

/// Each poll reports every arrival once, every departure once, and nothing
/// else.
pub proof fn lemma_poll_events_exactly_once(known: Seq<Seq<char>>, current: Seq<Seq<char>>)
    requires
        known.no_duplicates(),
    ensures
        poll_events(known, current).no_duplicates(),
        forall|path: Seq<char>| #[trigger]
            poll_events(known, current).contains(WatchEventView::Added(path)) <==> current.contains(
                path,
            ) && !known.contains(path),
        forall|path: Seq<char>| #[trigger]
            poll_events(known, current).contains(WatchEventView::Removed(path)) <==> known.contains(
                path,
            ) && !current.contains(path),
{
    let arrivals = without(distinct(current), known);
    let departures = without(known, current);
    let events = poll_events(known, current);
    lemma_distinct(current);
    lemma_without(distinct(current), known);
    lemma_without(known, current);
    assert forall|i: int, j: int| 0 <= i < events.len() && 0 <= j < events.len() && i
        != j implies events[i] != events[j] by {
        if i < arrivals.len() && j < arrivals.len() {
            assert(arrivals[i] != arrivals[j]);
        } else if i >= arrivals.len() && j >= arrivals.len() {
            assert(departures[i - arrivals.len()] != departures[j - arrivals.len()]);
        }
    }
    assert forall|path: Seq<char>| #[trigger]
        events.contains(WatchEventView::Added(path)) <==> current.contains(path)
            && !known.contains(path) by {
        if events.contains(WatchEventView::Added(path)) {
            let k = choose|k: int| 0 <= k < events.len() && events[k] == WatchEventView::Added(path);
            assert(k < arrivals.len());
            assert(arrivals[k] == path);
            assert(arrivals.contains(path));
            assert(distinct(current).contains(path));
        }
        if current.contains(path) && !known.contains(path) {
            assert(distinct(current).contains(path));
            assert(arrivals.contains(path));
            let k = choose|k: int| 0 <= k < arrivals.len() && arrivals[k] == path;
            assert(events[k] == WatchEventView::Added(path));
        }
    }
    assert forall|path: Seq<char>| #[trigger]
        events.contains(WatchEventView::Removed(path)) <==> known.contains(path)
            && !current.contains(path) by {
        if events.contains(WatchEventView::Removed(path)) {
            let k = choose|k: int|
                0 <= k < events.len() && events[k] == WatchEventView::Removed(path);
            assert(k >= arrivals.len());
            assert(departures[k - arrivals.len()] == path);
            assert(departures.contains(path));
        }
        if known.contains(path) && !current.contains(path) {
            assert(departures.contains(path));
            let k = choose|k: int| 0 <= k < departures.len() && departures[k] == path;
            assert(events[arrivals.len() + k] == WatchEventView::Removed(path));
        }
    }
}

/// The state of polling: the forwarded agents seen by the last scan that
/// succeeded, each once.
#[derive(Debug)]
pub struct PollingState {
    known: Vec<String>,
}

impl View for PollingState {
    type V = Seq<Seq<char>>;

    closed spec fn view(&self) -> Seq<Seq<char>> {
        self.known.deep_view()
    }
}

impl PollingState {
    #[verifier::type_invariant]
    spec fn inv(self) -> bool {
        self@.no_duplicates()
    }

    /// The state after the first scan, which reports nothing; a scan that
    /// failed (`None`) leaves no agent known.
    pub fn new(initial: Option<Vec<String>>) -> (state: Self)
        ensures
            state@ == match initial {
                Some(agents) => distinct(agents.deep_view()),
                None => Seq::empty(),
            },
    {
        match initial {
            Some(agents) => {
                proof {
                    lemma_distinct(agents.deep_view());
                }
                Self { known: distinct_paths(&agents) }
            },
            None => {
                let known: Vec<String> = Vec::new();
                assert(known.deep_view() =~= Seq::empty());
                Self { known }
            },
        }
    }

    /// The agents known from the last scan that succeeded.
    pub fn known_agents(&self) -> (agents: Vec<String>)
        ensures
            agents.deep_view() == self@,
            self@.no_duplicates(),
    {
        proof {
            use_type_invariant(self);
            lemma_distinct(self@);
        }
        distinct_paths(&self.known)
    }

    /// Takes in the scan of one poll and returns the events to report.  A
    /// scan that failed (`None`) changes nothing and reports nothing.
    pub fn tick(&mut self, scan: Option<Vec<String>>) -> (events: Vec<WatchEvent>)
        ensures
            match scan {
                Some(current) => {
                    &&& final(self)@ == distinct(current.deep_view())
                    &&& events.deep_view() == poll_events(old(self)@, current.deep_view())
                },
                None => {
                    &&& final(self)@ == old(self)@
                    &&& events.deep_view() == Seq::<WatchEventView>::empty()
                },
            },
    {
        proof {
            use_type_invariant(&*self);
        }
        match scan {
            Some(current) => {
                proof {
                    lemma_distinct(current.deep_view());
                }
                let unique = distinct_paths(&current);
                let arrivals = paths_without(&unique, &self.known);
                let departures = paths_without(&self.known, &current);
                let mut events: Vec<WatchEvent> = Vec::new();
                let mut i: usize = 0;
                assert(events.deep_view() =~= additions(arrivals.deep_view().take(0)));
                while i < arrivals.len()
                    invariant
                        i <= arrivals.len(),
                        events.deep_view() == additions(arrivals.deep_view().take(i as int)),
                    decreases arrivals.len() - i,
                {
                    let ghost before = events.deep_view();
                    events.push(WatchEvent::Added(arrivals[i].clone()));
                    assert(events.deep_view() =~= before.push(
                        WatchEventView::Added(arrivals.deep_view()[i as int]),
                    ));
                    assert(events.deep_view() =~= additions(arrivals.deep_view().take(i + 1)));
                    i += 1;
                }
                assert(arrivals.deep_view().take(arrivals.len() as int) =~= arrivals.deep_view());
                let mut j: usize = 0;
                assert(events.deep_view() =~= additions(arrivals.deep_view()) + removals(
                    departures.deep_view().take(0),
                ));
                while j < departures.len()
                    invariant
                        j <= departures.len(),
                        events.deep_view() == additions(arrivals.deep_view()) + removals(
                            departures.deep_view().take(j as int),
                        ),
                    decreases departures.len() - j,
                {
                    let ghost before = events.deep_view();
                    events.push(WatchEvent::Removed(departures[j].clone()));
                    assert(events.deep_view() =~= before.push(
                        WatchEventView::Removed(departures.deep_view()[j as int]),
                    ));
                    assert(events.deep_view() =~= additions(arrivals.deep_view()) + removals(
                        departures.deep_view().take(j + 1),
                    ));
                    j += 1;
                }
                assert(departures.deep_view().take(departures.len() as int)
                    =~= departures.deep_view());
                self.known = unique;
                events
            },
            None => {
                let events: Vec<WatchEvent> = Vec::new();
                assert(events.deep_view() =~= Seq::empty());
                events
            },
        }
    }
}

/// Watcher mode - either selective file watching or polling fallback
#[derive(Debug)]
pub enum WatchMode {
    /// Using file events (inotify/FSEvents)
    Smart(SmartWatcher),
    /// Using polling fallback (when file watching fails)
    Polling,
}

/// Result of attempting to start watching
#[derive(Debug)]
pub struct WatchResult {
    /// The watcher mode that was started
    pub mode: WatchMode,
    /// Error message if fell back to polling
    pub fallback_reason: Option<String>,
}

/// Decides the mode of watching from the attempt to watch by file events:
/// where the attempt failed, polling takes over and the error is kept as the
/// reason.
pub fn start_watching(attempt: Result<SmartWatcher, String>) -> (result: WatchResult)
    ensures
        match attempt {
            Ok(watcher) => result.mode == WatchMode::Smart(watcher) && result.fallback_reason
                is None,
            Err(reason) => result.mode is Polling && result.fallback_reason == Some(reason),
        },
{
    match attempt {
        Ok(watcher) => WatchResult { mode: WatchMode::Smart(watcher), fallback_reason: None },
        Err(reason) => WatchResult { mode: WatchMode::Polling, fallback_reason: Some(reason) },
    }
}

} // verus!
