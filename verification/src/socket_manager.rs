//! The socket registry: the ordered, live set of upstream agent sockets.
//!
//! Sockets come from two places.  *Configured* sockets are given by the
//! configuration, in an order that matters, and change only when the whole
//! list is replaced.  *Watched* sockets are discovered or added at run time;
//! each path is watched at most once and remembers the instant it was added.
//! Requests are dispatched over the *ordered view*: the watched sockets,
//! newest first, followed by the configured sockets in their given order.

use vstd::prelude::*;
use vstd::string::StringExecFns;
use crate::clock::{now, Timestamp};
use crate::control::protocol::{SocketInfo, SocketInfoView, SocketSource};
use crate::probe::probe_all;
use crate::text::{decimal, join, joined, owned, push_decimal, same_text};

verus! {

/// The mathematical form of a watched socket.
pub ghost struct WatchedSocketView {
    pub path: Seq<char>,
    pub created_at: Timestamp,
    /// Whether the socket was healthy at its last probe
    pub last_healthy: Option<bool>,
    /// When the socket was last probed
    pub last_health_check: Option<Timestamp>,
    /// Number of keys the socket held at its last probe, if known
    pub key_count: Option<usize>,
}

impl WatchedSocketView {
    /// A socket watched since `at` that has not been probed yet.
    pub open spec fn fresh(path: Seq<char>, at: Timestamp) -> WatchedSocketView {
        WatchedSocketView {
            path,
            created_at: at,
            last_healthy: None,
            last_health_check: None,
            key_count: None,
        }
    }

    /// This socket after a probe at `at`.
    pub open spec fn probed(
        self,
        healthy: bool,
        key_count: Option<usize>,
        at: Timestamp,
    ) -> WatchedSocketView {
        WatchedSocketView {
            last_healthy: Some(healthy),
            last_health_check: Some(at),
            key_count,
            ..self
        }
    }

    /// Whether the socket counts as healthy, where `exists` says whether its
    /// path is on disk: the path exists and the last probe, if there was one,
    /// succeeded.
    pub open spec fn healthy(self, exists: bool) -> bool {
        exists && match self.last_healthy {
            Some(healthy) => healthy,
            None => true,
        }
    }

    /// What is reported of this socket at position `index` of the ordered
    /// view, where `exists` says whether its path is on disk.
    pub open spec fn info(self, exists: bool, index: int) -> SocketInfoView {
        SocketInfoView {
            path: self.path,
            source: SocketSource::Watched,
            added_at: self.created_at.rfc3339(),
            healthy: self.healthy(exists),
            last_health_check: match self.last_health_check {
                Some(at) => at.rfc3339(),
                None => None,
            },
            key_count: self.key_count,
            order: (index + 1) as usize,
        }
    }
}

/// What is reported of a configured socket at position `index` of the
/// ordered view, where `exists` says whether its path is on disk.
pub open spec fn configured_info(path: Seq<char>, exists: bool, index: int) -> SocketInfoView {
    SocketInfoView {
        path,
        source: SocketSource::Configured,
        added_at: None,
        healthy: exists,
        last_health_check: None,
        key_count: None,
        order: (index + 1) as usize,
    }
}

/// Where a socket added at `at` goes among `watched`: behind every socket
/// added at that instant or later, so that the newest stays first and of two
/// sockets added at one instant the one added first stays first.
pub open spec fn slot_for(watched: Seq<WatchedSocketView>, at: Timestamp) -> int
    decreases watched.len(),
{
    if watched.len() == 0 {
        0
    } else if watched.last().created_at.at_or_after(at) {
        watched.len() as int
    } else {
        slot_for(watched.drop_last(), at)
    }
}

/// The sockets of `watched` whose mark in `present` is set, in order.
pub open spec fn kept(
    watched: Seq<WatchedSocketView>,
    present: Seq<bool>,
) -> Seq<WatchedSocketView>
    recommends
        present.len() == watched.len(),
    decreases watched.len(),
{
    if watched.len() == 0 {
        Seq::empty()
    } else {
        let before = kept(watched.drop_last(), present.drop_last());
        if present.last() {
            before.push(watched.last())
        } else {
            before
        }
    }
}

/// The paths of the sockets of `watched` whose mark in `present` is not set,
/// in order.
pub open spec fn dropped(watched: Seq<WatchedSocketView>, present: Seq<bool>) -> Seq<Seq<char>>
    recommends
        present.len() == watched.len(),
    decreases watched.len(),
{
    if watched.len() == 0 {
        Seq::empty()
    } else {
        let before = dropped(watched.drop_last(), present.drop_last());
        if present.last() {
            before
        } else {
            before.push(watched.last().path)
        }
    }
}

/// Whether a later position never holds a newer socket.
pub open spec fn newest_first(watched: Seq<WatchedSocketView>) -> bool {
    forall|i: int, j: int|
        0 <= i < j < watched.len() ==> (#[trigger] watched[i]).created_at.at_or_after(
            (#[trigger] watched[j]).created_at,
        )
}

/// Whether no two sockets have the same path.
pub open spec fn distinct_paths(watched: Seq<WatchedSocketView>) -> bool {
    forall|i: int, j: int|
        0 <= i < j < watched.len() ==> (#[trigger] watched[i]).path != (#[trigger] watched[j]).path
}

/// The mathematical form of the registry.
pub ghost struct SocketManagerView {
    /// The configured sockets, in configuration order
    pub configured: Seq<Seq<char>>,
    /// The watched sockets, in the order of the ordered view
    pub watched: Seq<WatchedSocketView>,
    /// When the registry was made
    pub started_at: Timestamp,
    /// When a watched socket was last probed
    pub last_health_check: Option<Timestamp>,
}

impl SocketManagerView {
    /// The paths of the watched sockets, in the order of the ordered view.
    pub open spec fn watched_paths(self) -> Seq<Seq<char>> {
        Seq::new(self.watched.len(), |i: int| self.watched[i].path)
    }

    pub open spec fn is_watched(self, path: Seq<char>) -> bool {
        exists|i: int| 0 <= i < self.watched.len() && #[trigger] self.watched[i].path == path
    }

    pub open spec fn is_configured(self, path: Seq<char>) -> bool {
        self.configured.contains(path)
    }

    /// The ordered view: watched sockets first, then configured sockets.
    pub open spec fn ordered_paths(self) -> Seq<Seq<char>> {
        self.watched_paths() + self.configured
    }

    /// The invariant of the registry: the watched sockets stand newest first
    /// and no path is watched twice.
    pub open spec fn wf(self) -> bool {
        newest_first(self.watched) && distinct_paths(self.watched)
    }

    /// No path is both watched and configured.
    pub open spec fn disjoint(self) -> bool {
        forall|path: Seq<char>| !(self.is_watched(path) && self.is_configured(path))
    }

    /// A registry made at `at` with the given configured sockets.
    pub open spec fn initial(configured: Seq<Seq<char>>, at: Timestamp) -> SocketManagerView {
        SocketManagerView {
            configured,
            watched: Seq::empty(),
            started_at: at,
            last_health_check: None,
        }
    }

    /// The registry after `path` is added to the watched sockets at `at`:
    /// unchanged where the path is watched already.
    pub open spec fn added(self, path: Seq<char>, at: Timestamp) -> SocketManagerView {
        if self.is_watched(path) {
            self
        } else {
            SocketManagerView {
                watched: self.watched.insert(
                    slot_for(self.watched, at),
                    WatchedSocketView::fresh(path, at),
                ),
                ..self
            }
        }
    }

    /// The registry after `path` is taken from the watched sockets.
    pub open spec fn removed(self, path: Seq<char>) -> SocketManagerView {
        SocketManagerView {
            watched: self.watched.filter(|w: WatchedSocketView| w.path != path),
            ..self
        }
    }

    /// The registry after its configured sockets are replaced.
    pub open spec fn reconfigured(self, configured: Seq<Seq<char>>) -> SocketManagerView {
        SocketManagerView { configured, ..self }
    }

    /// The registry after the watched sockets not marked in `present` are
    /// dropped.
    pub open spec fn retained(self, present: Seq<bool>) -> SocketManagerView {
        SocketManagerView { watched: kept(self.watched, present), ..self }
    }

    /// The registry after a probe of `path` at `at`: unchanged where the path
    /// is not watched.
    pub open spec fn health_updated(
        self,
        path: Seq<char>,
        healthy: bool,
        key_count: Option<usize>,
        at: Timestamp,
    ) -> SocketManagerView {
        if self.is_watched(path) {
            SocketManagerView {
                watched: Seq::new(
                    self.watched.len(),
                    |i: int|
                        if self.watched[i].path == path {
                            self.watched[i].probed(healthy, key_count, at)
                        } else {
                            self.watched[i]
                        },
                ),
                last_health_check: Some(at),
                ..self
            }
        } else {
            self
        }
    }

    /// What is reported of every socket, in the order of the ordered view,
    /// where `present[i]` says whether the path at position `i` is on disk.
    pub open spec fn socket_infos(self, present: Seq<bool>) -> Seq<SocketInfoView>
        recommends
            present.len() == self.watched.len() + self.configured.len(),
    {
        Seq::new(
            self.watched.len() + self.configured.len(),
            |i: int|
                if i < self.watched.len() {
                    self.watched[i].info(present[i], i)
                } else {
                    configured_info(self.configured[i - self.watched.len()], present[i], i)
                },
        )
    }

    /// The number of sockets, as far as a `usize` can tell.
    pub open spec fn total(self) -> usize {
        if self.watched.len() + self.configured.len() <= usize::MAX {
            (self.watched.len() + self.configured.len()) as usize
        } else {
            usize::MAX
        }
    }

    /// The line that sums up the registry for the log, after `context`.
    pub open spec fn summary(self, context: Seq<char>) -> Seq<char> {
        let ordered = self.ordered_paths();
        let counts = "watched: "@ + decimal(self.watched.len()) + ", configured: "@ + decimal(
            self.configured.len(),
        );
        if ordered.len() == 0 {
            context + ": no active agent sockets ("@ + counts + ")"@
        } else {
            context + ": "@ + decimal(ordered.len()) + " active agent sockets ("@ + counts
                + "); order: ["@ + joined(ordered, ", "@) + "]"@
        }
    }
}

/// One change to the registry.
pub ghost enum RegistryChange {
    /// `add_watched` of a path at an instant
    Add { path: Seq<char>, at: Timestamp },
    /// `remove_watched` of a path
    Remove { path: Seq<char> },
    /// `update_configured` with a new list
    Configure { configured: Seq<Seq<char>> },
}

impl SocketManagerView {
    /// The registry after one change.
    pub open spec fn changed(self, change: RegistryChange) -> SocketManagerView {
        match change {
            RegistryChange::Add { path, at } => self.added(path, at),
            RegistryChange::Remove { path } => self.removed(path),
            RegistryChange::Configure { configured } => self.reconfigured(configured),
        }
    }

    /// The registry after a sequence of changes, applied first to last.
    pub open spec fn changed_by(self, changes: Seq<RegistryChange>) -> SocketManagerView
        decreases changes.len(),
    {
        if changes.len() == 0 {
            self
        } else {
            self.changed_by(changes.drop_last()).changed(changes.last())
        }
    }
}

/// Every socket before the slot for `at` was added at `at` or later, and every
/// socket from the slot on was added earlier.
pub proof fn lemma_slot_for(watched: Seq<WatchedSocketView>, at: Timestamp)
    requires
        newest_first(watched),
    ensures
        0 <= slot_for(watched, at) <= watched.len(),
        forall|i: int|
            0 <= i < slot_for(watched, at) ==> (#[trigger] watched[i]).created_at.at_or_after(at),
        forall|i: int|
            slot_for(watched, at) <= i < watched.len() ==> !(
            #[trigger] watched[i]).created_at.at_or_after(at),
    decreases watched.len(),
{
    if watched.len() == 0 {
    } else if watched.last().created_at.at_or_after(at) {
        assert forall|i: int| 0 <= i < watched.len() implies (
        #[trigger] watched[i]).created_at.at_or_after(at) by {
            if i < watched.len() - 1 {
                assert(watched[i].created_at.at_or_after(watched[watched.len() - 1].created_at));
            }
        }
    } else {
        let rest = watched.drop_last();
        assert(newest_first(rest)) by {
            assert forall|i: int, j: int| 0 <= i < j < rest.len() implies (
            #[trigger] rest[i]).created_at.at_or_after((#[trigger] rest[j]).created_at) by {
                assert(watched[i].created_at.at_or_after(watched[j].created_at));
            }
        }
        lemma_slot_for(rest, at);
        assert forall|i: int| slot_for(watched, at) <= i < watched.len() implies !(
        #[trigger] watched[i]).created_at.at_or_after(at) by {
            if i < rest.len() {
                assert(rest[i] == watched[i]);
            }
        }
        assert forall|i: int| 0 <= i < slot_for(watched, at) implies (
        #[trigger] watched[i]).created_at.at_or_after(at) by {
            assert(rest[i] == watched[i]);
        }
    }
}

/// Adding a watched socket keeps the invariant of the registry.
pub proof fn lemma_added_wf(m: SocketManagerView, path: Seq<char>, at: Timestamp)
    requires
        m.wf(),
    ensures
        m.added(path, at).wf(),
        m.added(path, at).is_watched(path),
        m.added(path, at).configured == m.configured,
{
    if m.is_watched(path) {
    } else {
        let slot = slot_for(m.watched, at);
        let entry = WatchedSocketView::fresh(path, at);
        let after = m.added(path, at);
        lemma_slot_for(m.watched, at);
        assert(after.watched[slot] == entry);
        assert(after.watched[slot].path == path);
        assert forall|i: int, j: int| 0 <= i < j < after.watched.len() implies (
        #[trigger] after.watched[i]).created_at.at_or_after(
            (#[trigger] after.watched[j]).created_at,
        ) by {
            if i == slot {
                assert(after.watched[j] == m.watched[j - 1]);
            } else if j == slot {
                assert(after.watched[i] == m.watched[i]);
            } else {
                let oi = if i < slot { i } else { i - 1 };
                let oj = if j < slot { j } else { j - 1 };
                assert(after.watched[i] == m.watched[oi]);
                assert(after.watched[j] == m.watched[oj]);
            }
        }
        assert forall|i: int, j: int| 0 <= i < j < after.watched.len() implies (
        #[trigger] after.watched[i]).path != (#[trigger] after.watched[j]).path by {
            let oi = if i < slot { i } else { i - 1 };
            let oj = if j < slot { j } else { j - 1 };
            if i == slot {
                assert(after.watched[j] == m.watched[oj]);
            } else if j == slot {
                assert(after.watched[i] == m.watched[oi]);
            } else {
                assert(after.watched[i] == m.watched[oi]);
                assert(after.watched[j] == m.watched[oj]);
            }
        }
    }
}

/// Taking `path` from the watched sockets of a well-formed registry removes
/// the one socket that has it, where `index` is that socket's position.
pub proof fn lemma_removed_at(m: SocketManagerView, path: Seq<char>, index: int)
    requires
        distinct_paths(m.watched),
        0 <= index < m.watched.len(),
        m.watched[index].path == path,
    ensures
        m.removed(path).watched == m.watched.remove(index),
    decreases m.watched.len(),
{
    let keep = |w: WatchedSocketView| w.path != path;
    reveal(Seq::filter);
    let last = m.watched.len() - 1;
    let rest = m.watched.drop_last();
    if index == last {
        lemma_filter_keeps_all(rest, path);
        assert(m.watched.remove(index) =~= rest);
    } else {
        let shorter = SocketManagerView { watched: rest, ..m };
        assert(distinct_paths(rest)) by {
            assert forall|i: int, j: int| 0 <= i < j < rest.len() implies (
            #[trigger] rest[i]).path != (#[trigger] rest[j]).path by {
                assert(m.watched[i].path != m.watched[j].path);
            }
        }
        lemma_removed_at(shorter, path, index);
        assert(m.watched[index].path != m.watched[last].path);
        assert(m.watched.remove(index) =~= rest.remove(index).push(m.watched[last]));
    }
}

/// Filtering out a path that no socket has changes nothing.
proof fn lemma_filter_keeps_all(watched: Seq<WatchedSocketView>, path: Seq<char>)
    requires
        forall|i: int| 0 <= i < watched.len() ==> (#[trigger] watched[i]).path != path,
    ensures
        watched.filter(|w: WatchedSocketView| w.path != path) == watched,
    decreases watched.len(),
{
    reveal(Seq::filter);
    if watched.len() > 0 {
        let rest = watched.drop_last();
        assert forall|i: int| 0 <= i < rest.len() implies (#[trigger] rest[i]).path != path by {
            assert(rest[i] == watched[i]);
        }
        lemma_filter_keeps_all(rest, path);
        assert(watched[watched.len() - 1].path != path);
        assert(rest.push(watched.last()) =~= watched);
    }
}

/// Removing a watched socket keeps the invariant of the registry, leaves the
/// configured sockets alone, and leaves the path unwatched.
pub proof fn lemma_removed_wf(m: SocketManagerView, path: Seq<char>)
    requires
        m.wf(),
    ensures
        m.removed(path).wf(),
        !m.removed(path).is_watched(path),
        m.removed(path).configured == m.configured,
        !m.is_watched(path) ==> m.removed(path) == m,
{
    if m.is_watched(path) {
        let index = choose|i: int| 0 <= i < m.watched.len() && #[trigger] m.watched[i].path == path;
        lemma_removed_at(m, path, index);
        let after = m.removed(path);
        assert forall|i: int| 0 <= i < after.watched.len() implies #[trigger] after.watched[i]
            == m.watched[if i < index { i } else { i + 1 }] by {}
        assert forall|i: int, j: int| 0 <= i < j < after.watched.len() implies (
        #[trigger] after.watched[i]).created_at.at_or_after(
            (#[trigger] after.watched[j]).created_at,
        ) by {
            let oi = if i < index { i } else { i + 1 };
            let oj = if j < index { j } else { j + 1 };
            assert(m.watched[oi].created_at.at_or_after(m.watched[oj].created_at));
        }
        assert forall|i: int, j: int| 0 <= i < j < after.watched.len() implies (
        #[trigger] after.watched[i]).path != (#[trigger] after.watched[j]).path by {
            let oi = if i < index { i } else { i + 1 };
            let oj = if j < index { j } else { j + 1 };
            assert(m.watched[oi].path != m.watched[oj].path);
        }
        assert forall|i: int| 0 <= i < after.watched.len() implies (
        #[trigger] after.watched[i]).path != path by {
            let oi = if i < index { i } else { i + 1 };
            if oi < index {
                assert(m.watched[oi].path != m.watched[index].path);
            } else {
                assert(m.watched[index].path != m.watched[oi].path);
            }
        }
    } else {
        lemma_filter_keeps_all(m.watched, path);
    }
}

/// After `path` is added, the watched paths are those watched before and
/// `path`.
pub proof fn lemma_added_watches(m: SocketManagerView, path: Seq<char>, at: Timestamp, other: Seq<char>)
    ensures
        m.added(path, at).is_watched(other) <==> other == path || m.is_watched(other),
{
    let after = m.added(path, at);
    if !m.is_watched(path) {
        let slot = slot_for(m.watched, at);
        lemma_slot_bounds(m.watched, at);
        if after.is_watched(other) {
            let i = choose|i: int| 0 <= i < after.watched.len() && #[trigger] after.watched[i].path == other;
            if i < slot {
                assert(m.watched[i].path == other);
            } else if i > slot {
                assert(m.watched[i - 1].path == other);
            }
        }
        if other == path {
            assert(after.watched[slot].path == other);
        } else if m.is_watched(other) {
            let i = choose|i: int| 0 <= i < m.watched.len() && #[trigger] m.watched[i].path == other;
            if i < slot {
                assert(after.watched[i].path == other);
            } else {
                assert(after.watched[i + 1].path == other);
            }
        }
    }
}

/// The slot for a new socket lies within the list or at its end.
pub proof fn lemma_slot_bounds(watched: Seq<WatchedSocketView>, at: Timestamp)
    ensures
        0 <= slot_for(watched, at) <= watched.len(),
    decreases watched.len(),
{
    if watched.len() > 0 && !watched.last().created_at.at_or_after(at) {
        lemma_slot_bounds(watched.drop_last(), at);
    }
}

/// After `path` is removed, the watched paths are those watched before other
/// than `path`.
pub proof fn lemma_removed_watches(m: SocketManagerView, path: Seq<char>, other: Seq<char>)
    ensures
        m.removed(path).is_watched(other) <==> other != path && m.is_watched(other),
{
    let keep = |w: WatchedSocketView| w.path != path;
    let after = m.removed(path);
    if after.is_watched(other) {
        let i = choose|i: int| 0 <= i < after.watched.len() && #[trigger] after.watched[i].path == other;
        m.watched.lemma_filter_pred(keep, i);
        assert(keep(after.watched[i]));
        assert(after.watched.contains(after.watched[i]));
        m.watched.lemma_filter_contains_rev(keep, after.watched[i]);
        let k = choose|k: int| 0 <= k < m.watched.len() && m.watched[k] == after.watched[i];
        assert(m.watched[k].path == other);
    }
    if other != path && m.is_watched(other) {
        let k = choose|k: int| 0 <= k < m.watched.len() && #[trigger] m.watched[k].path == other;
        assert(keep(m.watched[k]));
        m.watched.lemma_filter_contains(keep, k);
        assert(after.watched.contains(m.watched[k]));
        let i = choose|i: int| 0 <= i < after.watched.len() && after.watched[i] == m.watched[k];
        assert(after.watched[i].path == other);
    }
}

/// A path is watched after sockets are dropped exactly if it was watched and
/// its socket was marked present.
pub proof fn lemma_retained_watches(m: SocketManagerView, present: Seq<bool>, other: Seq<char>)
    requires
        present.len() == m.watched.len(),
    ensures
        m.retained(present).is_watched(other) <==> exists|i: int|
            0 <= i < m.watched.len() && #[trigger] m.watched[i].path == other && present[i],
    decreases m.watched.len(),
{
    if m.watched.len() > 0 {
        let rest = m.watched.drop_last();
        let marks = present.drop_last();
        let shorter = SocketManagerView { watched: rest, ..m };
        lemma_retained_watches(shorter, marks, other);
        let before = kept(rest, marks);
        let after = m.retained(present).watched;
        let last = m.watched.len() - 1;
        if m.retained(present).is_watched(other) {
            let k = choose|k: int| 0 <= k < after.len() && #[trigger] after[k].path == other;
            if k < before.len() {
                assert(shorter.retained(marks).watched[k].path == other);
                let i = choose|i: int| 0 <= i < rest.len() && #[trigger] rest[i].path == other && marks[i];
                assert(m.watched[i].path == other && present[i]);
            } else {
                assert(m.watched[last].path == other && present[last]);
            }
        }
        if exists|i: int| 0 <= i < m.watched.len() && #[trigger] m.watched[i].path == other && present[i] {
            let i = choose|i: int| 0 <= i < m.watched.len() && #[trigger] m.watched[i].path == other && present[i];
            if i < last {
                assert(rest[i].path == other && marks[i]);
                assert(shorter.retained(marks).is_watched(other));
                let k = choose|k: int| 0 <= k < before.len() && #[trigger] before[k].path == other;
                assert(after[k].path == other);
            } else {
                assert(after[after.len() - 1].path == other);
            }
        }
    }
}

/// Adding a watched socket whose path is not configured never makes a path
/// both watched and configured.
pub proof fn lemma_added_keeps_disjoint(m: SocketManagerView, path: Seq<char>, at: Timestamp)
    requires
        m.disjoint(),
        !m.is_configured(path),
    ensures
        m.added(path, at).disjoint(),
{
    let after = m.added(path, at);
    assert forall|other: Seq<char>| !(after.is_watched(other) && after.is_configured(other)) by {
        lemma_added_watches(m, path, at, other);
        assert(!(m.is_watched(other) && m.is_configured(other)));
    }
}

/// Removing a watched socket never touches the configured sockets and never
/// makes a path both watched and configured.
pub proof fn lemma_removed_keeps_disjoint(m: SocketManagerView, path: Seq<char>)
    requires
        m.disjoint(),
    ensures
        m.removed(path).disjoint(),
        m.removed(path).configured == m.configured,
{
    let after = m.removed(path);
    assert forall|other: Seq<char>| !(after.is_watched(other) && after.is_configured(other)) by {
        lemma_removed_watches(m, path, other);
        assert(!(m.is_watched(other) && m.is_configured(other)));
    }
}

/// The paths dropped are exactly the paths of the sockets not marked
/// present, and every socket is either kept or dropped.
pub proof fn lemma_dropped_paths(watched: Seq<WatchedSocketView>, present: Seq<bool>)
    requires
        present.len() == watched.len(),
    ensures
        forall|path: Seq<char>| #[trigger]
            dropped(watched, present).contains(path) <==> exists|i: int|
                0 <= i < watched.len() && #[trigger] watched[i].path == path && !present[i],
        kept(watched, present).len() + dropped(watched, present).len() == watched.len(),
    decreases watched.len(),
{
    if watched.len() > 0 {
        let rest = watched.drop_last();
        let marks = present.drop_last();
        let last = watched.len() - 1;
        lemma_dropped_paths(rest, marks);
        let before = dropped(rest, marks);
        let after = dropped(watched, present);
        assert forall|path: Seq<char>| #[trigger]
            after.contains(path) <==> exists|i: int|
                0 <= i < watched.len() && #[trigger] watched[i].path == path && !present[i] by {
            if after.contains(path) {
                let k = choose|k: int| 0 <= k < after.len() && after[k] == path;
                if k < before.len() {
                    assert(before[k] == path);
                    assert(before.contains(path));
                    let i = choose|i: int|
                        0 <= i < rest.len() && #[trigger] rest[i].path == path && !marks[i];
                    assert(watched[i].path == path && !present[i]);
                } else {
                    assert(watched[last].path == path && !present[last]);
                }
            }
            if exists|i: int|
                0 <= i < watched.len() && #[trigger] watched[i].path == path && !present[i] {
                let i = choose|i: int|
                    0 <= i < watched.len() && #[trigger] watched[i].path == path && !present[i];
                if i < last {
                    assert(rest[i].path == path && !marks[i]);
                    assert(before.contains(path));
                    let k = choose|k: int| 0 <= k < before.len() && before[k] == path;
                    assert(after[k] == path);
                } else {
                    assert(after[after.len() - 1] == path);
                }
            }
        }
    }
}

/// After any sequence of additions, removals and reconfigurations, the
/// ordered view is the watched sockets from newest to oldest, each path once,
/// followed by the configured sockets in their current order.
pub proof fn lemma_ordered_view_after_changes(
    start: SocketManagerView,
    changes: Seq<RegistryChange>,
)
    requires
        start.wf(),
    ensures
        start.changed_by(changes).wf(),
        start.changed_by(changes).ordered_paths() == start.changed_by(changes).watched_paths()
            + start.changed_by(changes).configured,
        start.changed_by(changes).watched_paths().no_duplicates(),
        start.changed_by(changes).ordered_paths().len() == start.changed_by(changes).watched.len()
            + start.changed_by(changes).configured.len(),
    decreases changes.len(),
{
    if changes.len() > 0 {
        lemma_ordered_view_after_changes(start, changes.drop_last());
        let before = start.changed_by(changes.drop_last());
        match changes.last() {
            RegistryChange::Add { path, at } => lemma_added_wf(before, path, at),
            RegistryChange::Remove { path } => lemma_removed_wf(before, path),
            RegistryChange::Configure { configured } => {},
        }
    }
    let m = start.changed_by(changes);
    assert forall|i: int, j: int|
        0 <= i < m.watched_paths().len() && 0 <= j < m.watched_paths().len() && i
            != j implies m.watched_paths()[i] != m.watched_paths()[j] by {
        if i < j {
            assert(m.watched[i].path != m.watched[j].path);
        } else {
            assert(m.watched[j].path != m.watched[i].path);
        }
    }
}

/// Every socket that `kept` keeps is one of the sockets it was given.
proof fn lemma_kept_from(watched: Seq<WatchedSocketView>, present: Seq<bool>, k: int) -> (i: int)
    requires
        present.len() == watched.len(),
        0 <= k < kept(watched, present).len(),
    ensures
        0 <= i < watched.len(),
        watched[i] == kept(watched, present)[k],
    decreases watched.len(),
{
    let before = kept(watched.drop_last(), present.drop_last());
    if k < before.len() {
        lemma_kept_from(watched.drop_last(), present.drop_last(), k)
    } else {
        watched.len() - 1
    }
}

/// Dropping watched sockets keeps the invariant of the registry and leaves
/// the configured sockets alone.
pub proof fn lemma_retained_wf(m: SocketManagerView, present: Seq<bool>)
    requires
        m.wf(),
        present.len() == m.watched.len(),
    ensures
        m.retained(present).wf(),
        m.retained(present).configured == m.configured,
    decreases m.watched.len(),
{
    if m.watched.len() > 0 {
        let rest = m.watched.drop_last();
        let marks = present.drop_last();
        let shorter = SocketManagerView { watched: rest, ..m };
        assert(shorter.wf()) by {
            assert forall|i: int, j: int| 0 <= i < j < rest.len() implies (
            #[trigger] rest[i]).created_at.at_or_after((#[trigger] rest[j]).created_at) && rest[i].path
                != rest[j].path by {
                assert(m.watched[i].created_at.at_or_after(m.watched[j].created_at));
                assert(m.watched[i].path != m.watched[j].path);
            }
        }
        lemma_retained_wf(shorter, marks);
        let before = kept(rest, marks);
        let after = m.retained(present).watched;
        let last = m.watched.len() - 1;
        assert forall|i: int, j: int| 0 <= i < j < after.len() implies (
        #[trigger] after[i]).created_at.at_or_after((#[trigger] after[j]).created_at) && after[i].path
            != after[j].path by {
            if j < before.len() {
                assert(shorter.retained(marks).watched[i].created_at.at_or_after(
                    shorter.retained(marks).watched[j].created_at,
                ));
                assert(shorter.retained(marks).watched[i].path != shorter.retained(
                    marks,
                ).watched[j].path);
            } else {
                let from = lemma_kept_from(rest, marks, i);
                assert(m.watched[from].created_at.at_or_after(m.watched[last].created_at));
                assert(m.watched[from].path != m.watched[last].path);
            }
        }
    }
}

/// An upstream socket discovered or added at run time, with what is known of
/// its health.
#[derive(Debug, Clone)]
pub struct WatchedSocket {
    path: String,
    created_at: Timestamp,
    /// Whether socket was healthy at last check
    last_healthy: Option<bool>,
    /// Last time this socket was health checked
    last_health_check: Option<Timestamp>,
    /// Number of keys from this socket (if known)
    key_count: Option<usize>,
}

impl DeepView for WatchedSocket {
    type V = WatchedSocketView;

    closed spec fn deep_view(&self) -> WatchedSocketView {
        WatchedSocketView {
            path: self.path@,
            created_at: self.created_at,
            last_healthy: self.last_healthy,
            last_health_check: self.last_health_check,
            key_count: self.key_count,
        }
    }
}

impl WatchedSocket {
    /// A socket watched since `created_at` that has not been probed yet.
    pub fn new(path: String, created_at: Timestamp) -> (socket: Self)
        ensures
            socket.deep_view() == WatchedSocketView::fresh(path@, created_at),
    {
        Self { path, created_at, last_healthy: None, last_health_check: None, key_count: None }
    }

    fn duplicate(&self) -> (copy: Self)
        ensures
            copy.deep_view() == self.deep_view(),
    {
        Self {
            path: self.path.clone(),
            created_at: self.created_at,
            last_healthy: self.last_healthy,
            last_health_check: self.last_health_check,
            key_count: self.key_count,
        }
    }

    fn info(&self, exists: bool, index: usize) -> (info: SocketInfo)
        requires
            index < usize::MAX,
        ensures
            info.deep_view() == self.deep_view().info(exists, index as int),
            self.deep_view().created_at.in_calendar() ==> info.added_at is Some,
    {
        SocketInfo {
            path: self.path.clone(),
            source: SocketSource::Watched,
            added_at: self.created_at.to_rfc3339(),
            healthy: exists && match self.last_healthy {
                Some(healthy) => healthy,
                None => true,
            },
            last_health_check: match self.last_health_check {
                Some(at) => at.to_rfc3339(),
                None => None,
            },
            key_count: self.key_count,
            order: index + 1,
        }
    }
}

/// Manages both configured and watched sockets with proper ordering.
#[derive(Debug)]
pub struct SocketManager {
    configured_sockets: Vec<String>,
    /// Kept in the order of the ordered view: newest first
    watched_sockets: Vec<WatchedSocket>,
    /// When the daemon started (for uptime calculation)
    daemon_start_time: Timestamp,
    /// Last time a health check was performed
    last_health_check: Option<Timestamp>,
}

impl View for SocketManager {
    type V = SocketManagerView;

    closed spec fn view(&self) -> SocketManagerView {
        SocketManagerView {
            configured: self.configured_sockets.deep_view(),
            watched: self.watched_sockets.deep_view(),
            started_at: self.daemon_start_time,
            last_health_check: self.last_health_check,
        }
    }
}

impl Clone for SocketManager {
    fn clone(&self) -> (copy: Self)
        ensures
            copy@ == self@,
    {
        proof {
            use_type_invariant(self);
        }
        let mut configured: Vec<String> = Vec::new();
        let mut i: usize = 0;
        while i < self.configured_sockets.len()
            invariant
                i <= self.configured_sockets.len(),
                configured.deep_view() == self@.configured.take(i as int),
            decreases self.configured_sockets.len() - i,
        {
            let ghost before = configured.deep_view();
            configured.push(self.configured_sockets[i].clone());
            assert(configured.deep_view() =~= before.push(self@.configured[i as int]));
            assert(self@.configured.take(i + 1) =~= self@.configured.take(i as int).push(
                self@.configured[i as int],
            ));
            i += 1;
        }
        assert(self@.configured.take(self.configured_sockets.len() as int) =~= self@.configured);
        let mut watched: Vec<WatchedSocket> = Vec::new();
        let mut j: usize = 0;
        while j < self.watched_sockets.len()
            invariant
                j <= self.watched_sockets.len(),
                watched.deep_view() == self@.watched.take(j as int),
            decreases self.watched_sockets.len() - j,
        {
            let ghost before = watched.deep_view();
            watched.push(self.watched_sockets[j].duplicate());
            assert(watched.deep_view() =~= before.push(self@.watched[j as int]));
            assert(self@.watched.take(j + 1) =~= self@.watched.take(j as int).push(
                self@.watched[j as int],
            ));
            j += 1;
        }
        assert(self@.watched.take(self.watched_sockets.len() as int) =~= self@.watched);
        Self {
            configured_sockets: configured,
            watched_sockets: watched,
            daemon_start_time: self.daemon_start_time,
            last_health_check: self.last_health_check,
        }
    }
}

impl SocketManager {
    #[verifier::type_invariant]
    spec fn inv(self) -> bool {
        self@.wf()
    }

    /// Create a new SocketManager with configured sockets, started now.
    pub fn new(configured_sockets: Vec<String>) -> (manager: Self)
        ensures
            manager@ == SocketManagerView::initial(
                configured_sockets.deep_view(),
                manager@.started_at,
            ),
    {
        Self::new_at(configured_sockets, now())
    }

    /// Create a new SocketManager with configured sockets, started at
    /// `started_at`.
    pub fn new_at(configured_sockets: Vec<String>, started_at: Timestamp) -> (manager: Self)
        ensures
            manager@ == SocketManagerView::initial(configured_sockets.deep_view(), started_at),
    {
        let manager = Self {
            configured_sockets,
            watched_sockets: Vec::new(),
            daemon_start_time: started_at,
            last_health_check: None,
        };
        assert(manager@.watched =~= Seq::empty());
        manager
    }

    /// Get the daemon start time
    pub fn daemon_start_time(&self) -> (at: Timestamp)
        ensures
            at == self@.started_at,
    {
        self.daemon_start_time
    }

    /// Get uptime in whole seconds, by the system clock.
    pub fn uptime_secs(&self) -> (secs: u64)
        ensures
            exists|at: Timestamp| secs == self@.started_at.secs_until(at),
    {
        let at = now();
        self.uptime_secs_at(&at)
    }

    /// The whole seconds from the daemon's start until `at`, zero if `at` is
    /// earlier than the start.
    pub fn uptime_secs_at(&self, at: &Timestamp) -> (secs: u64)
        ensures
            secs == self@.started_at.secs_until(*at),
    {
        self.daemon_start_time.whole_secs_until(at)
    }

    /// Get ordered list of sockets: watched (newest first) + configured
    pub fn get_ordered_sockets(&self) -> (ordered: Vec<String>)
        ensures
            ordered.deep_view() == self@.ordered_paths(),
            self@.wf(),
    {
        proof {
            use_type_invariant(self);
        }
        let mut ordered: Vec<String> = Vec::new();
        let mut i: usize = 0;
        while i < self.watched_sockets.len()
            invariant
                i <= self.watched_sockets.len(),
                ordered.deep_view() == self@.watched_paths().take(i as int),
            decreases self.watched_sockets.len() - i,
        {
            let ghost before = ordered.deep_view();
            ordered.push(self.watched_sockets[i].path.clone());
            assert(ordered.deep_view() =~= before.push(self@.watched[i as int].path));
            assert(self@.watched_paths().take(i + 1) =~= self@.watched_paths().take(i as int).push(
                self@.watched[i as int].path,
            ));
            i += 1;
        }
        assert(self@.watched_paths().take(self.watched_sockets.len() as int)
            =~= self@.watched_paths());
        let mut j: usize = 0;
        while j < self.configured_sockets.len()
            invariant
                j <= self.configured_sockets.len(),
                ordered.deep_view() == self@.watched_paths() + self@.configured.take(j as int),
            decreases self.configured_sockets.len() - j,
        {
            let ghost before = ordered.deep_view();
            ordered.push(self.configured_sockets[j].clone());
            assert(ordered.deep_view() =~= before.push(self@.configured[j as int]));
            assert(self@.configured.take(j + 1) =~= self@.configured.take(j as int).push(
                self@.configured[j as int],
            ));
            j += 1;
        }
        assert(self@.configured.take(self.configured_sockets.len() as int) =~= self@.configured);
        ordered
    }

    /// Get detailed socket information for all sockets, probing the disk for
    /// each path.
    pub fn get_socket_info(&self) -> (infos: Vec<SocketInfo>)
        ensures
            exists|present: Seq<bool>|
                present.len() == self@.watched.len() + self@.configured.len() && infos.deep_view()
                    == #[trigger] self@.socket_infos(present),
            forall|k: int|
                0 <= k < self@.watched.len() && (#[trigger] self@.watched[k]).created_at.in_calendar()
                    ==> infos.deep_view()[k].added_at is Some,
    {
        let ordered = self.get_ordered_sockets();
        let present = probe_all(&ordered);
        assert(ordered.deep_view().len() == ordered.len());
        self.socket_info_with(&present)
    }

    /// Detailed socket information for all sockets, in the order of the
    /// ordered view, where `present[i]` says whether the path at position `i`
    /// of that view exists on disk.
    pub fn socket_info_with(&self, present: &Vec<bool>) -> (infos: Vec<SocketInfo>)
        requires
            present.len() == self@.watched.len() + self@.configured.len(),
        ensures
            infos.deep_view() == self@.socket_infos(present@),
            forall|k: int|
                0 <= k < self@.watched.len() && (#[trigger] self@.watched[k]).created_at.in_calendar()
                    ==> infos.deep_view()[k].added_at is Some,
    {
        let mut infos: Vec<SocketInfo> = Vec::new();
        let watched = self.watched_sockets.len();
        let mut i: usize = 0;
        while i < watched
            invariant
                i <= watched,
                watched == self.watched_sockets.len(),
                present.len() == self@.watched.len() + self@.configured.len(),
                infos.deep_view() == self@.socket_infos(present@).take(i as int),
                forall|k: int|
                    0 <= k < i && (#[trigger] self@.watched[k]).created_at.in_calendar()
                        ==> infos.deep_view()[k].added_at is Some,
            decreases watched - i,
        {
            let ghost before = infos.deep_view();
            let info = self.watched_sockets[i].info(present[i], i);
            assert(self@.watched[i as int].created_at.in_calendar() ==> info.deep_view().added_at
                is Some);
            infos.push(info);
            assert(infos.deep_view() =~= before.push(self@.socket_infos(present@)[i as int]));
            assert(self@.socket_infos(present@).take(i + 1) =~= self@.socket_infos(present@).take(
                i as int,
            ).push(self@.socket_infos(present@)[i as int]));
            i += 1;
        }
        let mut j: usize = 0;
        while j < self.configured_sockets.len()
            invariant
                j <= self.configured_sockets.len(),
                watched == self.watched_sockets.len(),
                present.len() == self@.watched.len() + self@.configured.len(),
                infos.deep_view() == self@.socket_infos(present@).take(watched + j),
                forall|k: int|
                    0 <= k < watched && (#[trigger] self@.watched[k]).created_at.in_calendar()
                        ==> infos.deep_view()[k].added_at is Some,
            decreases self.configured_sockets.len() - j,
        {
            let ghost before = infos.deep_view();
            let info = SocketInfo {
                path: self.configured_sockets[j].clone(),
                source: SocketSource::Configured,
                added_at: None,
                healthy: present[watched + j],
                last_health_check: None,
                key_count: None,
                order: watched + j + 1,
            };
            infos.push(info);
            assert(infos.deep_view() =~= before.push(self@.socket_infos(present@)[watched + j]));
            assert(self@.socket_infos(present@).take(watched + j + 1) =~= self@.socket_infos(
                present@,
            ).take(watched + j).push(self@.socket_infos(present@)[watched + j]));
            j += 1;
        }
        assert(self@.socket_infos(present@).take(present.len() as int) =~= self@.socket_infos(
            present@,
        ));
        infos
    }

    /// Update health status for a socket, stamped with the system clock.
    pub fn update_socket_health(&mut self, path: &str, healthy: bool, key_count: Option<usize>)
        ensures
            exists|at: Timestamp|
                final(self)@ == #[trigger] old(self)@.health_updated(path@, healthy, key_count, at),
    {
        let at = now();
        self.update_socket_health_at(path, healthy, key_count, at);
    }

    /// Records a probe of `path` made at `at`.  Does nothing where the path is
    /// not watched.
    pub fn update_socket_health_at(
        &mut self,
        path: &str,
        healthy: bool,
        key_count: Option<usize>,
        at: Timestamp,
    )
        ensures
            final(self)@ == old(self)@.health_updated(path@, healthy, key_count, at),
    {
        proof {
            use_type_invariant(&*self);
        }
        match self.position_of(path) {
            Some(i) => {
                let mut updated = self.watched_sockets[i].duplicate();
                updated.last_healthy = Some(healthy);
                updated.last_health_check = Some(at);
                updated.key_count = key_count;
                let mut list: Vec<WatchedSocket> = Vec::new();
                core::mem::swap(&mut self.watched_sockets, &mut list);
                list.set(i, updated);
                proof {
                    let want = old(self)@.health_updated(path@, healthy, key_count, at);
                    assert forall|k: int| 0 <= k < want.watched.len() implies list.deep_view()[k]
                        == #[trigger] want.watched[k] by {
                        if k < i {
                            assert(old(self)@.watched[k].path != old(self)@.watched[i as int].path);
                        } else if k > i {
                            assert(old(self)@.watched[i as int].path != old(self)@.watched[k].path);
                        }
                    }
                    assert(list.deep_view() =~= want.watched);
                    assert(want.wf()) by {
                        assert forall|a: int, b: int| 0 <= a < b < want.watched.len() implies (
                        #[trigger] want.watched[a]).created_at.at_or_after(
                            (#[trigger] want.watched[b]).created_at,
                        ) && want.watched[a].path != want.watched[b].path by {
                            assert(old(self)@.watched[a].created_at.at_or_after(
                                old(self)@.watched[b].created_at,
                            ));
                            assert(old(self)@.watched[a].path != old(self)@.watched[b].path);
                        }
                    }
                }
                self.watched_sockets = list;
                self.last_health_check = Some(at);
            },
            None => {},
        }
    }

    /// Get last health check time
    pub fn last_health_check(&self) -> (at: Option<Timestamp>)
        ensures
            at == self@.last_health_check,
    {
        self.last_health_check
    }

    /// Add a watched socket, stamped with the system clock.  Returns false,
    /// and changes nothing, where the path is watched already.
    pub fn add_watched(&mut self, path: String) -> (added: bool)
        ensures
            added == !old(self)@.is_watched(path@),
            exists|at: Timestamp| final(self)@ == #[trigger] old(self)@.added(path@, at),
    {
        let at = now();
        self.add_watched_at(path, at)
    }

    /// Add a watched socket as of the instant `created_at`.  Returns false,
    /// and changes nothing, where the path is watched already.
    pub fn add_watched_at(&mut self, path: String, created_at: Timestamp) -> (added: bool)
        ensures
            added == !old(self)@.is_watched(path@),
            final(self)@ == old(self)@.added(path@, created_at),
    {
        proof {
            use_type_invariant(&*self);
        }
        if self.position_of(path.as_str()).is_some() {
            return false;
        }
        let slot = self.slot(created_at);
        proof {
            lemma_added_wf(self@, path@, created_at);
        }
        let mut list: Vec<WatchedSocket> = Vec::new();
        core::mem::swap(&mut self.watched_sockets, &mut list);
        list.insert(slot, WatchedSocket::new(path, created_at));
        assert(list.deep_view() =~= old(self)@.watched.insert(
            slot as int,
            WatchedSocketView::fresh(path@, created_at),
        ));
        self.watched_sockets = list;
        true
    }

    /// Remove a watched socket.  Returns whether the path was watched.
    pub fn remove_watched(&mut self, path: &str) -> (removed: bool)
        ensures
            removed == old(self)@.is_watched(path@),
            final(self)@ == old(self)@.removed(path@),
    {
        proof {
            use_type_invariant(&*self);
            lemma_removed_wf(self@, path@);
        }
        match self.position_of(path) {
            Some(i) => {
                proof {
                    lemma_removed_at(self@, path@, i as int);
                }
                let mut list: Vec<WatchedSocket> = Vec::new();
                core::mem::swap(&mut self.watched_sockets, &mut list);
                list.remove(i);
                assert(list.deep_view() =~= old(self)@.watched.remove(i as int));
                self.watched_sockets = list;
                true
            },
            None => false,
        }
    }

    /// Validate all watched sockets and remove those whose path no longer
    /// exists on disk.  Returns the removed paths.
    pub fn validate_and_cleanup(&mut self) -> (removed: Vec<String>)
        ensures
            exists|present: Seq<bool>|
                present.len() == old(self)@.watched.len()
                    && final(self)@ == #[trigger] old(self)@.retained(present)
                    && removed.deep_view() == dropped(old(self)@.watched, present),
    {
        let paths = self.watched_paths();
        let present = probe_all(&paths);
        assert(paths.deep_view().len() == paths.len());
        self.retain_present(&present)
    }

    /// Keeps the watched sockets whose mark in `present` is set, where
    /// `present` has one mark for each watched socket in the order of the
    /// ordered view, and drops the others.  Returns the paths dropped.
    pub fn retain_present(&mut self, present: &Vec<bool>) -> (removed: Vec<String>)
        requires
            present.len() == old(self)@.watched.len(),
        ensures
            final(self)@ == old(self)@.retained(present@),
            removed.deep_view() == dropped(old(self)@.watched, present@),
    {
        proof {
            use_type_invariant(&*self);
            lemma_retained_wf(self@, present@);
        }
        let mut list: Vec<WatchedSocket> = Vec::new();
        let mut removed: Vec<String> = Vec::new();
        let mut i: usize = 0;
        while i < self.watched_sockets.len()
            invariant
                i <= self.watched_sockets.len(),
                present.len() == self.watched_sockets.len(),
                self@ == old(self)@,
                list.deep_view() == kept(self@.watched.take(i as int), present@.take(i as int)),
                removed.deep_view() == dropped(
                    self@.watched.take(i as int),
                    present@.take(i as int),
                ),
            decreases self.watched_sockets.len() - i,
        {
            let ghost kept_before = list.deep_view();
            let ghost dropped_before = removed.deep_view();
            assert(self@.watched.take(i + 1).drop_last() =~= self@.watched.take(i as int));
            assert(present@.take(i + 1).drop_last() =~= present@.take(i as int));
            if present[i] {
                list.push(self.watched_sockets[i].duplicate());
                assert(list.deep_view() =~= kept_before.push(self@.watched[i as int]));
            } else {
                removed.push(self.watched_sockets[i].path.clone());
                assert(removed.deep_view() =~= dropped_before.push(self@.watched[i as int].path));
            }
            i += 1;
        }
        assert(self@.watched.take(self.watched_sockets.len() as int) =~= self@.watched);
        assert(present@.take(present.len() as int) =~= present@);
        self.watched_sockets = list;
        removed
    }

    /// Get count of watched sockets
    pub fn watched_count(&self) -> (count: usize)
        ensures
            count == self@.watched.len(),
    {
        self.watched_sockets.len()
    }

    /// Get count of configured sockets
    pub fn configured_count(&self) -> (count: usize)
        ensures
            count == self@.configured.len(),
    {
        self.configured_sockets.len()
    }

    /// Get total count of all sockets; `usize::MAX` stands for any count
    /// beyond it.
    pub fn total_count(&self) -> (count: usize)
        ensures
            count == self@.total(),
    {
        self.watched_count().saturating_add(self.configured_count())
    }

    /// Check if a path is already being watched
    pub fn is_watched(&self, path: &str) -> (yes: bool)
        ensures
            yes == self@.is_watched(path@),
    {
        self.position_of(path).is_some()
    }

    /// Check if a path is in the configured list
    pub fn is_configured(&self, path: &str) -> (yes: bool)
        ensures
            yes == self@.is_configured(path@),
    {
        let mut i: usize = 0;
        while i < self.configured_sockets.len()
            invariant
                i <= self.configured_sockets.len(),
                forall|k: int| 0 <= k < i ==> self@.configured[k] != path@,
            decreases self.configured_sockets.len() - i,
        {
            if same_text(self.configured_sockets[i].as_str(), path) {
                assert(self@.configured[i as int] == path@);
                return true;
            }
            i += 1;
        }
        false
    }

    /// Update the configured sockets list
    pub fn update_configured(&mut self, configured_sockets: Vec<String>)
        ensures
            final(self)@ == old(self)@.reconfigured(configured_sockets.deep_view()),
    {
        proof {
            use_type_invariant(&*self);
        }
        self.configured_sockets = configured_sockets;
    }

    /// Get the configured sockets list
    pub fn configured_sockets(&self) -> (configured: &[String])
        ensures
            configured.deep_view() == self@.configured,
    {
        let configured = self.configured_sockets.as_slice();
        assert(configured.deep_view() =~= self@.configured);
        configured
    }

    /// The line that sums up the current socket ordering for the log, after
    /// `context`: how many sockets are active, how many of each kind, and
    /// their order.
    pub fn log_state(&self, context: &str) -> (line: String)
        ensures
            line@ == self@.summary(context@),
    {
        let ordered = self.get_ordered_sockets();
        assert(ordered.deep_view().len() == ordered.len());
        let mut line = owned(context);
        if ordered.len() == 0 {
            line.append(": no active agent sockets (");
        } else {
            line.append(": ");
            push_decimal(&mut line, ordered.len() as u64);
            line.append(" active agent sockets (");
        }
        line.append("watched: ");
        push_decimal(&mut line, self.watched_sockets.len() as u64);
        line.append(", configured: ");
        push_decimal(&mut line, self.configured_sockets.len() as u64);
        if ordered.len() == 0 {
            line.append(")");
        } else {
            line.append("); order: [");
            let listed = join(&ordered, ", ");
            line.append(listed.as_str());
            line.append("]");
        }
        assert(line@ =~= self@.summary(context@));
        line
    }

    /// The paths of the watched sockets, in the order of the ordered view.
    fn watched_paths(&self) -> (paths: Vec<String>)
        ensures
            paths.deep_view() == self@.watched_paths(),
    {
        let mut paths: Vec<String> = Vec::new();
        let mut i: usize = 0;
        while i < self.watched_sockets.len()
            invariant
                i <= self.watched_sockets.len(),
                paths.deep_view() == self@.watched_paths().take(i as int),
            decreases self.watched_sockets.len() - i,
        {
            let ghost before = paths.deep_view();
            paths.push(self.watched_sockets[i].path.clone());
            assert(paths.deep_view() =~= before.push(self@.watched[i as int].path));
            assert(self@.watched_paths().take(i + 1) =~= self@.watched_paths().take(i as int).push(
                self@.watched[i as int].path,
            ));
            i += 1;
        }
        assert(self@.watched_paths().take(self.watched_sockets.len() as int)
            =~= self@.watched_paths());
        paths
    }

    /// The position of the watched socket at `path`, if there is one.
    fn position_of(&self, path: &str) -> (found: Option<usize>)
        ensures
            match found {
                Some(i) => i < self@.watched.len() && self@.watched[i as int].path == path@,
                None => !self@.is_watched(path@),
            },
    {
        let mut i: usize = 0;
        while i < self.watched_sockets.len()
            invariant
                i <= self.watched_sockets.len(),
                forall|k: int| 0 <= k < i ==> (#[trigger] self@.watched[k]).path != path@,
            decreases self.watched_sockets.len() - i,
        {
            if same_text(self.watched_sockets[i].path.as_str(), path) {
                return Some(i);
            }
            i += 1;
        }
        None
    }

    /// Where a socket added at `at` goes among the watched sockets.
    fn slot(&self, at: Timestamp) -> (slot: usize)
        ensures
            slot == slot_for(self@.watched, at),
            slot <= self@.watched.len(),
    {
        let mut i: usize = self.watched_sockets.len();
        assert(self@.watched.take(i as int) =~= self@.watched);
        while i > 0 && !self.watched_sockets[i - 1].created_at.is_at_or_after(&at)
            invariant
                i <= self.watched_sockets.len(),
                slot_for(self@.watched, at) == slot_for(self@.watched.take(i as int), at),
            decreases i,
        {
            assert(self@.watched.take(i as int).drop_last() =~= self@.watched.take(i - 1));
            i -= 1;
        }
        assert(self@.watched.take(i as int).len() == i);
        if i > 0 {
            assert(self@.watched.take(i as int).last() == self@.watched[i - 1]);
        }
        i
    }
}

} // verus!
