//! The file watcher's decisions: which watched path an event belongs to,
//! the debouncing of change events per path, and how the event loop counts
//! errors and decides to recover.
use vstd::prelude::*;

use crate::server::{extension_of, path_extension};
use crate::syntax_parser::opt_string_view;
use crate::text::{owned, str_eq};

verus! {

broadcast use vstd::string::group_string_axioms;

// ---------------------------------------------------------------------------
// Paths
// ---------------------------------------------------------------------------

/// A name for `Path::starts_with`: whether `base`'s components begin `path`.
pub uninterp spec fn path_starts_with(path: Seq<char>, base: Seq<char>) -> bool;

/// A name for `Path::parent`: the path without its last component.
pub uninterp spec fn path_parent(path: Seq<char>) -> Option<Seq<char>>;

/// A name for `Path`'s `==`, which compares components.
pub uninterp spec fn same_path(a: Seq<char>, b: Seq<char>) -> bool;

/// Whether `path` starts with `base`, component by component
/// (`Path::starts_with`). The component rules are not restated.
#[verifier::external_body]
fn starts_with_path(path: &str, base: &str) -> (b: bool)
    ensures
        b == path_starts_with(path@, base@),
{
    std::path::Path::new(path).starts_with(base)
}

/// The parent of `path` (`Path::parent`), when it is valid UTF-8. The
/// component rules are not restated.
#[verifier::external_body]
fn parent_of(path: &str) -> (r: Option<String>)
    ensures
        opt_string_view(r) == path_parent(path@),
{
    match std::path::Path::new(path).parent() {
        Some(p) => match p.to_str() {
            Some(s) => Some(s.to_string()),
            None => None,
        },
        None => None,
    }
}

/// Whether two paths are equal as `Path`s are, component by component.
#[verifier::external_body]
pub(crate) fn paths_equal(a: &str, b: &str) -> (r: bool)
    ensures
        r == same_path(a@, b@),
{
    std::path::Path::new(a) == std::path::Path::new(b)
}

/// A watched path: where it is, whether its subdirectories are watched, and
/// how long its filter debounces changes.
pub struct WatchedPath {
    pub path: String,
    pub recursive: bool,
    pub debounce_ms: u64,
}

/// Whether a change of `path` belongs to the watch on `w`: anywhere under
/// it when recursive, else the path itself or a file directly in it.
pub open spec fn spec_matches_watch(path: Seq<char>, w: WatchedPath) -> bool {
    if w.recursive {
        path_starts_with(path, w.path@)
    } else {
        (match path_parent(path) {
            Some(p) => same_path(p, w.path@),
            None => false,
        }) || same_path(path, w.path@)
    }
}

/// Check if a path matches a watched path configuration
pub fn path_matches_watch(path: &str, watched_path: &WatchedPath) -> (b: bool)
    ensures
        b == spec_matches_watch(path@, *watched_path),
{
    if watched_path.recursive {
        starts_with_path(path, watched_path.path.as_str())
    } else {
        let in_dir = match parent_of(path) {
            Some(p) => paths_equal(p.as_str(), watched_path.path.as_str()),
            None => false,
        };
        in_dir || paths_equal(path, watched_path.path.as_str())
    }
}

/// The debounce used where no watch matches, in milliseconds.
pub const DEFAULT_DEBOUNCE_MS: u64 = 100;

/// The debounce for `path`: that of the first watch it belongs to, or the
/// default.
pub open spec fn spec_debounce_for(path: Seq<char>, ws: Seq<WatchedPath>) -> u64
    decreases ws.len(),
{
    if ws.len() == 0 {
        DEFAULT_DEBOUNCE_MS
    } else if spec_matches_watch(path, ws[0]) {
        ws[0].debounce_ms
    } else {
        spec_debounce_for(path, ws.drop_first())
    }
}

/// Get the debounce duration for a specific path by finding its watch
pub fn debounce_for_path(path: &str, watched: &[WatchedPath]) -> (ms: u64)
    ensures
        ms == spec_debounce_for(path@, watched@),
{
    let mut i: usize = 0;
    assert(watched@.skip(0) =~= watched@);
    while i < watched.len()
        invariant
            i <= watched@.len(),
            spec_debounce_for(path@, watched@) == spec_debounce_for(path@, watched@.skip(i as int)),
        decreases watched@.len() - i,
    {
        assert(watched@.skip(i as int)[0] == watched@[i as int]);
        assert(watched@.skip(i as int).drop_first() =~= watched@.skip(i + 1));
        if path_matches_watch(path, &watched[i]) {
            return watched[i].debounce_ms;
        }
        i += 1;
    }
    DEFAULT_DEBOUNCE_MS
}

/// Whether any watch takes changes of `path`, given what each watch's
/// filter says of it.
pub open spec fn spec_should_process(path: Seq<char>, ws: Seq<WatchedPath>, accepted: Seq<bool>) -> bool {
    exists|i: int| 0 <= i < ws.len() && i < accepted.len() && spec_matches_watch(path, ws[i]) && accepted[i]
}

/// Whether a change of `path` is taken: some watch it belongs to has a
/// filter that accepts it (`accepted[i]` is what the filter of
/// `watched[i]` says of the path).
pub fn should_process(path: &str, watched: &[WatchedPath], accepted: &[bool]) -> (b: bool)
    ensures
        b == spec_should_process(path@, watched@, accepted@),
{
    let mut i: usize = 0;
    while i < watched.len() && i < accepted.len()
        invariant
            i <= watched@.len(),
            forall|k: int|
                0 <= k < i && k < accepted@.len() ==> !(spec_matches_watch(path@, watched@[k])
                    && accepted@[k]),
        decreases watched@.len() - i,
    {
        if accepted[i] && path_matches_watch(path, &watched[i]) {
            return true;
        }
        i += 1;
    }
    false
}

// ---------------------------------------------------------------------------
// The watches
// ---------------------------------------------------------------------------

/// Whether a filter asks the operating system's watcher to watch
/// subdirectories too: its name says `recursive`.
pub fn recursive_mode_for(filter_name: &str) -> (b: bool)
    ensures
        b == crate::text::contains_seq(filter_name@, "recursive"@),
{
    crate::text::str_contains(filter_name, "recursive")
}

/// The position of the watch with the id `id`.
pub open spec fn watch_index(ids: Seq<u64>, id: u64) -> Option<int> {
    if exists|i: int| 0 <= i < ids.len() && ids[i] == id {
        Some(choose|i: int| 0 <= i < ids.len() && ids[i] == id)
    } else {
        None
    }
}

/// The watches of a file watcher, by id; no id occurs twice.
pub struct WatchRegistry {
    ids: Vec<u64>,
    watches: Vec<WatchedPath>,
}

impl WatchRegistry {
    pub closed spec fn spec_ids(&self) -> Seq<u64> {
        self.ids@
    }

    pub closed spec fn spec_watches(&self) -> Seq<WatchedPath> {
        self.watches@
    }

    /// Each watch has one id, and no id occurs twice.
    pub closed spec fn wf(&self) -> bool {
        &&& self.ids@.len() == self.watches@.len()
        &&& forall|i: int, j: int| 0 <= i < j < self.ids@.len() ==> self.ids@[i] != self.ids@[j]
    }

    /// No watches.
    pub fn new() -> (r: Self)
        ensures
            r.wf(),
            r.spec_ids() == Seq::<u64>::empty(),
            r.spec_watches() == Seq::<WatchedPath>::empty(),
    {
        Self { ids: Vec::new(), watches: Vec::new() }
    }

    /// The watches, in the order they were added.
    pub fn watches(&self) -> (w: &[WatchedPath])
        ensures
            w@ == self.spec_watches(),
    {
        self.watches.as_slice()
    }

    /// The number of watches.
    pub fn len(&self) -> (n: usize)
        ensures
            n == self.spec_watches().len(),
    {
        self.watches.len()
    }

    fn find(&self, id: u64) -> (r: Option<usize>)
        requires
            self.wf(),
        ensures
            match r {
                Some(i) => i < self.ids@.len() && self.ids@[i as int] == id && watch_index(self.ids@, id)
                    == Some(i as int),
                None => watch_index(self.ids@, id) is None,
            },
    {
        let mut i: usize = 0;
        while i < self.ids.len()
            invariant
                i <= self.ids@.len(),
                forall|k: int| 0 <= k < i ==> self.ids@[k] != id,
                forall|a: int, b: int| 0 <= a < b < self.ids@.len() ==> self.ids@[a] != self.ids@[b],
            decreases self.ids@.len() - i,
        {
            if self.ids[i] == id {
                assert(watch_index(self.ids@, id) == Some(i as int)) by {
                    let j = choose|j: int| 0 <= j < self.ids@.len() && self.ids@[j] == id;
                    if j != i as int {
                        if j > i {
                            assert(self.ids@[i as int] != self.ids@[j]);
                        }
                    }
                };
                return Some(i);
            }
            i += 1;
        }
        None
    }

    /// Start watching `path` under the id `id`, with the filter's debounce;
    /// a watch with the same id is replaced. A watch added this way takes
    /// changes anywhere below its path.
    pub fn watch(&mut self, id: u64, path: String, debounce_ms: u64)
        requires
            old(self).wf(),
        ensures
            final(self).wf(),
            ({
                let w = WatchedPath { path, recursive: true, debounce_ms };
                match watch_index(old(self).spec_ids(), id) {
                    Some(i) => final(self).spec_ids() == old(self).spec_ids() && final(self).spec_watches()
                        == old(self).spec_watches().update(i, w),
                    None => final(self).spec_ids() == old(self).spec_ids().push(id) && final(self).spec_watches() == old(self).spec_watches().push(w),
                }
            }),
    {
        let w = WatchedPath { path, recursive: true, debounce_ms };
        match self.find(id) {
            Some(i) => {
                let mut watches: Vec<WatchedPath> = Vec::new();
                std::mem::swap(&mut watches, &mut self.watches);
                watches.set(i, w);
                self.watches = watches;
            },
            None => {
                let mut ids: Vec<u64> = Vec::new();
                let mut watches: Vec<WatchedPath> = Vec::new();
                std::mem::swap(&mut ids, &mut self.ids);
                std::mem::swap(&mut watches, &mut self.watches);
                let ghost before = ids@;
                ids.push(id);
                watches.push(w);
                assert forall|a: int, b: int| 0 <= a < b < ids@.len() implies ids@[a] != ids@[b] by {
                    if b == before.len() {
                        assert(before[a] != id);
                    } else {
                        assert(before[a] != before[b]);
                    }
                }
                self.ids = ids;
                self.watches = watches;
            },
        }
    }

    /// Stop the watch with the id `id`, handing back its path; an unknown
    /// id changes nothing.
    pub fn unwatch(&mut self, id: u64) -> (r: Option<String>)
        requires
            old(self).wf(),
        ensures
            final(self).wf(),
            match watch_index(old(self).spec_ids(), id) {
                Some(i) => (r matches Some(p) && p@ == old(self).spec_watches()[i].path@) && final(self).spec_ids() == old(self).spec_ids().remove(i) && final(self).spec_watches() == old(self).spec_watches().remove(i),
                None => r is None && final(self).spec_ids() == old(self).spec_ids() && final(self).spec_watches() == old(self).spec_watches(),
            },
    {
        match self.find(id) {
            Some(i) => {
                let mut ids: Vec<u64> = Vec::new();
                let mut watches: Vec<WatchedPath> = Vec::new();
                std::mem::swap(&mut ids, &mut self.ids);
                std::mem::swap(&mut watches, &mut self.watches);
                let ghost before = ids@;
                ids.remove(i);
                let w = watches.remove(i);
                assert forall|a: int, b: int| 0 <= a < b < ids@.len() implies ids@[a] != ids@[b] by {
                    let a2 = if a < i { a } else { a + 1 };
                    let b2 = if b < i { b } else { b + 1 };
                    assert(ids@[a] == before[a2] && ids@[b] == before[b2]);
                }
                self.ids = ids;
                self.watches = watches;
                Some(w.path)
            },
            None => None,
        }
    }

    /// Give the watch with the id `id` a filter with another debounce;
    /// false, changing nothing, when there is no such watch.
    pub fn set_filter(&mut self, id: u64, debounce_ms: u64) -> (found: bool)
        requires
            old(self).wf(),
        ensures
            final(self).wf(),
            found == (watch_index(old(self).spec_ids(), id) is Some),
            final(self).spec_ids() == old(self).spec_ids(),
            match watch_index(old(self).spec_ids(), id) {
                Some(i) => final(self).spec_watches() == old(self).spec_watches().update(
                    i,
                    WatchedPath { debounce_ms, ..old(self).spec_watches()[i] },
                ),
                None => final(self).spec_watches() == old(self).spec_watches(),
            },
    {
        match self.find(id) {
            Some(i) => {
                let mut watches: Vec<WatchedPath> = Vec::new();
                std::mem::swap(&mut watches, &mut self.watches);
                let old_w = watches.remove(i);
                watches.insert(i, WatchedPath { path: old_w.path, recursive: old_w.recursive, debounce_ms });
                self.watches = watches;
                true
            },
            None => false,
        }
    }

    /// Whether some watch is on exactly `path` (compared as `Path`s are).
    pub fn is_watching(&self, path: &str) -> (b: bool)
        ensures
            b == exists|i: int| 0 <= i < self.spec_watches().len() && same_path(
                #[trigger] self.spec_watches()[i].path@,
                path@,
            ),
    {
        let mut i: usize = 0;
        while i < self.watches.len()
            invariant
                i <= self.watches@.len(),
                forall|k: int| 0 <= k < i ==> !same_path(#[trigger] self.watches@[k].path@, path@),
            decreases self.watches@.len() - i,
        {
            if paths_equal(self.watches[i].path.as_str(), path) {
                assert(same_path(self.spec_watches()[i as int].path@, path@));
                return true;
            }
            i += 1;
        }
        false
    }

    /// The watched paths with their ids, in the order they were added.
    pub fn get_watched_paths(&self) -> (r: Vec<(u64, String)>)
        requires
            self.wf(),
        ensures
            r@.len() == self.spec_ids().len(),
            forall|k: int|
                0 <= k < r@.len() ==> (#[trigger] r@[k]).0 == self.spec_ids()[k] && r@[k].1@
                    == self.spec_watches()[k].path@,
    {
        let mut r: Vec<(u64, String)> = Vec::new();
        let mut i: usize = 0;
        while i < self.ids.len()
            invariant
                i <= self.ids@.len(),
                self.ids@.len() == self.watches@.len(),
                r@.len() == i,
                forall|k: int|
                    0 <= k < i ==> (#[trigger] r@[k]).0 == self.ids@[k] && r@[k].1@
                        == self.watches@[k].path@,
            decreases self.ids@.len() - i,
        {
            r.push((self.ids[i], owned(self.watches[i].path.as_str())));
            i += 1;
        }
        r
    }
}

/// A change of `path` of kind `kind` seen at `now_ms`: when some watch
/// takes it (its filter's answers in `accepted`), it is recorded for
/// debouncing. Whether it was taken comes back.
pub fn record_change(
    debouncer: &mut Debouncer,
    registry: &WatchRegistry,
    path: String,
    kind: EventKind,
    accepted: &[bool],
    now_ms: u64,
) -> (taken: bool)
    ensures
        taken == spec_should_process(path@, registry.spec_watches(), accepted@),
        taken ==> final(debouncer).pending() == spec_record(
            old(debouncer).pending(),
            PendingChange { path: path@, change: change_type_for_spec(kind), last_seen: now_ms },
        ),
        !taken ==> final(debouncer).pending() == old(debouncer).pending(),
{
    let taken = should_process(path.as_str(), registry.watches(), accepted);
    if taken {
        debouncer.record(path, change_type_for(kind), now_ms);
    }
    taken
}

// ---------------------------------------------------------------------------
// Change events
// ---------------------------------------------------------------------------

/// The kind of a file system change.
#[derive(Debug, Clone, Copy, PartialEq, Eq, Structural)]
pub enum ChangeType {
    Created,
    Modified,
    Deleted,
}

/// The kind of a file system event, as far as the watcher tells them apart.
#[derive(Debug, Clone, Copy, PartialEq, Eq, Structural)]
pub enum EventKind {
    Create,
    Modify,
    Remove,
    Other,
}

/// The change an event of kind `kind` reports.
pub open spec fn change_type_for_spec(kind: EventKind) -> ChangeType {
    match kind {
        EventKind::Create => ChangeType::Created,
        EventKind::Remove => ChangeType::Deleted,
        _ => ChangeType::Modified,
    }
}

/// The change an event reports: created, modified or deleted, and modified
/// for any other kind of event.
pub fn change_type_for(kind: EventKind) -> (c: ChangeType)
    ensures
        c == change_type_for_spec(kind),
{
    match kind {
        EventKind::Create => ChangeType::Created,
        EventKind::Modify => ChangeType::Modified,
        EventKind::Remove => ChangeType::Deleted,
        EventKind::Other => ChangeType::Modified,
    }
}

/// Debounced file change event
pub struct DebouncedEvent {
    pub path: String,
    pub change_type: ChangeType,
    /// When it was last seen, in milliseconds on a monotonic clock
    pub last_seen_ms: u64,
}

/// What a debounced event holds.
pub struct PendingChange {
    pub path: Seq<char>,
    pub change: ChangeType,
    pub last_seen: u64,
}

impl View for DebouncedEvent {
    type V = PendingChange;

    open spec fn view(&self) -> PendingChange {
        PendingChange { path: self.path@, change: self.change_type, last_seen: self.last_seen_ms }
    }
}

pub open spec fn pending_views(s: Seq<DebouncedEvent>) -> Seq<PendingChange> {
    s.map_values(|e: DebouncedEvent| e@)
}

/// The position of the pending change for `path`.
pub open spec fn pending_index(s: Seq<PendingChange>, path: Seq<char>) -> Option<int> {
    if exists|i: int| 0 <= i < s.len() && s[i].path == path {
        Some(choose|i: int| 0 <= i < s.len() && s[i].path == path)
    } else {
        None
    }
}

/// No path has two pending changes.
pub open spec fn distinct_paths(s: Seq<PendingChange>) -> bool {
    forall|i: int, j: int| 0 <= i < j < s.len() ==> s[i].path != s[j].path
}

/// The pending changes after one of `path` is seen: it replaces the one
/// pending for the path, or joins them at the end.
pub open spec fn spec_record(s: Seq<PendingChange>, c: PendingChange) -> Seq<PendingChange> {
    match pending_index(s, c.path) {
        Some(i) => s.update(i, c),
        None => s.push(c),
    }
}

/// Whether a change seen at `last_seen` has waited `debounce` by `now`
/// (a clock that went back counts as no time).
pub open spec fn expired(c: PendingChange, now: u64, debounce: u64) -> bool {
    (if now >= c.last_seen { now - c.last_seen } else { 0 }) >= debounce
}

/// The pending changes that have waited long enough for their watch, in
/// order.
pub open spec fn spec_due(s: Seq<PendingChange>, ws: Seq<WatchedPath>, now: u64) -> Seq<PendingChange>
    decreases s.len(),
{
    if s.len() == 0 {
        seq![]
    } else if expired(s.last(), now, spec_debounce_for(s.last().path, ws)) {
        spec_due(s.drop_last(), ws, now).push(s.last())
    } else {
        spec_due(s.drop_last(), ws, now)
    }
}

/// The pending changes that wait on, in order.
pub open spec fn spec_waiting(s: Seq<PendingChange>, ws: Seq<WatchedPath>, now: u64) -> Seq<
    PendingChange,
>
    decreases s.len(),
{
    if s.len() == 0 {
        seq![]
    } else if expired(s.last(), now, spec_debounce_for(s.last().path, ws)) {
        spec_waiting(s.drop_last(), ws, now)
    } else {
        spec_waiting(s.drop_last(), ws, now).push(s.last())
    }
}

/// The changes seen and not yet published, at most one per path.
pub struct Debouncer {
    events: Vec<DebouncedEvent>,
}

impl Debouncer {
    pub closed spec fn pending(&self) -> Seq<PendingChange> {
        pending_views(self.events@)
    }

    #[verifier::type_invariant]
    closed spec fn wf(&self) -> bool {
        distinct_paths(pending_views(self.events@))
    }

    /// No pending change.
    pub fn new() -> (d: Self)
        ensures
            d.pending() == Seq::<PendingChange>::empty(),
    {
        let d = Self { events: Vec::new() };
        assert(d.pending() =~= Seq::<PendingChange>::empty());
        d
    }

    /// The number of pending changes.
    pub fn len(&self) -> (n: usize)
        ensures
            n == self.pending().len(),
    {
        self.events.len()
    }

    /// A change of `path` seen at `now_ms`: it replaces the pending change
    /// of the path, or is added.
    pub fn record(&mut self, path: String, change_type: ChangeType, now_ms: u64)
        ensures
            final(self).pending() == spec_record(
                old(self).pending(),
                PendingChange { path: path@, change: change_type, last_seen: now_ms },
            ),
            distinct_paths(final(self).pending()),
    {
        proof {
            use_type_invariant(&*self);
        }
        let ghost s = self.pending();
        let ghost c = PendingChange { path: path@, change: change_type, last_seen: now_ms };
        let mut i: usize = 0;
        while i < self.events.len()
            invariant
                s == pending_views(self.events@),
                s == old(self).pending(),
                c == (PendingChange { path: path@, change: change_type, last_seen: now_ms }),
                distinct_paths(s),
                i <= s.len(),
                forall|k: int| 0 <= k < i ==> s[k].path != path@,
            decreases s.len() - i,
        {
            if str_eq(self.events[i].path.as_str(), path.as_str()) {
                assert(s[i as int].path == path@);
                assert(pending_index(s, path@) == Some(i as int)) by {
                    let j = choose|j: int| 0 <= j < s.len() && s[j].path == path@;
                    if j != i as int {
                        if j < i {
                        } else {
                            assert(s[i as int].path != s[j].path);
                        }
                    }
                };
                let e = DebouncedEvent { path, change_type, last_seen_ms: now_ms };
                assert(e@ == c);
                let mut events: Vec<DebouncedEvent> = Vec::new();
                std::mem::swap(&mut events, &mut self.events);
                assert(pending_views(events@) == s);
                let ghost before = events@;
                events.set(i, e);
                assert(events@ == before.update(i as int, e));
                assert(pending_views(events@) =~= s.update(i as int, c));
                assert(distinct_paths(pending_views(events@))) by {
                    assert forall|a: int, b: int| 0 <= a < b < s.len() implies pending_views(
                        events@,
                    )[a].path != pending_views(events@)[b].path by {
                        if a != i as int && b != i as int {
                            assert(s[a].path != s[b].path);
                        } else if a == i as int {
                            assert(s[b].path != s[i as int].path);
                        } else {
                            assert(s[a].path != s[i as int].path);
                        }
                    }
                };
                self.events = events;
                return ;
            }
            i += 1;
        }
        assert(pending_index(s, path@) is None);
        let e = DebouncedEvent { path, change_type, last_seen_ms: now_ms };
        let mut events: Vec<DebouncedEvent> = Vec::new();
        std::mem::swap(&mut events, &mut self.events);
        events.push(e);
        assert(pending_views(events@) =~= s.push(c));
        self.events = events;
    }

    /// Drop every pending change (after the watcher recovered).
    pub fn clear(&mut self)
        ensures
            final(self).pending() == Seq::<PendingChange>::empty(),
    {
        self.events = Vec::new();
        assert(self.pending() =~= Seq::<PendingChange>::empty());
    }

    /// Take the changes that have waited the debounce of their watch by
    /// `now_ms`, in the order they were first seen; the others wait on.
    pub fn take_due(&mut self, watched: &[WatchedPath], now_ms: u64) -> (due: Vec<DebouncedEvent>)
        ensures
            pending_views(due@) == spec_due(old(self).pending(), watched@, now_ms),
            final(self).pending() == spec_waiting(old(self).pending(), watched@, now_ms),
            distinct_paths(final(self).pending()),
    {
        proof {
            use_type_invariant(&*self);
        }
        let ghost s = self.pending();
        let mut rest: Vec<DebouncedEvent> = Vec::new();
        std::mem::swap(&mut rest, &mut self.events);
        let mut due: Vec<DebouncedEvent> = Vec::new();
        let mut waiting: Vec<DebouncedEvent> = Vec::new();
        let ghost n = s.len();
        assert(pending_views(rest@) == s);
        let total = rest.len();
        assert(total == n);
        assert(s.skip(0) =~= s);
        assert(s.take(0) =~= Seq::<PendingChange>::empty());
        let mut taken: usize = 0;
        while rest.len() > 0
            invariant
                n == s.len(),
                n <= usize::MAX,
                distinct_paths(s),
                taken + rest@.len() == n,
                pending_views(rest@) == s.skip(taken as int),
                pending_views(due@) == spec_due(s.take(taken as int), watched@, now_ms),
                pending_views(waiting@) == spec_waiting(s.take(taken as int), watched@, now_ms),
                distinct_paths(pending_views(waiting@)),
                forall|i: int, k: int|
                    0 <= i < waiting@.len() && taken <= k < n ==> waiting@[i].path@ != s[k].path,
            decreases rest@.len(),
        {
            let ghost old_rest = pending_views(rest@);
            let ghost old_vec = rest@;
            let e = rest.remove(0);
            assert(rest@ =~= old_vec.subrange(1, old_vec.len() as int));
            assert(pending_views(rest@) =~= s.skip(taken + 1)) by {
                assert forall|k: int| 0 <= k < rest@.len() implies pending_views(rest@)[k] == s.skip(
                    taken + 1,
                )[k] by {
                    assert(pending_views(rest@)[k] == old_rest[k + 1]);
                    assert(old_rest[k + 1] == s.skip(taken as int)[k + 1]);
                };
            };
            proof {
                assert(old_rest[0] == e@);
                assert(s.skip(taken as int)[0] == s[taken as int]);
                assert(s.take(taken + 1).drop_last() =~= s.take(taken as int));
                assert(s.take(taken + 1).last() == s[taken as int]);
            }
            let debounce = debounce_for_path(e.path.as_str(), watched);
            let elapsed = if now_ms >= e.last_seen_ms {
                now_ms - e.last_seen_ms
            } else {
                0
            };
            let ghost before_due = pending_views(due@);
            let ghost before_waiting = pending_views(waiting@);
            if elapsed >= debounce {
                due.push(e);
                assert(pending_views(due@) =~= before_due.push(s[taken as int]));
            } else {
                let ghost w = waiting@;
                waiting.push(e);
                assert(pending_views(waiting@) =~= before_waiting.push(s[taken as int]));
                assert forall|i: int, j: int|
                    0 <= i < j < waiting@.len() implies pending_views(waiting@)[i].path
                    != pending_views(waiting@)[j].path by {
                    if j == w.len() {
                        assert(w[i].path@ != s[taken as int].path);
                    } else {
                        assert(before_waiting[i].path != before_waiting[j].path);
                    }
                }
                assert forall|i: int, k: int|
                    0 <= i < waiting@.len() && taken + 1 <= k < n implies waiting@[i].path@
                    != s[k].path by {
                    if i == w.len() {
                        assert(s[taken as int].path != s[k].path);
                    }
                }
            }
            taken += 1;
        }
        assert(s.take(taken as int) =~= s);
        self.events = waiting;
        due
    }
}

// ---------------------------------------------------------------------------
// Filters
// ---------------------------------------------------------------------------

/// A filter that takes markdown files only, with its own debounce.
pub struct CustomMarkdownFilter {
    pub debounce_ms: u64,
}

impl CustomMarkdownFilter {
    pub fn new(debounce_ms: u64) -> (f: Self)
        ensures
            f.debounce_ms == debounce_ms,
    {
        Self { debounce_ms }
    }

    /// Only markdown files: those whose extension is `md` or `markdown`.
    pub fn should_watch(&self, path: &str) -> (b: bool)
        ensures
            b == (path_extension(path@) == Some("md"@) || path_extension(path@) == Some(
                "markdown"@,
            )),
    {
        match extension_of(path) {
            Some(e) => str_eq(e.as_str(), "md") || str_eq(e.as_str(), "markdown"),
            None => false,
        }
    }

    /// How long changes are debounced, in milliseconds.
    pub fn debounce_duration_ms(&self) -> (ms: u64)
        ensures
            ms == self.debounce_ms,
    {
        self.debounce_ms
    }

    /// The filter's name.
    pub fn filter_name(&self) -> (s: &'static str)
        ensures
            s@ == "CustomMarkdownFilter"@,
    {
        "CustomMarkdownFilter"
    }
}

// ---------------------------------------------------------------------------
// Statistics and the event handler
// ---------------------------------------------------------------------------

/// Statistics about file watching activity
#[derive(Debug, Clone, Copy, PartialEq, Eq, Structural)]
pub struct WatchStatistics {
    pub watched_path_count: usize,
    pub pending_events_count: usize,
    pub total_events_processed: u64,
}

/// The statistics of a watcher with these watches and pending changes; the
/// total of processed events is not tracked and stays 0.
pub fn watch_statistics(watched: &[WatchedPath], pending: &Debouncer) -> (st: WatchStatistics)
    ensures
        st == (WatchStatistics {
            watched_path_count: watched@.len() as usize,
            pending_events_count: pending.pending().len() as usize,
            total_events_processed: 0,
        }),
{
    WatchStatistics {
        watched_path_count: watched.len(),
        pending_events_count: pending.len(),
        total_events_processed: 0,
    }
}

/// Event handler for system events
pub struct FileWatcherEventHandler {
    plugin_name: String,
}

impl FileWatcherEventHandler {
    pub closed spec fn name(&self) -> Seq<char> {
        self.plugin_name@
    }

    /// A handler named after the plugin.
    pub fn new(plugin_name: String) -> (h: Self)
        ensures
            h.name() == plugin_name@,
    {
        Self { plugin_name }
    }

    /// The handler's name.
    pub fn handler_name(&self) -> (s: &str)
        ensures
            s@ == self.name(),
    {
        self.plugin_name.as_str()
    }
}

// ---------------------------------------------------------------------------
// The event loop
// ---------------------------------------------------------------------------

/// Consecutive errors after which the watcher is recovered.
pub const MAX_CONSECUTIVE_ERRORS: u32 = 10;

/// Why the watcher is being recovered.
#[derive(Debug, Clone, Copy, PartialEq, Eq, Structural)]
pub enum RecoveryCause {
    /// Too many consecutive errors
    Errors,
    /// The event channel closed
    ChannelClosed,
}

/// What happened in the event loop.
#[derive(Debug, Clone, Copy, PartialEq, Eq, Structural)]
pub enum LoopInput {
    /// The error count's reset interval passed
    ResetInterval,
    /// A file system event arrived; `handled` says whether handling it worked
    Event { handled: bool },
    /// The watcher reported an error
    WatcherError,
    /// The event channel closed
    ChannelClosed,
    /// The debounce timer ticked; `processed` says whether publishing worked
    Tick { processed: bool },
    /// A recovery finished; `ok` says whether it worked
    Recovered { cause: RecoveryCause, ok: bool },
}

/// What the event loop does next.
#[derive(Debug, Clone, Copy, PartialEq, Eq, Structural)]
pub enum LoopStep {
    /// Go on, pausing briefly first when errors are counted
    Continue { pause: bool },
    /// Recover the watcher, then report with `Recovered`
    Recover(RecoveryCause),
    /// Stop the loop
    Stop,
}

/// The error count and step after an input.
pub open spec fn spec_loop_step(count: u32, input: LoopInput) -> (u32, LoopStep) {
    match input {
        LoopInput::ResetInterval => (0, LoopStep::Continue { pause: false }),
        LoopInput::Event { handled } => {
            let c: u32 = if handled { 0 } else { 1 };
            (c, LoopStep::Continue { pause: c > 0 })
        },
        LoopInput::WatcherError => {
            let c = (count + 1) as u32;
            if c >= MAX_CONSECUTIVE_ERRORS {
                (c, LoopStep::Recover(RecoveryCause::Errors))
            } else {
                (c, LoopStep::Continue { pause: true })
            }
        },
        LoopInput::ChannelClosed => (count, LoopStep::Recover(RecoveryCause::ChannelClosed)),
        LoopInput::Tick { processed } => {
            let c = if processed { count } else { (count + 1) as u32 };
            (c, LoopStep::Continue { pause: c > 0 })
        },
        LoopInput::Recovered { cause, ok } => match cause {
            RecoveryCause::Errors => {
                let c = if ok { 0 } else { count };
                (c, LoopStep::Continue { pause: c > 0 })
            },
            RecoveryCause::ChannelClosed => if ok {
                (count, LoopStep::Continue { pause: count > 0 })
            } else {
                (count, LoopStep::Stop)
            },
        },
    }
}

/// The error count of the file watcher's event loop.
pub struct WatchLoop {
    pub error_count: u32,
}

impl WatchLoop {
    /// No errors yet.
    pub fn new() -> (l: Self)
        ensures
            l.error_count == 0,
    {
        Self { error_count: 0 }
    }

    /// The next step after `input`: a successful event clears the count; a
    /// failed event, publish or watcher error adds one; enough watcher
    /// errors in a row, or a closed channel, call for recovery; a failed
    /// recovery after the channel closed stops the loop.
    pub fn step(&mut self, input: LoopInput) -> (s: LoopStep)
        requires
            old(self).error_count < u32::MAX,
        ensures
            (final(self).error_count, s) == spec_loop_step(old(self).error_count, input),
    {
        match input {
            LoopInput::ResetInterval => {
                self.error_count = 0;
                LoopStep::Continue { pause: false }
            },
            LoopInput::Event { handled } => {
                self.error_count = if handled { 0 } else { 1 };
                LoopStep::Continue { pause: self.error_count > 0 }
            },
            LoopInput::WatcherError => {
                self.error_count = self.error_count + 1;
                if self.error_count >= MAX_CONSECUTIVE_ERRORS {
                    LoopStep::Recover(RecoveryCause::Errors)
                } else {
                    LoopStep::Continue { pause: true }
                }
            },
            LoopInput::ChannelClosed => LoopStep::Recover(RecoveryCause::ChannelClosed),
            LoopInput::Tick { processed } => {
                if !processed {
                    self.error_count = self.error_count + 1;
                }
                LoopStep::Continue { pause: self.error_count > 0 }
            },
            LoopInput::Recovered { cause, ok } => match cause {
                RecoveryCause::Errors => {
                    if ok {
                        self.error_count = 0;
                    }
                    LoopStep::Continue { pause: self.error_count > 0 }
                },
                RecoveryCause::ChannelClosed => if ok {
                    LoopStep::Continue { pause: self.error_count > 0 }
                } else {
                    LoopStep::Stop
                },
            },
        }
    }
}

} // verus!
