//! Editor sessions: one file being edited, with its state, render
//! triggers, live rendering and conflict strategy, and the rules for
//! auto-saving and closing idle sessions.
use vstd::prelude::*;

use std::path::PathBuf;

use crate::file_watcher::{paths_equal, same_path};
use std::time::{Duration, SystemTime};

use uuid::Uuid;

use crate::clock::{as_nanos, system_elapsed, system_now};
use crate::editor_state::{
    content_updated, default_hash, saved, spec_valid_for, CursorPosition, EditorMode, EditorState,
    StateView,
};
use crate::file_sync::{resolve_conflict, spec_resolve, ConflictResolution, ConflictResolutionStrategy};
use crate::live_editor::{
    clicked, click_report, fresh_live, mixed_ok, processed, spans_of, switch_defined,
    ClickToEditResult,
    LiveEditorIntegration, LiveEditorResult, LiveView, ModeSwitchResult,
};
use crate::render_trigger::{
    block_outcome, change_outcome, default_config, drained, event_views, movement_outcome,
    space_outcome, DetectorView, RenderTriggerDetector, TriggerConfig, TriggerEvent, TriggerKind,
};
use crate::syntax_parser::{spec_parse_document, ElementView, MarkdownSyntaxParser, SyntaxParser};
use crate::text::{byte_len, owned};

verus! {

broadcast use vstd::string::group_string_axioms;

/// Auto-save result from background task
#[derive(Debug, Clone, Copy, PartialEq, Eq, Structural)]
pub enum AutoSaveResult {
    /// Session is ready to be saved
    ReadyToSave,
    /// Auto-save was cancelled
    Cancelled,
}

/// Auto-save configuration for a session
#[derive(Debug, Clone, Copy, PartialEq, Eq, Structural)]
pub struct AutoSaveConfig {
    /// Whether auto-save is enabled
    pub enabled: bool,
    /// Delay in seconds before auto-save triggers
    pub delay_seconds: u64,
    /// Maximum number of auto-save attempts
    pub max_attempts: u32,
}

impl Default for AutoSaveConfig {
    /// Enabled, after two seconds, with three attempts.
    fn default() -> (c: Self)
        ensures
            c == (AutoSaveConfig { enabled: true, delay_seconds: 2, max_attempts: 3 }),
    {
        Self { enabled: true, delay_seconds: 2, max_attempts: 3 }
    }
}

/// Session statistics
#[derive(Debug, Clone, Copy, PartialEq, Eq, Structural)]
pub struct SessionStats {
    pub total_sessions: usize,
    pub active_sessions: usize,
    pub dirty_sessions: usize,
    pub auto_save_enabled: usize,
}

/// Auto-save status information for a session
#[derive(Debug)]
pub struct AutoSaveStatus {
    /// Whether auto-save is enabled
    pub enabled: bool,
    /// Whether the session has unsaved changes
    pub is_dirty: bool,
    /// Last save time
    pub last_save_time: Option<SystemTime>,
    /// Time since last edit
    pub time_since_last_edit: Option<Duration>,
    /// Whether an auto-save is pending
    pub pending_save: bool,
}

/// Editor-specific errors
#[derive(Debug)]
pub enum EditorError {
    SessionNotFound(Uuid),
    FileOperationFailed(String),
    InvalidCursorPosition { line: usize, column: usize },
    ModeSwitchFailed(String),
    AutoSaveFailed(String),
    ContentSyncFailed(String),
}

/// Individual editor session representing one file being edited
#[derive(Debug)]
pub struct EditorSession {
    /// Unique session identifier
    pub id: Uuid,
    /// Path to the file being edited
    pub file_path: String,
    /// Current editor state
    pub state: EditorState,
    /// When the session was created
    pub created_at: SystemTime,
    /// When the session was last accessed
    pub last_accessed: SystemTime,
    /// Whether the session is currently active
    pub is_active: bool,
    /// Auto-save configuration for this session
    pub auto_save_config: AutoSaveConfig,
    /// Render trigger detection system
    pub render_trigger_detector: RenderTriggerDetector,
    /// Syntax parser for detecting block elements
    pub syntax_parser: MarkdownSyntaxParser,
    /// Live editor integration for rendering
    pub live_editor: LiveEditorIntegration,
    /// Conflict resolution strategy for this session
    pub conflict_strategy: ConflictResolutionStrategy,
    /// Whether to monitor for external file changes
    pub monitor_external_changes: bool,
}

/// What an `EditorSession` holds, leaving out its times.
#[verifier::ext_equal]
pub struct SessionView {
    pub id: Uuid,
    pub file: Seq<char>,
    pub state: StateView,
    pub active: bool,
    pub auto_save: AutoSaveConfig,
    pub detector: DetectorView,
    pub live: LiveView,
    pub strategy: ConflictResolutionStrategy,
    pub monitor: bool,
}

impl View for EditorSession {
    type V = SessionView;

    open spec fn view(&self) -> SessionView {
        SessionView {
            id: self.id,
            file: self.file_path@,
            state: self.state@,
            active: self.is_active,
            auto_save: self.auto_save_config,
            detector: self.render_trigger_detector@,
            live: self.live_editor@,
            strategy: self.conflict_strategy,
            monitor: self.monitor_external_changes,
        }
    }
}

/// What a session tells of a content update.
#[derive(Debug, Clone, Copy, PartialEq, Eq, Structural)]
pub struct ContentUpdate {
    /// Whether the change scheduled a render
    pub should_render: bool,
    /// Whether the content went from clean to dirty, which starts an
    /// auto-save timer
    pub became_dirty: bool,
}

/// What a session does with an external change.
#[derive(Debug)]
pub struct ExternalChangeOutcome {
    /// How the conflict was resolved
    pub resolution: ConflictResolution,
    /// The content update, when the resolution succeeded and was applied
    pub applied: Option<ContentUpdate>,
}

// ---------------------------------------------------------------------------
// Specification
// ---------------------------------------------------------------------------

/// A new session on the file `file` with `content`: a new editor state,
/// active, default auto-save and triggers, a new live editor, local edits
/// preferred and external changes monitored.
pub open spec fn new_session(id: Uuid, file: Seq<char>, content: Seq<char>) -> SessionView {
    SessionView {
        id,
        file,
        state: StateView {
            mode: EditorMode::Raw,
            content,
            cursor: CursorPosition { line: 0, column: 0, absolute: 0 },
            dirty: false,
            auto_save: true,
            saved_once: true,
            session: id,
            original_hash: crate::editor_state::content_hash(content),
            timer_running: false,
        },
        active: true,
        auto_save: AutoSaveConfig { enabled: true, delay_seconds: 2, max_attempts: 3 },
        detector: DetectorView {
            config: default_config(),
            pending: seq![],
            scheduled: false,
            has_trigger_time: false,
            last_cursor: None,
            last_content: seq![],
        },
        live: fresh_live(),
        strategy: ConflictResolutionStrategy::PreferLocal,
        monitor: true,
    }
}

/// The detector after a content change: a check for a completed block at
/// the cursor, then the change itself; and whether either scheduled a
/// render.
pub open spec fn content_change_outcome(
    d: DetectorView,
    c: Seq<char>,
    cursor: int,
    start: usize,
    end: usize,
) -> (DetectorView, bool) {
    let b = block_outcome(d, c, cursor, spec_parse_document(c));
    let ch = change_outcome(b.0, c, start, end);
    (ch.0, b.1 || ch.1)
}

/// The session after its content is set to `c`: the state updated, then
/// the change from the start of the old content to its end detected.
pub open spec fn content_set(s: SessionView, c: Seq<char>) -> (SessionView, ContentUpdate) {
    let st = content_updated(s.state, c);
    let o = content_change_outcome(s.detector, c, st.cursor.absolute as int, 0, byte_len(s.state.content) as usize);
    (
        SessionView { state: st, detector: o.0, ..s },
        ContentUpdate { should_render: o.1, became_dirty: !s.state.dirty && st.dirty },
    )
}

/// Setting a session's content and reading it back gives the content set;
/// setting the content a session already had leaves a clean session clean.
pub proof fn lemma_content_set_reads_back(s: SessionView, c: Seq<char>)
    ensures
        content_set(s, c).0.state.content == c,
        content_set(s, c).0.id == s.id,
        content_set(s, c).0.strategy == s.strategy,
        s.state.original_hash == crate::editor_state::content_hash(c) ==> !content_set(s, c).0.state.dirty
            && !content_set(s, c).1.became_dirty,
{
}

/// The live view of `c` cuts the text only between characters (where
/// the parsed elements leave text between them).
pub open spec fn live_cuts_ok(c: Seq<char>) -> bool {
    mixed_ok(c, spans_of(spec_parse_document(c)), 0, 0)
}

/// Nanoseconds in `m` minutes.
pub open spec fn minutes_in_nanos(m: int) -> int {
    m * 60 * 1_000_000_000
}

// ---------------------------------------------------------------------------
// Sessions
// ---------------------------------------------------------------------------

impl EditorSession {
    /// A session on `content` (the file's text, or empty for a new file).
    pub fn with_content(id: Uuid, file_path: String, content: String) -> (s: Self)
        ensures
            s@ == new_session(id, file_path@, content@),
    {
        let now = system_now();
        let s = Self {
            id,
            file_path,
            state: EditorState::new(id, content),
            created_at: now,
            last_accessed: now,
            is_active: true,
            auto_save_config: AutoSaveConfig::default(),
            render_trigger_detector: RenderTriggerDetector::with_defaults(),
            syntax_parser: MarkdownSyntaxParser::new(),
            live_editor: LiveEditorIntegration::new(),
            conflict_strategy: ConflictResolutionStrategy::PreferLocal,
            monitor_external_changes: true,
        };
        assert(s@ =~= new_session(id, s.file_path@, s.state@.content));
        s
    }

    /// Update the last accessed time
    pub fn touch(&mut self)
        ensures
            final(self)@ == old(self)@,
    {
        self.last_accessed = system_now();
    }

    /// Get mutable access to the editor state
    pub fn state_mut(&mut self) -> (st: &mut EditorState)
        ensures
            st@ == old(self)@.state,
            final(self)@ == (SessionView { state: final(st)@, ..old(self)@ }),
    {
        &mut self.state
    }

    /// Check if the session should be auto-saved: the clock decides, but
    /// only with auto-save on in both the session and its state, and dirty
    /// content.
    pub fn should_auto_save(&self) -> (b: bool)
        ensures
            b ==> self@.auto_save.enabled && self@.state.auto_save && self@.state.dirty
                && self@.state.timer_running,
    {
        self.auto_save_config.enabled && self.state.should_auto_save()
    }

    /// Whether an auto-save timer should start: auto-save on and unsaved
    /// changes.
    pub fn wants_auto_save(&self) -> (b: bool)
        ensures
            b == (self@.auto_save.enabled && self@.state.dirty),
    {
        self.auto_save_config.enabled && self.state.is_dirty
    }

    /// Get session age
    pub fn age(&self) -> Option<Duration> {
        system_elapsed(&self.created_at)
    }

    /// Get time since last access
    pub fn idle_time(&self) -> Option<Duration> {
        system_elapsed(&self.last_accessed)
    }

    /// Whether the session may be closed as idle: the clock decides, but
    /// never with unsaved changes.
    pub fn is_idle_beyond(&self, max_idle_minutes: u64) -> (b: bool)
        ensures
            b ==> !self@.state.dirty,
    {
        let idle = match self.idle_time() {
            Some(d) => Some(as_nanos(&d)),
            None => None,
        };
        idle_session_closes(idle, max_idle_minutes, self.state.is_dirty)
    }

    /// Handle space key press for render trigger detection
    pub fn handle_space_key(&mut self, cursor_position: CursorPosition) -> (b: bool)
        ensures
            (final(self)@.detector, b) == space_outcome(old(self)@.detector),
            final(self)@ == (SessionView { detector: final(self)@.detector, ..old(self)@ }),
    {
        self.render_trigger_detector.detect_space_key(cursor_position)
    }

    /// Handle cursor movement for render trigger detection
    pub fn handle_cursor_movement(&mut self, new_position: CursorPosition) -> (b: bool)
        ensures
            (final(self)@.detector, b) == movement_outcome(old(self)@.detector, new_position),
            final(self)@ == (SessionView { detector: final(self)@.detector, ..old(self)@ }),
    {
        self.render_trigger_detector.detect_cursor_movement(new_position)
    }

    /// Handle content change for render trigger detection: a completed
    /// block at the cursor, then the change itself.
    pub fn handle_content_change(&mut self, new_content: &str, change_start: usize, change_end: usize) -> (b:
        bool)
        ensures
            (final(self)@.detector, b) == content_change_outcome(
                old(self)@.detector,
                new_content@,
                old(self)@.state.cursor.absolute as int,
                change_start,
                change_end,
            ),
            final(self)@ == (SessionView { detector: final(self)@.detector, ..old(self)@ }),
    {
        let syntax_elements = self.syntax_parser.parse_document(new_content);
        let cursor_pos = self.state.cursor_position;
        let block_completed = self.render_trigger_detector.detect_block_completion(
            new_content,
            cursor_pos,
            syntax_elements.as_slice(),
        );
        let content_changed = self.render_trigger_detector.detect_content_change(
            new_content,
            change_start,
            change_end,
        );
        block_completed || content_changed
    }

    /// Check if rendering should be triggered (debounced)
    pub fn should_trigger_render(&mut self) -> (b: bool)
        ensures
            old(self)@.detector.pending.len() == 0 ==> !b,
            !old(self)@.detector.has_trigger_time ==> !b,
            old(self)@.detector.config.debounce_delay_ms == 0 ==> b == (
            old(self)@.detector.pending.len() > 0 && old(self)@.detector.has_trigger_time),
            b ==> final(self)@ == (SessionView { detector: drained(old(self)@.detector), ..old(self)@ }),
            !b ==> final(self)@ == old(self)@,
    {
        self.render_trigger_detector.should_trigger_render()
    }

    /// Get pending trigger events
    pub fn get_pending_trigger_events(&self) -> (r: &[TriggerEvent])
        ensures
            event_views(r@) == self@.detector.pending,
    {
        self.render_trigger_detector.get_pending_events()
    }

    /// Clear pending trigger events
    pub fn clear_trigger_events(&mut self)
        ensures
            final(self)@ == (SessionView { detector: drained(old(self)@.detector), ..old(self)@ }),
    {
        self.render_trigger_detector.clear_pending_events()
    }

    /// Force immediate render trigger
    pub fn force_render_trigger(&mut self) -> (b: bool)
        ensures
            b == (old(self)@.detector.pending.len() > 0),
            b ==> final(self)@ == (SessionView { detector: drained(old(self)@.detector), ..old(self)@ }),
            !b ==> final(self)@ == old(self)@,
    {
        self.render_trigger_detector.force_trigger()
    }

    /// Update render trigger configuration
    pub fn update_trigger_config(&mut self, config: TriggerConfig)
        ensures
            final(self)@ == (SessionView {
                detector: DetectorView { config, ..old(self)@.detector },
                ..old(self)@
            }),
    {
        self.render_trigger_detector.update_config(config)
    }

    /// Set the content: the state takes it, and the change from the start of
    /// the old content to its end (in bytes) is checked for render
    /// triggers.
    pub fn set_content(&mut self, content: String) -> (u: ContentUpdate)
        ensures
            (final(self)@, u) == content_set(old(self)@, content@),
    {
        let old_content_len = self.state.content.as_str().as_bytes().len();
        let was_dirty = self.state.is_dirty;
        let ghost c = content@;
        self.state.update_content(content);
        let should_render = self.handle_content_change_at_state(old_content_len);
        self.touch();
        let u = ContentUpdate { should_render, became_dirty: !was_dirty && self.state.is_dirty };
        assert(self@ =~= content_set(old(self)@, c).0);
        u
    }

    /// The render trigger check of `set_content`, on the state's content.
    fn handle_content_change_at_state(&mut self, change_end: usize) -> (b: bool)
        ensures
            (final(self)@.detector, b) == content_change_outcome(
                old(self)@.detector,
                old(self)@.state.content,
                old(self)@.state.cursor.absolute as int,
                0,
                change_end,
            ),
            final(self)@ == (SessionView { detector: final(self)@.detector, ..old(self)@ }),
    {
        let syntax_elements = self.syntax_parser.parse_document(self.state.content.as_str());
        let cursor_pos = self.state.cursor_position;
        let block_completed = self.render_trigger_detector.detect_block_completion(
            self.state.content.as_str(),
            cursor_pos,
            syntax_elements.as_slice(),
        );
        let content_changed = self.render_trigger_detector.detect_content_change(
            self.state.content.as_str(),
            0,
            change_end,
        );
        block_completed || content_changed
    }

    /// Move the cursor: an invalid position is an error and changes
    /// nothing; a valid one is taken and checked for render triggers.
    pub fn set_cursor_position(&mut self, position: CursorPosition) -> (r: Result<bool, EditorError>)
        ensures
            spec_valid_for(position, old(self)@.state.content) ==> {
                let st = StateView { cursor: position, ..old(self)@.state };
                let m = movement_outcome(old(self)@.detector, position);
                r == Ok::<bool, EditorError>(m.1) && final(self)@ == (SessionView {
                    state: st,
                    detector: m.0,
                    ..old(self)@
                })
            },
            !spec_valid_for(position, old(self)@.state.content) ==> final(self)@ == old(self)@ && (
            r matches Err(EditorError::InvalidCursorPosition { line, column }) && line
                == position.line && column == position.column),
    {
        match self.state.update_cursor_position(position) {
            Ok(()) => {},
            Err(_) => {
                return Err(
                    EditorError::InvalidCursorPosition {
                        line: position.line,
                        column: position.column,
                    },
                );
            },
        }
        let should_render = self.handle_cursor_movement(position);
        self.touch();
        Ok(should_render)
    }

    /// Enable or disable auto-save in the session and its state.
    pub fn set_auto_save(&mut self, enabled: bool)
        ensures
            final(self)@.auto_save == (AutoSaveConfig { enabled, ..old(self)@.auto_save }),
            final(self)@.state == (StateView {
                auto_save: enabled,
                timer_running: if !enabled {
                    false
                } else if old(self)@.state.dirty {
                    true
                } else {
                    old(self)@.state.timer_running
                },
                ..old(self)@.state
            }),
            final(self)@ == (SessionView {
                auto_save: final(self)@.auto_save,
                state: final(self)@.state,
                ..old(self)@
            }),
    {
        self.auto_save_config.enabled = enabled;
        self.state.set_auto_save(enabled);
        self.touch();
    }

    /// Switch modes: the live editor carries the cursor across, and the
    /// state takes the new mode and, where it fits, the carried cursor.
    pub fn switch_mode_with_cursor(&mut self, from_mode: EditorMode, to_mode: EditorMode) -> (r:
        ModeSwitchResult)
        requires
            switch_defined(old(self)@.live.manager, from_mode, to_mode),
        ensures
            r.needs_rerender == (from_mode != to_mode),
            final(self)@.state.mode == to_mode,
            final(self)@.state == (StateView {
                mode: to_mode,
                cursor: if spec_valid_for(r.preserved_cursor_position, old(self)@.state.content) {
                    r.preserved_cursor_position
                } else {
                    old(self)@.state.cursor
                },
                ..old(self)@.state
            }),
    {
        let cursor = self.state.cursor_position;
        let result = self.live_editor.handle_mode_switch(from_mode, to_mode, &cursor);
        self.state.switch_mode(to_mode);
        let _ = self.state.update_cursor_position(result.preserved_cursor_position);
        self.touch();
        result
    }

    /// Replace the raw content of the active element; when there is one,
    /// the state is marked as updated with its own content.
    pub fn update_active_element(&mut self, new_content: &str) -> (b: bool)
        ensures
            b == (crate::live_editor::opt_view_at(old(self)@.live.elements, old(self)@.live.active) is Some),
            !b ==> final(self)@ == old(self)@,
            b ==> final(self)@ == (SessionView {
                live: LiveView {
                    elements: old(self)@.live.elements.update(
                        old(self)@.live.active->0 as int,
                        ElementView {
                            raw: new_content@,
                            ..old(self)@.live.elements[old(self)@.live.active->0 as int]
                        },
                    ),
                    ..old(self)@.live
                },
                state: content_updated(old(self)@.state, old(self)@.state.content),
                ..old(self)@
            }),
    {
        let updated = self.live_editor.update_active_element_content(new_content);
        if updated {
            let current = self.state.content.clone();
            self.state.update_content(current);
            self.touch();
        }
        updated
    }

    /// Process the content with live rendering at the state's cursor.
    pub fn process_live_content(&mut self, trigger_events: &[TriggerEvent]) -> (r: LiveEditorResult)
        requires
            live_cuts_ok(old(self)@.state.content),
        ensures
            final(self)@.live == processed(
                old(self)@.live,
                old(self)@.state.content,
                old(self)@.state.cursor,
                event_views(trigger_events@),
            ),
            final(self)@ == (SessionView { live: final(self)@.live, ..old(self)@ }),
    {
        let result = self.live_editor.process_content_with_cursor(
            self.state.content.as_str(),
            &self.state.cursor_position,
            trigger_events,
        );
        self.touch();
        result
    }

    /// Click-to-edit in the live view.
    pub fn click_to_edit(&mut self, click_position: usize) -> (r: ClickToEditResult)
        ensures
            final(self)@.live == clicked(old(self)@.live, click_position as int),
            r@ == click_report(old(self)@.live, click_position as int),
            final(self)@ == (SessionView { live: final(self)@.live, ..old(self)@ }),
    {
        let result = self.live_editor.handle_click_to_edit(
            click_position,
            self.state.content.as_str(),
        );
        self.touch();
        result
    }

    /// The auto-save status of the session.
    pub fn auto_save_status(&self) -> (st: AutoSaveStatus)
        ensures
            st.enabled == self@.auto_save.enabled,
            st.is_dirty == self@.state.dirty,
            st.pending_save == self@.state.timer_running,
            (st.last_save_time is Some) == self@.state.saved_once,
    {
        AutoSaveStatus {
            enabled: self.auto_save_config.enabled,
            is_dirty: self.state.is_dirty,
            last_save_time: self.state.last_save_time,
            time_since_last_edit: self.state.time_since_last_edit(),
            pending_save: self.state.auto_save_timer.is_some(),
        }
    }

    /// Resolve an external change with the session's strategy; a successful
    /// resolution becomes the content.
    pub fn apply_external_change(&mut self, external_content: &str) -> (r: ExternalChangeOutcome)
        ensures
            r.resolution@ == spec_resolve(old(self)@.state.content, external_content@, old(self)@.strategy),
            r.resolution@.success ==> r.applied == Some(
                content_set(old(self)@, r.resolution@.content).1,
            ) && final(self)@ == content_set(old(self)@, r.resolution@.content).0,
            !(r.resolution@.success) ==> r.applied
                is None && final(self)@ == old(self)@,
    {
        let resolution = resolve_conflict(
            self.state.content.as_str(),
            external_content,
            self.conflict_strategy,
        );
        if resolution.success {
            let update = self.set_content(resolution.content.clone());
            ExternalChangeOutcome { resolution, applied: Some(update) }
        } else {
            ExternalChangeOutcome { resolution, applied: None }
        }
    }
}

/// Whether a session idle for `idle_nanos` (`None` when the clock went
/// back) is closed by a cleanup with a limit of `max_idle_minutes`: idle
/// longer than the limit, and without unsaved changes.
pub fn idle_session_closes(idle_nanos: Option<u128>, max_idle_minutes: u64, is_dirty: bool) -> (b:
    bool)
    ensures
        b == (!is_dirty && match idle_nanos {
            Some(n) => n > minutes_in_nanos(max_idle_minutes as int),
            None => false,
        }),
{
    match idle_nanos {
        Some(n) => {
            let limit: u128 = (max_idle_minutes as u128) * 60 * 1_000_000_000;
            n > limit && !is_dirty
        },
        None => false,
    }
}

/// Counts of sessions: all, active, dirty, and with auto-save on.
pub open spec fn spec_session_stats(ss: Seq<SessionView>) -> SessionStats
    decreases ss.len(),
{
    if ss.len() == 0 {
        SessionStats { total_sessions: 0, active_sessions: 0, dirty_sessions: 0, auto_save_enabled: 0 }
    } else {
        let r = spec_session_stats(ss.drop_last());
        let s = ss.last();
        SessionStats {
            total_sessions: (r.total_sessions + 1) as usize,
            active_sessions: (r.active_sessions + if s.active { 1usize } else { 0 }) as usize,
            dirty_sessions: (r.dirty_sessions + if s.state.dirty { 1usize } else { 0 }) as usize,
            auto_save_enabled: (r.auto_save_enabled + if s.auto_save.enabled { 1usize } else { 0 }) as usize,
        }
    }
}

pub open spec fn session_views(s: Seq<EditorSession>) -> Seq<SessionView> {
    s.map_values(|x: EditorSession| x@)
}

/// Get session statistics
pub fn session_stats(sessions: &[EditorSession]) -> (st: SessionStats)
    ensures
        st == spec_session_stats(session_views(sessions@)),
{
    let ghost ss = session_views(sessions@);
    let mut st = SessionStats { total_sessions: 0, active_sessions: 0, dirty_sessions: 0, auto_save_enabled: 0 };
    let mut i: usize = 0;
    while i < sessions.len()
        invariant
            ss == session_views(sessions@),
            i <= ss.len(),
            ss.len() == sessions@.len(),
            st == spec_session_stats(ss.take(i as int)),
            st.total_sessions == i,
            st.active_sessions <= i,
            st.dirty_sessions <= i,
            st.auto_save_enabled <= i,
        decreases ss.len() - i,
    {
        let s = &sessions[i];
        assert(ss[i as int] == s@);
        assert(ss.take(i + 1).drop_last() =~= ss.take(i as int));
        st = SessionStats {
            total_sessions: st.total_sessions + 1,
            active_sessions: st.active_sessions + if s.is_active { 1 } else { 0 },
            dirty_sessions: st.dirty_sessions + if s.state.is_dirty { 1 } else { 0 },
            auto_save_enabled: st.auto_save_enabled + if s.auto_save_config.enabled { 1 } else { 0 },
        };
        i += 1;
    }
    assert(ss.take(i as int) =~= ss);
    st
}

/// Editor-specific events for WebSocket communication and system integration
#[derive(Debug)]
pub enum EditorEvent {
    /// Content changed in a session
    ContentChanged { session_id: Uuid, content: String, cursor_position: CursorPosition },
    /// Editor mode changed
    ModeChanged { session_id: Uuid, mode: EditorMode },
    /// Save was requested
    SaveRequested { session_id: Uuid },
    /// Save completed
    SaveCompleted { session_id: Uuid, success: bool, timestamp: SystemTime },
    /// Cursor position moved
    CursorMoved { session_id: Uuid, position: CursorPosition },
    /// Auto-save triggered
    AutoSaveTriggered { session_id: Uuid },
    /// Session created
    SessionCreated { session_id: Uuid, file_path: PathBuf },
    /// Session closed
    SessionClosed { session_id: Uuid },
    /// Auto-save status changed
    AutoSaveStatusChanged { session_id: Uuid, status: AutoSaveStatus },
}

/// The name of an event's type.
pub open spec fn event_type_name(e: EditorEvent) -> Seq<char> {
    match e {
        EditorEvent::ContentChanged { .. } => "content_changed"@,
        EditorEvent::ModeChanged { .. } => "mode_changed"@,
        EditorEvent::SaveRequested { .. } => "save_requested"@,
        EditorEvent::SaveCompleted { .. } => "save_completed"@,
        EditorEvent::CursorMoved { .. } => "cursor_moved"@,
        EditorEvent::AutoSaveTriggered { .. } => "auto_save_triggered"@,
        EditorEvent::SessionCreated { .. } => "session_created"@,
        EditorEvent::SessionClosed { .. } => "session_closed"@,
        EditorEvent::AutoSaveStatusChanged { .. } => "auto_save_status_changed"@,
    }
}

/// The session an event is about.
pub open spec fn event_session(e: EditorEvent) -> Uuid {
    match e {
        EditorEvent::ContentChanged { session_id, .. } => session_id,
        EditorEvent::ModeChanged { session_id, .. } => session_id,
        EditorEvent::SaveRequested { session_id } => session_id,
        EditorEvent::SaveCompleted { session_id, .. } => session_id,
        EditorEvent::CursorMoved { session_id, .. } => session_id,
        EditorEvent::AutoSaveTriggered { session_id } => session_id,
        EditorEvent::SessionCreated { session_id, .. } => session_id,
        EditorEvent::SessionClosed { session_id } => session_id,
        EditorEvent::AutoSaveStatusChanged { session_id, .. } => session_id,
    }
}

impl EditorEvent {
    /// Get the event type as a string
    pub fn event_type(&self) -> (s: &'static str)
        ensures
            s@ == event_type_name(*self),
    {
        match self {
            EditorEvent::ContentChanged { .. } => "content_changed",
            EditorEvent::ModeChanged { .. } => "mode_changed",
            EditorEvent::SaveRequested { .. } => "save_requested",
            EditorEvent::SaveCompleted { .. } => "save_completed",
            EditorEvent::CursorMoved { .. } => "cursor_moved",
            EditorEvent::AutoSaveTriggered { .. } => "auto_save_triggered",
            EditorEvent::SessionCreated { .. } => "session_created",
            EditorEvent::SessionClosed { .. } => "session_closed",
            EditorEvent::AutoSaveStatusChanged { .. } => "auto_save_status_changed",
        }
    }

    /// Get the session ID for this event
    pub fn session_id(&self) -> (id: Uuid)
        ensures
            id == event_session(*self),
    {
        match self {
            EditorEvent::ContentChanged { session_id, .. } => *session_id,
            EditorEvent::ModeChanged { session_id, .. } => *session_id,
            EditorEvent::SaveRequested { session_id } => *session_id,
            EditorEvent::SaveCompleted { session_id, .. } => *session_id,
            EditorEvent::CursorMoved { session_id, .. } => *session_id,
            EditorEvent::AutoSaveTriggered { session_id } => *session_id,
            EditorEvent::SessionCreated { session_id, .. } => *session_id,
            EditorEvent::SessionClosed { session_id } => *session_id,
            EditorEvent::AutoSaveStatusChanged { session_id, .. } => *session_id,
        }
    }
}


// ---------------------------------------------------------------------------
// The session manager
// ---------------------------------------------------------------------------

/// Whether two session ids are equal (`Uuid`'s `==`, derived over its
/// bytes).
#[verifier::external_body]
fn same_id(a: &Uuid, b: &Uuid) -> (r: bool)
    ensures
        r == (*a == *b),
{
    *a == *b
}

/// The first session with the id `id`.
pub open spec fn index_of(ss: Seq<SessionView>, id: Uuid) -> Option<int>
    decreases ss.len(),
{
    if ss.len() == 0 {
        None
    } else {
        match index_of(ss.drop_last(), id) {
            Some(i) => Some(i),
            None => if ss.last().id == id {
                Some(ss.len() - 1)
            } else {
                None
            },
        }
    }
}

proof fn lemma_index_of(ss: Seq<SessionView>, id: Uuid)
    ensures
        index_of(ss, id) matches Some(i) ==> 0 <= i < ss.len() && ss[i].id == id && forall|k: int|
            0 <= k < i ==> ss[k].id != id,
        index_of(ss, id) is None ==> forall|k: int| 0 <= k < ss.len() ==> ss[k].id != id,
    decreases ss.len(),
{
    if ss.len() > 0 {
        lemma_index_of(ss.drop_last(), id);
        assert forall|k: int| 0 <= k < ss.len() - 1 implies ss[k] == ss.drop_last()[k] by {}
    }
}

/// The ids of the sessions, in order.
pub open spec fn ids_of(ss: Seq<SessionView>) -> Seq<Uuid> {
    ss.map_values(|v: SessionView| v.id)
}

/// The ids of the sessions among `ss` whose file is `path`, as paths compare.
pub open spec fn editing_ids(ss: Seq<SessionView>, path: Seq<char>) -> Seq<Uuid>
    decreases ss.len(),
{
    if ss.len() == 0 {
        seq![]
    } else if same_path(ss.last().file, path) {
        editing_ids(ss.drop_last(), path).push(ss.last().id)
    } else {
        editing_ids(ss.drop_last(), path)
    }
}

/// Whether a session is rendered again after an external change of its
/// file: when the change was resolved.
pub fn render_after(o: &ExternalChangeOutcome) -> (b: bool)
    ensures
        b == o.resolution@.success,
{
    o.resolution.success
}

/// The outcome of an operation on one session: with the session there, it
/// becomes `after` and the operation gives `ok`; without it, nothing
/// changes and the operation fails with `SessionNotFound`.
pub open spec fn on_session<T>(
    before: Seq<SessionView>,
    after_all: Seq<SessionView>,
    id: Uuid,
    r: Result<T, EditorError>,
    step: spec_fn(SessionView) -> (SessionView, T),
) -> bool {
    match index_of(before, id) {
        Some(i) => after_all == before.update(i, step(before[i]).0) && r == Ok::<T, EditorError>(
            step(before[i]).1,
        ),
        None => after_all == before && (r matches Err(EditorError::SessionNotFound(x)) && x == id),
    }
}

/// Some session with the id `id` has auto-save on and unsaved changes.
pub open spec fn may_auto_save(ss: Seq<SessionView>, id: Uuid) -> bool {
    exists|k: int| 0 <= k < ss.len() && ss[k].id == id && ss[k].auto_save.enabled && ss[k].state.dirty
}

/// Some session with the id `id` has no unsaved changes.
pub open spec fn clean_session(ss: Seq<SessionView>, id: Uuid) -> bool {
    exists|k: int| 0 <= k < ss.len() && ss[k].id == id && !ss[k].state.dirty
}

/// A session after its render fired: nothing pending or scheduled.
pub open spec fn render_fired(v: SessionView) -> SessionView {
    SessionView { detector: drained(v.detector), ..v }
}

/// The ids of the sessions that changed, in order.
pub open spec fn fired_ids(before: Seq<SessionView>, after: Seq<SessionView>) -> Seq<Uuid>
    decreases before.len(),
{
    if before.len() == 0 || after.len() != before.len() {
        seq![]
    } else {
        let r = fired_ids(before.drop_last(), after.drop_last());
        if after.last() != before.last() {
            r.push(before.last().id)
        } else {
            r
        }
    }
}

/// Session manager that handles multiple editor sessions
pub struct SessionManager {
    sessions: Vec<EditorSession>,
}

impl SessionManager {
    /// The sessions, in the order they were created.
    pub closed spec fn views(&self) -> Seq<SessionView> {
        session_views(self.sessions@)
    }

    /// Create a new session manager
    pub fn new() -> (m: Self)
        ensures
            m.views() == Seq::<SessionView>::empty(),
    {
        let m = Self { sessions: Vec::new() };
        assert(m.views() =~= Seq::<SessionView>::empty());
        m
    }

    /// The position of the session with the id `id`.
    fn find(&self, id: &Uuid) -> (r: Option<usize>)
        ensures
            (r matches Some(i) ==> index_of(self.views(), *id) == Some(i as int) && i
                < self.sessions@.len()),
            r is None ==> index_of(self.views(), *id) is None,
    {
        let ghost ss = self.views();
        proof {
            lemma_index_of(ss, *id);
        }
        let mut i: usize = 0;
        while i < self.sessions.len()
            invariant
                ss == session_views(self.sessions@),
                i <= ss.len(),
                forall|k: int| 0 <= k < i ==> ss[k].id != *id,
                index_of(ss, *id) matches Some(j) ==> 0 <= j < ss.len() && ss[j].id == *id
                    && forall|k: int| 0 <= k < j ==> ss[k].id != *id,
                index_of(ss, *id) is None ==> forall|k: int| 0 <= k < ss.len() ==> ss[k].id != *id,
            decreases ss.len() - i,
        {
            assert(ss[i as int] == self.sessions@[i as int]@);
            if same_id(&self.sessions[i].id, id) {
                return Some(i);
            }
            i += 1;
        }
        None
    }

    /// Take the session at `i` out, to put it back with `put_back`.
    fn take(&mut self, i: usize) -> (s: EditorSession)
        requires
            i < old(self).sessions@.len(),
        ensures
            s@ == old(self).views()[i as int],
            final(self).sessions@ == old(self).sessions@.remove(i as int),
    {
        let s = self.sessions.remove(i);
        assert(s@ == old(self).views()[i as int]);
        s
    }

    /// Put a session taken out at `i` back there.
    fn put_back(&mut self, i: usize, s: EditorSession)
        requires
            i <= old(self).sessions@.len(),
        ensures
            final(self).sessions@ == old(self).sessions@.insert(i as int, s),
    {
        self.sessions.insert(i, s);
    }

    /// Create a new editing session with the id `id`, on `file_path` with
    /// `content` (the file's text, or empty for a new file); a session with
    /// the same id is replaced.
    pub fn create_session(&mut self, id: Uuid, file_path: String, content: String) -> (r: Uuid)
        ensures
            r == id,
            match index_of(old(self).views(), id) {
                Some(i) => final(self).views() == old(self).views().update(
                    i,
                    new_session(id, file_path@, content@),
                ),
                None => final(self).views() == old(self).views().push(
                    new_session(id, file_path@, content@),
                ),
            },
    {
        let ghost c = content@;
        let ghost f = file_path@;
        let session = EditorSession::with_content(id, file_path, content);
        match self.find(&id) {
            Some(i) => {
                let ghost before = self.sessions@;
                let _ = self.take(i);
                self.put_back(i, session);
                assert(self.views() =~= old(self).views().update(i as int, new_session(id, f, c)));
            },
            None => {
                self.sessions.push(session);
                assert(self.views() =~= old(self).views().push(new_session(id, f, c)));
            },
        }
        id
    }

    /// Close an editing session: it leaves the manager and is handed back
    /// (to be saved when it has unsaved changes).
    pub fn close_session(&mut self, id: Uuid) -> (r: Result<EditorSession, EditorError>)
        ensures
            match index_of(old(self).views(), id) {
                Some(i) => (r matches Ok(s) && s@ == old(self).views()[i]) && final(self).views()
                    == old(self).views().remove(i),
                None => (r matches Err(EditorError::SessionNotFound(x)) && x == id) && final(self).views() == old(self).views(),
            },
    {
        match self.find(&id) {
            Some(i) => {
                let s = self.take(i);
                assert(self.views() =~= old(self).views().remove(i as int));
                Ok(s)
            },
            None => Err(EditorError::SessionNotFound(id)),
        }
    }

    /// Get session information
    pub fn get_session_info(&self, id: Uuid) -> (r: Option<&EditorSession>)
        ensures
            match index_of(self.views(), id) {
                Some(i) => r matches Some(s) && s@ == self.views()[i],
                None => r is None,
            },
    {
        match self.find(&id) {
            Some(i) => Some(&self.sessions[i]),
            None => None,
        }
    }

    /// Get content for a session
    pub fn get_content(&self, id: Uuid) -> (r: Result<String, EditorError>)
        ensures
            match index_of(self.views(), id) {
                Some(i) => r matches Ok(c) && c@ == self.views()[i].state.content,
                None => r matches Err(EditorError::SessionNotFound(x)) && x == id,
            },
    {
        match self.find(&id) {
            Some(i) => Ok(owned(self.sessions[i].state.content.as_str())),
            None => Err(EditorError::SessionNotFound(id)),
        }
    }

    /// Check if session has unsaved changes
    pub fn has_unsaved_changes(&self, id: Uuid) -> (r: Result<bool, EditorError>)
        ensures
            match index_of(self.views(), id) {
                Some(i) => r == Ok::<bool, EditorError>(self.views()[i].state.dirty),
                None => r matches Err(EditorError::SessionNotFound(x)) && x == id,
            },
    {
        match self.find(&id) {
            Some(i) => Ok(self.sessions[i].state.is_dirty),
            None => Err(EditorError::SessionNotFound(id)),
        }
    }

    /// The sessions editing the file at `path` (equal as paths are), in the
    /// order they were created: those an external change of that file
    /// concerns.
    pub fn sessions_editing(&self, path: &str) -> (r: Vec<Uuid>)
        ensures
            r@ == editing_ids(self.views(), path@),
    {
        let mut r: Vec<Uuid> = Vec::new();
        let mut i: usize = 0;
        while i < self.sessions.len()
            invariant
                i <= self.sessions@.len(),
                r@ == editing_ids(self.views().take(i as int), path@),
            decreases self.sessions@.len() - i,
        {
            proof {
                assert(self.views().take(i + 1).drop_last() =~= self.views().take(i as int));
                assert(self.views()[i as int] == self.sessions@[i as int]@);
            }
            if paths_equal(self.sessions[i].file_path.as_str(), path) {
                r.push(self.sessions[i].id);
            }
            i += 1;
        }
        assert(self.views().take(i as int) =~= self.views());
        r
    }

    /// Get all active session IDs, in the order the sessions were created
    pub fn get_active_sessions(&self) -> (r: Vec<Uuid>)
        ensures
            r@ == ids_of(self.views()),
    {
        let mut r: Vec<Uuid> = Vec::new();
        let mut i: usize = 0;
        while i < self.sessions.len()
            invariant
                i <= self.sessions@.len(),
                r@ == ids_of(self.views()).take(i as int),
            decreases self.sessions@.len() - i,
        {
            r.push(self.sessions[i].id);
            assert(r@ =~= ids_of(self.views()).take(i + 1));
            i += 1;
        }
        assert(ids_of(self.views()).take(i as int) =~= ids_of(self.views()));
        r
    }

    /// Get session statistics
    pub fn get_session_stats(&self) -> (st: SessionStats)
        ensures
            st == spec_session_stats(self.views()),
    {
        session_stats(self.sessions.as_slice())
    }

    /// Set content for a session
    pub fn set_content(&mut self, id: Uuid, content: String) -> (r: Result<ContentUpdate, EditorError>)
        ensures
            on_session(old(self).views(), final(self).views(), id, r, |v: SessionView| content_set(v, content@)),
    {
        let ghost c = content@;
        match self.find(&id) {
            Some(i) => {
                let mut s = self.take(i);
                let u = s.set_content(content);
                self.put_back(i, s);
                assert(self.views() =~= old(self).views().update(i as int, content_set(old(self).views()[i as int], c).0));
                Ok(u)
            },
            None => Err(EditorError::SessionNotFound(id)),
        }
    }

    /// Update cursor position for a session: an invalid position fails with
    /// `InvalidCursorPosition` and changes nothing.
    pub fn update_cursor_position(&mut self, id: Uuid, position: CursorPosition) -> (r: Result<bool, EditorError>)
        ensures
            match index_of(old(self).views(), id) {
                Some(i) => {
                    let v = old(self).views()[i];
                    if spec_valid_for(position, v.state.content) {
                        let m = movement_outcome(v.detector, position);
                        r == Ok::<bool, EditorError>(m.1) && final(self).views() == old(self).views().update(
                            i,
                            SessionView { state: StateView { cursor: position, ..v.state }, detector: m.0, ..v },
                        )
                    } else {
                        final(self).views() == old(self).views() && (r matches Err(
                            EditorError::InvalidCursorPosition { line, column },
                        ) && line == position.line && column == position.column)
                    }
                },
                None => final(self).views() == old(self).views() && (r matches Err(EditorError::SessionNotFound(x)) && x == id),
            },
    {
        match self.find(&id) {
            Some(i) => {
                let mut s = self.take(i);
                let r = s.set_cursor_position(position);
                self.put_back(i, s);
                assert(self.views() =~= old(self).views().update(i as int, self.views()[i as int]));
                proof {
                    if !spec_valid_for(position, old(self).views()[i as int].state.content) {
                        assert(self.views() =~= old(self).views());
                    }
                }
                r
            },
            None => Err(EditorError::SessionNotFound(id)),
        }
    }

    /// Switch editing mode for a session
    pub fn switch_mode(&mut self, id: Uuid, mode: EditorMode) -> (r: Result<(), EditorError>)
        ensures
            on_session(
                old(self).views(),
                final(self).views(),
                id,
                r,
                |v: SessionView| (SessionView { state: StateView { mode, ..v.state }, ..v }, ()),
            ),
    {
        match self.find(&id) {
            Some(i) => {
                let mut s = self.take(i);
                s.state.switch_mode(mode);
                s.touch();
                self.put_back(i, s);
                let ghost v = old(self).views()[i as int];
                assert(self.views() =~= old(self).views().update(
                    i as int,
                    SessionView { state: StateView { mode, ..v.state }, ..v },
                ));
                Ok(())
            },
            None => Err(EditorError::SessionNotFound(id)),
        }
    }

    /// Mark a session's content as saved, once it has been written.
    pub fn mark_saved(&mut self, id: Uuid) -> (r: Result<(), EditorError>)
        ensures
            on_session(
                old(self).views(),
                final(self).views(),
                id,
                r,
                |v: SessionView| (SessionView { state: saved(v.state), ..v }, ()),
            ),
    {
        match self.find(&id) {
            Some(i) => {
                let mut s = self.take(i);
                s.state.mark_saved();
                s.touch();
                self.put_back(i, s);
                let ghost v = old(self).views()[i as int];
                assert(self.views() =~= old(self).views().update(
                    i as int,
                    SessionView { state: saved(v.state), ..v },
                ));
                Ok(())
            },
            None => Err(EditorError::SessionNotFound(id)),
        }
    }

    /// Set auto-save for a session
    pub fn set_auto_save(&mut self, id: Uuid, enabled: bool) -> (r: Result<(), EditorError>)
        ensures
            match index_of(old(self).views(), id) {
                Some(i) => r is Ok && final(self).views().len() == old(self).views().len() && final(self).views() == old(self).views().update(i, final(self).views()[i])
                    && final(self).views()[i].auto_save.enabled == enabled
                    && final(self).views()[i].state.auto_save == enabled,
                None => final(self).views() == old(self).views() && (r matches Err(EditorError::SessionNotFound(x)) && x == id),
            },
    {
        match self.find(&id) {
            Some(i) => {
                let mut s = self.take(i);
                s.set_auto_save(enabled);
                self.put_back(i, s);
                assert(self.views() =~= old(self).views().update(i as int, self.views()[i as int]));
                Ok(())
            },
            None => Err(EditorError::SessionNotFound(id)),
        }
    }

    /// Set the conflict resolution strategy of a session
    pub fn set_conflict_strategy(&mut self, id: Uuid, strategy: ConflictResolutionStrategy) -> (r: Result<(), EditorError>)
        ensures
            on_session(
                old(self).views(),
                final(self).views(),
                id,
                r,
                |v: SessionView| (SessionView { strategy, ..v }, ()),
            ),
    {
        match self.find(&id) {
            Some(i) => {
                let mut s = self.take(i);
                s.conflict_strategy = strategy;
                s.touch();
                self.put_back(i, s);
                let ghost v = old(self).views()[i as int];
                assert(self.views() =~= old(self).views().update(i as int, SessionView { strategy, ..v }));
                Ok(())
            },
            None => Err(EditorError::SessionNotFound(id)),
        }
    }

    /// Turn the monitoring of external changes of a session on or off
    pub fn set_external_monitoring(&mut self, id: Uuid, enabled: bool) -> (r: Result<(), EditorError>)
        ensures
            on_session(
                old(self).views(),
                final(self).views(),
                id,
                r,
                |v: SessionView| (SessionView { monitor: enabled, ..v }, ()),
            ),
    {
        match self.find(&id) {
            Some(i) => {
                let mut s = self.take(i);
                s.monitor_external_changes = enabled;
                s.touch();
                self.put_back(i, s);
                let ghost v = old(self).views()[i as int];
                assert(self.views() =~= old(self).views().update(i as int, SessionView { monitor: enabled, ..v }));
                Ok(())
            },
            None => Err(EditorError::SessionNotFound(id)),
        }
    }

    /// Handle space key press for a session
    pub fn handle_space_key(&mut self, id: Uuid, cursor_position: CursorPosition) -> (r: Result<bool, EditorError>)
        ensures
            on_session(
                old(self).views(),
                final(self).views(),
                id,
                r,
                |v: SessionView| {
                    let o = space_outcome(v.detector);
                    (SessionView { detector: o.0, ..v }, o.1)
                },
            ),
    {
        match self.find(&id) {
            Some(i) => {
                let mut s = self.take(i);
                let b = s.handle_space_key(cursor_position);
                s.touch();
                self.put_back(i, s);
                let ghost v = old(self).views()[i as int];
                assert(self.views() =~= old(self).views().update(
                    i as int,
                    SessionView { detector: space_outcome(v.detector).0, ..v },
                ));
                Ok(b)
            },
            None => Err(EditorError::SessionNotFound(id)),
        }
    }

    /// Clear trigger events for a session
    pub fn clear_trigger_events(&mut self, id: Uuid) -> (r: Result<(), EditorError>)
        ensures
            on_session(
                old(self).views(),
                final(self).views(),
                id,
                r,
                |v: SessionView| (SessionView { detector: drained(v.detector), ..v }, ()),
            ),
    {
        match self.find(&id) {
            Some(i) => {
                let mut s = self.take(i);
                s.clear_trigger_events();
                self.put_back(i, s);
                let ghost v = old(self).views()[i as int];
                assert(self.views() =~= old(self).views().update(
                    i as int,
                    SessionView { detector: drained(v.detector), ..v },
                ));
                Ok(())
            },
            None => Err(EditorError::SessionNotFound(id)),
        }
    }

    /// Force render trigger for a session: it fires when events are
    /// pending, and then nothing is pending.
    pub fn force_render_trigger(&mut self, id: Uuid) -> (r: Result<bool, EditorError>)
        ensures
            on_session(
                old(self).views(),
                final(self).views(),
                id,
                r,
                |v: SessionView| if v.detector.pending.len() > 0 {
                    (SessionView { detector: drained(v.detector), ..v }, true)
                } else {
                    (v, false)
                },
            ),
    {
        match self.find(&id) {
            Some(i) => {
                let mut s = self.take(i);
                let b = s.force_render_trigger();
                s.touch();
                self.put_back(i, s);
                let ghost v = old(self).views()[i as int];
                proof {
                    if v.detector.pending.len() > 0 {
                        assert(self.views() =~= old(self).views().update(
                            i as int,
                            SessionView { detector: drained(v.detector), ..v },
                        ));
                    } else {
                        assert(self.views() =~= old(self).views().update(i as int, v));
                    }
                }
                Ok(b)
            },
            None => Err(EditorError::SessionNotFound(id)),
        }
    }

    /// Update render trigger configuration for a session
    pub fn update_trigger_config(&mut self, id: Uuid, config: TriggerConfig) -> (r: Result<(), EditorError>)
        ensures
            on_session(
                old(self).views(),
                final(self).views(),
                id,
                r,
                |v: SessionView| (SessionView { detector: DetectorView { config, ..v.detector }, ..v }, ()),
            ),
    {
        match self.find(&id) {
            Some(i) => {
                let mut s = self.take(i);
                s.update_trigger_config(config);
                s.touch();
                self.put_back(i, s);
                let ghost v = old(self).views()[i as int];
                assert(self.views() =~= old(self).views().update(
                    i as int,
                    SessionView { detector: DetectorView { config, ..v.detector }, ..v },
                ));
                Ok(())
            },
            None => Err(EditorError::SessionNotFound(id)),
        }
    }

    /// Get pending trigger events for a session
    pub fn get_pending_trigger_events(&self, id: Uuid) -> (r: Result<&[TriggerEvent], EditorError>)
        ensures
            match index_of(self.views(), id) {
                Some(i) => r matches Ok(es) && event_views(es@) == self.views()[i].detector.pending,
                None => r matches Err(EditorError::SessionNotFound(x)) && x == id,
            },
    {
        match self.find(&id) {
            Some(i) => Ok(self.sessions[i].get_pending_trigger_events()),
            None => Err(EditorError::SessionNotFound(id)),
        }
    }

    /// Get auto-save status for a session
    pub fn get_auto_save_status(&self, id: Uuid) -> (r: Result<AutoSaveStatus, EditorError>)
        ensures
            match index_of(self.views(), id) {
                Some(i) => r matches Ok(st) && st.enabled == self.views()[i].auto_save.enabled
                    && st.is_dirty == self.views()[i].state.dirty && st.pending_save
                    == self.views()[i].state.timer_running,
                None => r matches Err(EditorError::SessionNotFound(x)) && x == id,
            },
    {
        match self.find(&id) {
            Some(i) => Ok(self.sessions[i].auto_save_status()),
            None => Err(EditorError::SessionNotFound(id)),
        }
    }

    /// Process content with live rendering integration
    pub fn process_live_content(&mut self, id: Uuid, trigger_events: &[TriggerEvent]) -> (r: Result<
        LiveEditorResult,
        EditorError,
    >)
        requires
            forall|k: int|
                0 <= k < old(self).views().len() ==> live_cuts_ok(
                    #[trigger] old(self).views()[k].state.content,
                ),
        ensures
            match index_of(old(self).views(), id) {
                Some(i) => r is Ok && final(self).views() == old(self).views().update(
                    i,
                    SessionView {
                        live: processed(
                            old(self).views()[i].live,
                            old(self).views()[i].state.content,
                            old(self).views()[i].state.cursor,
                            event_views(trigger_events@),
                        ),
                        ..old(self).views()[i]
                    },
                ),
                None => final(self).views() == old(self).views() && (r matches Err(EditorError::SessionNotFound(x)) && x == id),
            },
    {
        match self.find(&id) {
            Some(i) => {
                let mut s = self.take(i);
                let result = s.process_live_content(trigger_events);
                self.put_back(i, s);
                assert(self.views() =~= old(self).views().update(i as int, self.views()[i as int]));
                Ok(result)
            },
            None => Err(EditorError::SessionNotFound(id)),
        }
    }

    /// Switch the mode of the session with the id `id`, keeping its cursor
    /// where the switch places it when that position fits the content.
    pub fn handle_mode_switch(&mut self, id: Uuid, from_mode: EditorMode, to_mode: EditorMode) -> (r:
        Result<ModeSwitchResult, EditorError>)
        requires
            forall|k: int|
                0 <= k < old(self).views().len() ==> switch_defined(
                    #[trigger] old(self).views()[k].live.manager,
                    from_mode,
                    to_mode,
                ),
        ensures
            match index_of(old(self).views(), id) {
                Some(i) => (r matches Ok(res) && res.needs_rerender == (from_mode != to_mode)
                    && final(self).views().len() == old(self).views().len()
                    && final(self).views() == old(self).views().update(i, final(self).views()[i])
                    && final(self).views()[i].state == (StateView {
                    mode: to_mode,
                    cursor: if spec_valid_for(
                        res.preserved_cursor_position,
                        old(self).views()[i].state.content,
                    ) {
                        res.preserved_cursor_position
                    } else {
                        old(self).views()[i].state.cursor
                    },
                    ..old(self).views()[i].state
                })),
                None => final(self).views() == old(self).views() && (r matches Err(
                    EditorError::SessionNotFound(x),
                ) && x == id),
            },
    {
        match self.find(&id) {
            Some(i) => {
                let mut s = self.take(i);
                assert(old(self).views()[i as int] == s@);
                let result = s.switch_mode_with_cursor(from_mode, to_mode);
                self.put_back(i, s);
                assert(self.views() =~= old(self).views().update(i as int, self.views()[i as int]));
                Ok(result)
            },
            None => Err(EditorError::SessionNotFound(id)),
        }
    }

    /// Update the content of the active element of the session with the id
    /// `id`; true when it had one, which is then changed.
    pub fn update_active_element_content(&mut self, id: Uuid, new_content: String) -> (r: Result<
        bool,
        EditorError,
    >)
        ensures
            match index_of(old(self).views(), id) {
                Some(i) => {
                    let v = old(self).views()[i];
                    let b = crate::live_editor::opt_view_at(v.live.elements, v.live.active) is Some;
                    &&& r matches Ok(x) && x == b
                    &&& !b ==> final(self).views() == old(self).views()
                    &&& b ==> final(self).views() == old(self).views().update(
                        i,
                        SessionView {
                            live: LiveView {
                                elements: v.live.elements.update(
                                    v.live.active->0 as int,
                                    ElementView { raw: new_content@, ..v.live.elements[v.live.active->0 as int] },
                                ),
                                ..v.live
                            },
                            state: content_updated(v.state, v.state.content),
                            ..v
                        },
                    )
                },
                None => final(self).views() == old(self).views() && (r matches Err(
                    EditorError::SessionNotFound(x),
                ) && x == id),
            },
    {
        match self.find(&id) {
            Some(i) => {
                let mut s = self.take(i);
                let updated = s.update_active_element(new_content.as_str());
                self.put_back(i, s);
                assert(self.views() =~= old(self).views().update(i as int, self.views()[i as int]));
                if !updated {
                    assert(self.views() =~= old(self).views());
                }
                Ok(updated)
            },
            None => Err(EditorError::SessionNotFound(id)),
        }
    }

    /// Handle click-to-edit functionality
    pub fn handle_click_to_edit(&mut self, id: Uuid, click_position: usize) -> (r: Result<
        ClickToEditResult,
        EditorError,
    >)
        ensures
            match index_of(old(self).views(), id) {
                Some(i) => (r matches Ok(c) && c@ == click_report(old(self).views()[i].live, click_position as int))
                    && final(self).views() == old(self).views().update(
                    i,
                    SessionView { live: clicked(old(self).views()[i].live, click_position as int), ..old(self).views()[i] },
                ),
                None => final(self).views() == old(self).views() && (r matches Err(EditorError::SessionNotFound(x)) && x == id),
            },
    {
        match self.find(&id) {
            Some(i) => {
                let mut s = self.take(i);
                let result = s.click_to_edit(click_position);
                self.put_back(i, s);
                assert(self.views() =~= old(self).views().update(i as int, self.views()[i as int]));
                Ok(result)
            },
            None => Err(EditorError::SessionNotFound(id)),
        }
    }

    /// Check which sessions should render now (debounced): the clock
    /// decides which, but only sessions with pending events fire; each that
    /// fires has its pending events drained and is listed, in order.
    pub fn check_render_triggers(&mut self) -> (r: Vec<Uuid>)
        ensures
            final(self).views().len() == old(self).views().len(),
            forall|k: int|
                0 <= k < old(self).views().len() ==> #[trigger] final(self).views()[k] == old(self).views()[k] || (old(self).views()[k].detector.pending.len() > 0 && final(self).views()[k] == render_fired(old(self).views()[k])),
            r@ == fired_ids(old(self).views(), final(self).views()),
    {
        let ghost before_all = self.views();
        let mut r: Vec<Uuid> = Vec::new();
        let mut i: usize = 0;
        while i < self.sessions.len()
            invariant
                i <= self.sessions@.len(),
                before_all == old(self).views(),
                self.sessions@.len() == before_all.len(),
                forall|k: int|
                    0 <= k < self.sessions@.len() ==> #[trigger] self.views()[k] == before_all[k] || (
                    k < i && before_all[k].detector.pending.len() > 0 && self.views()[k]
                        == render_fired(before_all[k])),
                r@ == fired_ids(before_all.take(i as int), self.views().take(i as int)),
            decreases self.sessions@.len() - i,
        {
            let ghost before = self.views();
            let mut s = self.take(i);
            let fired = s.should_trigger_render();
            let sid = s.id;
            self.put_back(i, s);
            assert(self.views() =~= before.update(i as int, self.views()[i as int]));
            assert(before[i as int] == before_all[i as int]);
            proof {
                let a = before_all.take(i + 1);
                let b = self.views().take(i + 1);
                assert(a.drop_last() =~= before_all.take(i as int));
                assert(b.drop_last() =~= self.views().take(i as int));
                assert(before.take(i as int) =~= self.views().take(i as int));
                if fired {
                    assert(self.views()[i as int] != before_all[i as int]) by {
                        assert(self.views()[i as int].detector.pending.len() == 0);
                    }
                }
            }
            if fired {
                r.push(sid);
            }
            i += 1;
        }
        assert(before_all.take(i as int) =~= before_all);
        assert(self.views().take(i as int) =~= self.views());
        r
    }

    /// The sessions due for an auto-save now: the clock decides, but only
    /// sessions with auto-save on and unsaved changes are ever listed.
    pub fn sessions_to_auto_save(&self) -> (r: Vec<Uuid>)
        ensures
            forall|j: int| 0 <= j < r@.len() ==> #[trigger] may_auto_save(self.views(), r@[j]),
    {
        let mut r: Vec<Uuid> = Vec::new();
        let mut i: usize = 0;
        while i < self.sessions.len()
            invariant
                i <= self.sessions@.len(),
                forall|j: int| 0 <= j < r@.len() ==> #[trigger] may_auto_save(self.views(), r@[j]),
            decreases self.sessions@.len() - i,
        {
            if self.sessions[i].should_auto_save() {
                assert(self.views()[i as int] == self.sessions@[i as int]@);
                r.push(self.sessions[i].id);
            }
            i += 1;
        }
        r
    }

    /// The sessions a cleanup with a limit of `max_idle_minutes` closes:
    /// the clock decides, but a session with unsaved changes is never
    /// listed.
    pub fn idle_sessions(&self, max_idle_minutes: u64) -> (r: Vec<Uuid>)
        ensures
            forall|j: int| 0 <= j < r@.len() ==> #[trigger] clean_session(self.views(), r@[j]),
    {
        let mut r: Vec<Uuid> = Vec::new();
        let mut i: usize = 0;
        while i < self.sessions.len()
            invariant
                i <= self.sessions@.len(),
                forall|j: int| 0 <= j < r@.len() ==> #[trigger] clean_session(self.views(), r@[j]),
            decreases self.sessions@.len() - i,
        {
            if self.sessions[i].is_idle_beyond(max_idle_minutes) {
                assert(self.views()[i as int] == self.sessions@[i as int]@);
                r.push(self.sessions[i].id);
            }
            i += 1;
        }
        r
    }

    /// Handle an external change of a session's file with the session's
    /// conflict strategy; a successful resolution becomes its content.
    pub fn handle_external_change(&mut self, id: Uuid, external_content: &str) -> (r: Result<
        ExternalChangeOutcome,
        EditorError,
    >)
        ensures
            match index_of(old(self).views(), id) {
                Some(i) => {
                    let v = old(self).views()[i];
                    r matches Ok(o) && o.resolution@ == spec_resolve(v.state.content, external_content@, v.strategy)
                        && final(self).views().len() == old(self).views().len()
                        && final(self).views() == old(self).views().update(i, final(self).views()[i])
                        && (o.resolution@.success ==> final(self).views()[i] == content_set(v, o.resolution@.content).0)
                        && (!(o.resolution@.success)
                        ==> final(self).views()[i] == v)
                },
                None => final(self).views() == old(self).views() && (r matches Err(EditorError::SessionNotFound(x)) && x == id),
            },
    {
        match self.find(&id) {
            Some(i) => {
                let mut s = self.take(i);
                let o = s.apply_external_change(external_content);
                self.put_back(i, s);
                assert(self.views() =~= old(self).views().update(i as int, self.views()[i as int]));
                Ok(o)
            },
            None => Err(EditorError::SessionNotFound(id)),
        }
    }
}

} // verus!
