//! Render trigger detection for live markdown editing: events queue up,
//! and a render is due once the debounce delay has passed since the last
//! one.
use vstd::prelude::*;

use std::time::Instant;

use crate::clock::{as_millis, duration_since, instant_now};

use crate::editor_state::CursorPosition;
use crate::syntax_parser::{views, ElementKind, ElementView, SyntaxElement, SyntaxElementType};
use crate::text::{chars_of, owned};

verus! {

broadcast use vstd::string::group_string_axioms;

/// Types of events that can trigger rendering
#[derive(Debug, PartialEq, Eq)]
pub enum TriggerEvent {
    /// Space key was pressed
    SpaceKey,
    /// Cursor moved to a different position
    CursorMovement { from: CursorPosition, to: CursorPosition },
    /// Block element was completed (header, list item, etc.)
    BlockElementCompleted { element_type: SyntaxElementType, position: usize },
    /// Content changed significantly
    ContentChange { change_start: usize, change_end: usize },
}

/// What a `TriggerEvent` says.
pub enum TriggerKind {
    SpaceKey,
    CursorMovement { from: CursorPosition, to: CursorPosition },
    BlockElementCompleted { element_type: ElementKind, position: usize },
    ContentChange { change_start: usize, change_end: usize },
}

impl View for TriggerEvent {
    type V = TriggerKind;

    open spec fn view(&self) -> TriggerKind {
        match self {
            TriggerEvent::SpaceKey => TriggerKind::SpaceKey,
            TriggerEvent::CursorMovement { from, to } => TriggerKind::CursorMovement {
                from: *from,
                to: *to,
            },
            TriggerEvent::BlockElementCompleted { element_type, position } =>
                TriggerKind::BlockElementCompleted { element_type: element_type@, position: *position },
            TriggerEvent::ContentChange { change_start, change_end } => TriggerKind::ContentChange {
                change_start: *change_start,
                change_end: *change_end,
            },
        }
    }
}

impl Clone for TriggerEvent {
    fn clone(&self) -> (r: Self)
        ensures
            r@ == self@,
    {
        match self {
            TriggerEvent::SpaceKey => TriggerEvent::SpaceKey,
            TriggerEvent::CursorMovement { from, to } => TriggerEvent::CursorMovement {
                from: *from,
                to: *to,
            },
            TriggerEvent::BlockElementCompleted { element_type, position } =>
                TriggerEvent::BlockElementCompleted {
                element_type: element_type.clone(),
                position: *position,
            },
            TriggerEvent::ContentChange { change_start, change_end } => TriggerEvent::ContentChange {
                change_start: *change_start,
                change_end: *change_end,
            },
        }
    }
}

pub open spec fn event_views(s: Seq<TriggerEvent>) -> Seq<TriggerKind> {
    s.map_values(|e: TriggerEvent| e@)
}

/// Configuration for render trigger detection
#[derive(Debug, Clone, Copy, PartialEq, Eq, Structural)]
pub struct TriggerConfig {
    /// Debounce delay in milliseconds
    pub debounce_delay_ms: u64,
    /// Whether to trigger on space key
    pub trigger_on_space: bool,
    /// Whether to trigger on cursor movement
    pub trigger_on_cursor_movement: bool,
    /// Whether to trigger on block element completion
    pub trigger_on_block_completion: bool,
    /// Minimum cursor movement distance to trigger
    pub min_cursor_movement_distance: usize,
}

/// The default configuration: a 150 ms debounce, every trigger on, and a
/// movement of one position enough.
pub open spec fn default_config() -> TriggerConfig {
    TriggerConfig {
        debounce_delay_ms: 150,
        trigger_on_space: true,
        trigger_on_cursor_movement: true,
        trigger_on_block_completion: true,
        min_cursor_movement_distance: 1,
    }
}

impl Default for TriggerConfig {
    fn default() -> (c: Self)
        ensures
            c == default_config(),
    {
        Self {
            debounce_delay_ms: 150,
            trigger_on_space: true,
            trigger_on_cursor_movement: true,
            trigger_on_block_completion: true,
            min_cursor_movement_distance: 1,
        }
    }
}

/// State for debounced rendering
#[derive(Debug)]
struct DebounceState {
    last_trigger_time: Option<Instant>,
    pending_events: Vec<TriggerEvent>,
    is_render_scheduled: bool,
}

/// Render trigger detection system
#[derive(Debug)]
pub struct RenderTriggerDetector {
    config: TriggerConfig,
    debounce_state: DebounceState,
    last_cursor_position: Option<CursorPosition>,
    last_content: String,
}

/// What a `RenderTriggerDetector` holds; of the last trigger time only
/// whether there is one.
#[verifier::ext_equal]
pub struct DetectorView {
    pub config: TriggerConfig,
    pub pending: Seq<TriggerKind>,
    pub scheduled: bool,
    pub has_trigger_time: bool,
    pub last_cursor: Option<CursorPosition>,
    pub last_content: Seq<char>,
}

impl View for RenderTriggerDetector {
    type V = DetectorView;

    closed spec fn view(&self) -> DetectorView {
        DetectorView {
            config: self.config,
            pending: event_views(self.debounce_state.pending_events@),
            scheduled: self.debounce_state.is_render_scheduled,
            has_trigger_time: self.debounce_state.last_trigger_time is Some,
            last_cursor: self.last_cursor_position,
            last_content: self.last_content@,
        }
    }
}

/// The detector after an event joins the queue: the trigger time is set,
/// and a render becomes scheduled.
pub open spec fn with_event(d: DetectorView, e: TriggerKind) -> DetectorView {
    DetectorView { pending: d.pending.push(e), scheduled: true, has_trigger_time: true, ..d }
}

/// The detector with its queue emptied and no render scheduled.
pub open spec fn drained(d: DetectorView) -> DetectorView {
    DetectorView { pending: seq![], scheduled: false, ..d }
}

/// A render fires once for what is pending: after it fires nothing is
/// pending or scheduled, so the next check does not fire until a new event
/// comes, and the configuration and what the detector last saw are kept.
pub proof fn lemma_render_fires_once(d: DetectorView)
    ensures
        drained(d).pending.len() == 0,
        !drained(d).scheduled,
        drained(d).config == d.config,
        drained(d).last_cursor == d.last_cursor,
        drained(d).last_content == d.last_content,
        drained(drained(d)) == drained(d),
{
}

/// The detector after the space key, and whether a render got scheduled:
/// with the trigger on, a space event joins the queue.
pub open spec fn space_outcome(d: DetectorView) -> (DetectorView, bool) {
    if d.config.trigger_on_space {
        (with_event(d, TriggerKind::SpaceKey), !d.scheduled)
    } else {
        (d, false)
    }
}

/// The detector after the cursor moved to `p`, and whether a render got
/// scheduled: the first position is only remembered; a later one far
/// enough from the remembered one is remembered and queues a movement.
pub open spec fn movement_outcome(d: DetectorView, p: CursorPosition) -> (DetectorView, bool) {
    if !d.config.trigger_on_cursor_movement {
        (d, false)
    } else {
        match d.last_cursor {
            None => (DetectorView { last_cursor: Some(p), ..d }, false),
            Some(last) => if cursor_distance(last, p) >= d.config.min_cursor_movement_distance {
                (
                    with_event(
                        DetectorView { last_cursor: Some(p), ..d },
                        TriggerKind::CursorMovement { from: last, to: p },
                    ),
                    !d.scheduled,
                )
            } else {
                (d, false)
            },
        }
    }
}

/// The detector after a check for a completed block element, and whether a
/// render got scheduled.
pub open spec fn block_outcome(
    d: DetectorView,
    s: Seq<char>,
    cursor: int,
    es: Seq<ElementView>,
) -> (DetectorView, bool) {
    if !d.config.trigger_on_block_completion {
        (d, false)
    } else {
        match first_completed(s, cursor, es) {
            None => (d, false),
            Some(i) => (
                with_event(
                    d,
                    TriggerKind::BlockElementCompleted {
                        element_type: es[i].kind,
                        position: cursor as usize,
                    },
                ),
                !d.scheduled,
            ),
        }
    }
}

/// The detector after a content change, and whether a render got
/// scheduled: the content is kept and a change event always joins the
/// queue.
pub open spec fn change_outcome(d: DetectorView, s: Seq<char>, start: usize, end: usize) -> (
    DetectorView,
    bool,
) {
    (
        with_event(
            DetectorView { last_content: s, ..d },
            TriggerKind::ContentChange { change_start: start, change_end: end },
        ),
        !d.scheduled,
    )
}

/// Distance between two cursor positions: the difference of their
/// absolute positions.
pub open spec fn cursor_distance(a: CursorPosition, b: CursorPosition) -> int {
    if a.absolute >= b.absolute {
        a.absolute - b.absolute
    } else {
        b.absolute - a.absolute
    }
}

/// Headers and list items are block elements.
pub open spec fn is_block_kind(k: ElementKind) -> bool {
    ||| k is Header
    ||| k is UnorderedListItem
    ||| k is OrderedListItem
}

/// The cursor is within the element or one past its end, at a line
/// boundary: the end of the content, or next to a newline.
pub open spec fn at_block_end(s: Seq<char>, cursor: int, e: ElementView) -> bool {
    &&& e.start <= cursor <= e.end + 1
    &&& {
        ||| cursor >= s.len()
        ||| (cursor > 0 && s[cursor - 1] == '\n')
        ||| s[cursor] == '\n'
    }
}

/// Index of the first block element that the cursor completes.
pub open spec fn first_completed(s: Seq<char>, cursor: int, es: Seq<ElementView>) -> Option<int>
    decreases es.len(),
{
    if es.len() == 0 {
        None
    } else {
        match first_completed(s, cursor, es.drop_last()) {
            Some(i) => Some(i),
            None => if is_block_kind(es.last().kind) && at_block_end(s, cursor, es.last()) {
                Some(es.len() - 1)
            } else {
                None
            },
        }
    }
}

proof fn lemma_first_completed(s: Seq<char>, cursor: int, es: Seq<ElementView>)
    ensures
        first_completed(s, cursor, es) matches Some(i) ==> 0 <= i < es.len(),
    decreases es.len(),
{
    if es.len() > 0 {
        lemma_first_completed(s, cursor, es.drop_last());
    }
}

proof fn lemma_first_completed_at(s: Seq<char>, cursor: int, es: Seq<ElementView>, i: int)
    requires
        0 <= i < es.len(),
        first_completed(s, cursor, es.take(i)) is None,
        is_block_kind(es[i].kind) && at_block_end(s, cursor, es[i]),
    ensures
        first_completed(s, cursor, es) == Some(i),
    decreases es.len(),
{
    if es.len() == i + 1 {
        assert(es.take(i) =~= es.drop_last());
    } else {
        assert(es.drop_last().take(i) =~= es.take(i));
        lemma_first_completed_at(s, cursor, es.drop_last(), i);
    }
}

impl RenderTriggerDetector {
    /// Create a new render trigger detector
    pub fn new(config: TriggerConfig) -> (d: Self)
        ensures
            d@ == (DetectorView {
                config,
                pending: seq![],
                scheduled: false,
                has_trigger_time: false,
                last_cursor: None,
                last_content: seq![],
            }),
    {
        let d = Self {
            config,
            debounce_state: DebounceState {
                last_trigger_time: None,
                pending_events: Vec::new(),
                is_render_scheduled: false,
            },
            last_cursor_position: None,
            last_content: String::new(),
        };
        assert(d@.pending =~= Seq::<TriggerKind>::empty());
        d
    }

    /// Create with default configuration
    pub fn with_defaults() -> (d: Self)
        ensures
            d@ == (DetectorView {
                config: default_config(),
                pending: seq![],
                scheduled: false,
                has_trigger_time: false,
                last_cursor: None,
                last_content: seq![],
            }),
    {
        Self::new(TriggerConfig::default())
    }

    /// Update configuration
    pub fn update_config(&mut self, config: TriggerConfig)
        ensures
            final(self)@ == (DetectorView { config, ..old(self)@ }),
    {
        self.config = config;
    }

    /// Queues an event and stamps the trigger time; true when this event
    /// scheduled a render.
    fn add_trigger_event(&mut self, event: TriggerEvent) -> (b: bool)
        ensures
            final(self)@ == with_event(old(self)@, event@),
            b == !old(self)@.scheduled,
    {
        let now = instant_now();
        let ghost before = self.debounce_state.pending_events@;
        self.debounce_state.pending_events.push(event);
        assert(event_views(self.debounce_state.pending_events@) =~= event_views(before).push(
            event@,
        ));
        self.debounce_state.last_trigger_time = Some(now);
        if !self.debounce_state.is_render_scheduled {
            self.debounce_state.is_render_scheduled = true;
            return true;
        }
        false
    }

    /// Detect space key trigger
    pub fn detect_space_key(&mut self, _cursor_position: CursorPosition) -> (b: bool)
        ensures
            (final(self)@, b) == space_outcome(old(self)@),
    {
        if !self.config.trigger_on_space {
            return false;
        }
        self.add_trigger_event(TriggerEvent::SpaceKey)
    }

    /// Detect cursor movement trigger. The first position is only
    /// remembered; later ones queue a movement when they are far enough
    /// from the last remembered one.
    pub fn detect_cursor_movement(&mut self, new_position: CursorPosition) -> (b: bool)
        ensures
            (final(self)@, b) == movement_outcome(old(self)@, new_position),
    {
        if !self.config.trigger_on_cursor_movement {
            return false;
        }
        match self.last_cursor_position {
            Some(last_pos) => {
                let distance = self.calculate_cursor_distance(&last_pos, &new_position);
                if distance >= self.config.min_cursor_movement_distance {
                    let event = TriggerEvent::CursorMovement { from: last_pos, to: new_position };
                    self.last_cursor_position = Some(new_position);
                    return self.add_trigger_event(event);
                }
            },
            None => {
                self.last_cursor_position = Some(new_position);
            },
        }
        false
    }

    /// Detect block element completion: the first header or list item
    /// whose end the cursor stands at.
    pub fn detect_block_completion(
        &mut self,
        content: &str,
        cursor_position: CursorPosition,
        syntax_elements: &[SyntaxElement],
    ) -> (b: bool)
        ensures
            (final(self)@, b) == block_outcome(
                old(self)@,
                content@,
                cursor_position.absolute as int,
                views(syntax_elements@),
            ),
    {
        if !self.config.trigger_on_block_completion {
            return false;
        }
        proof {
            lemma_first_completed(content@, cursor_position.absolute as int, views(syntax_elements@));
        }
        match self.find_completed_block_element(content, cursor_position.absolute, syntax_elements) {
            Some(i) => {
                let event = TriggerEvent::BlockElementCompleted {
                    element_type: syntax_elements[i].element_type.clone(),
                    position: cursor_position.absolute,
                };
                assert(views(syntax_elements@)[i as int] == syntax_elements@[i as int]@);
                self.add_trigger_event(event)
            },
            None => false,
        }
    }

    /// Detect content changes that should trigger rendering
    pub fn detect_content_change(
        &mut self,
        new_content: &str,
        change_start: usize,
        change_end: usize,
    ) -> (b: bool)
        ensures
            (final(self)@, b) == change_outcome(old(self)@, new_content@, change_start, change_end),
    {
        let event = TriggerEvent::ContentChange { change_start, change_end };
        self.last_content = owned(new_content);
        self.add_trigger_event(event)
    }

    /// Check if rendering should be triggered (debounced): with events
    /// pending, once the debounce delay has passed since the last trigger.
    /// The clock decides; whatever it says, a render empties the queue and
    /// otherwise nothing changes. With no delay configured nothing waits.
    pub fn should_trigger_render(&mut self) -> (b: bool)
        ensures
            old(self)@.pending.len() == 0 ==> !b,
            !old(self)@.has_trigger_time ==> !b,
            old(self)@.config.debounce_delay_ms == 0 ==> b == (old(self)@.pending.len() > 0
                && old(self)@.has_trigger_time),
            b ==> final(self)@ == drained(old(self)@),
            !b ==> final(self)@ == old(self)@,
    {
        let now = instant_now();
        if self.debounce_state.pending_events.len() == 0 {
            return false;
        }
        let elapsed = match &self.debounce_state.last_trigger_time {
            Some(last_trigger) => Some(as_millis(&duration_since(&now, last_trigger))),
            None => None,
        };
        self.trigger_after(elapsed)
    }

    /// The debounce decision, given the milliseconds since the last trigger
    /// (`None` when there was none): with events pending and at least the
    /// configured delay elapsed, the queue is emptied and a render is due.
    pub fn trigger_after(&mut self, elapsed_ms: Option<u128>) -> (b: bool)
        ensures
            b == (old(self)@.pending.len() > 0 && match elapsed_ms {
                Some(e) => e >= old(self)@.config.debounce_delay_ms,
                None => false,
            }),
            b ==> final(self)@ == drained(old(self)@),
            !b ==> final(self)@ == old(self)@,
    {
        if self.debounce_state.pending_events.len() == 0 {
            return false;
        }
        match elapsed_ms {
            Some(e) => {
                if e >= self.config.debounce_delay_ms as u128 {
                    self.debounce_state.pending_events.clear();
                    self.debounce_state.is_render_scheduled = false;
                    assert(self@ =~= drained(old(self)@));
                    true
                } else {
                    false
                }
            },
            None => false,
        }
    }

    /// Get pending trigger events
    pub fn get_pending_events(&self) -> (r: &[TriggerEvent])
        ensures
            event_views(r@) == self@.pending,
    {
        self.debounce_state.pending_events.as_slice()
    }

    /// Clear all pending events
    pub fn clear_pending_events(&mut self)
        ensures
            final(self)@ == drained(old(self)@),
    {
        self.debounce_state.pending_events.clear();
        self.debounce_state.is_render_scheduled = false;
        assert(self@ =~= drained(old(self)@));
    }

    /// Force immediate render trigger: true, with the queue emptied, when
    /// events were pending.
    pub fn force_trigger(&mut self) -> (b: bool)
        ensures
            b == (old(self)@.pending.len() > 0),
            b ==> final(self)@ == drained(old(self)@),
            !b ==> final(self)@ == old(self)@,
    {
        if self.debounce_state.pending_events.len() > 0 {
            self.debounce_state.pending_events.clear();
            self.debounce_state.is_render_scheduled = false;
            assert(self@ =~= drained(old(self)@));
            return true;
        }
        false
    }

    /// Distance between cursor positions
    pub fn calculate_cursor_distance(&self, from: &CursorPosition, to: &CursorPosition) -> (d:
        usize)
        ensures
            d == cursor_distance(*from, *to),
    {
        if from.absolute >= to.absolute {
            from.absolute - to.absolute
        } else {
            to.absolute - from.absolute
        }
    }

    /// Index of the first header or list item that the cursor completes.
    fn find_completed_block_element(
        &self,
        content: &str,
        cursor_position: usize,
        syntax_elements: &[SyntaxElement],
    ) -> (r: Option<usize>)
        ensures
            match r {
                Some(i) => first_completed(content@, cursor_position as int, views(syntax_elements@))
                    == Some(i as int),
                None => first_completed(content@, cursor_position as int, views(syntax_elements@))
                    is None,
            },
    {
        let chars = chars_of(content);
        let ghost es = views(syntax_elements@);
        let mut i: usize = 0;
        while i < syntax_elements.len()
            invariant
                i <= syntax_elements@.len(),
                es == views(syntax_elements@),
                chars@ == content@,
                first_completed(content@, cursor_position as int, es.take(i as int)) is None,
            decreases syntax_elements@.len() - i,
        {
            let element = &syntax_elements[i];
            assert(es[i as int] == element@);
            let is_block = match &element.element_type {
                SyntaxElementType::Header { .. } => true,
                SyntaxElementType::UnorderedListItem { .. } => true,
                SyntaxElementType::OrderedListItem { .. } => true,
                _ => false,
            };
            if is_block && self.is_cursor_at_block_end(&chars, cursor_position, element) {
                proof {
                    lemma_first_completed_at(content@, cursor_position as int, es, i as int);
                }
                return Some(i);
            }
            assert(es.take(i + 1).drop_last() =~= es.take(i as int));
            i += 1;
        }
        assert(es.take(i as int) =~= es);
        None
    }

    /// Whether the cursor stands at the end of a block element.
    fn is_cursor_at_block_end(
        &self,
        chars: &Vec<char>,
        cursor_position: usize,
        element: &SyntaxElement,
    ) -> (b: bool)
        ensures
            b == at_block_end(chars@, cursor_position as int, element@),
    {
        if cursor_position < element.range.start || (cursor_position > element.range.end
            && cursor_position - element.range.end > 1) {
            return false;
        }
        if cursor_position >= chars.len() {
            return true;
        }
        if cursor_position > 0 && chars[cursor_position - 1] == '\n' {
            return true;
        }
        chars[cursor_position] == '\n'
    }
}

/// Trait for components that can respond to render triggers
pub trait RenderTriggerHandler {
    /// Handle a render trigger event
    fn handle_trigger(&mut self, events: &[TriggerEvent]) -> Result<(), String>;

    /// Check if the handler is ready to process triggers
    fn is_ready(&self) -> bool;
}

} // verus!
