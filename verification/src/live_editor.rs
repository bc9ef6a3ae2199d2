//! Live editing: syntax parsing, cursor-aware rendering and cursor mapping
//! joined together, and the mixed raw/rendered view of a document.
//! Positions and lengths are byte offsets, as `str` indices are; the text is
//! cut at element positions, which must then fall between characters.
use vstd::prelude::*;

use crate::cursor_manager::{
    built_elements, first_element_holding, first_raw_position, lemma_first_element_holding,
    mapping_of, min_int, mode_switch_outcome, raw_mapping_defined, rebuilt_view,
    rendered_mapping_defined, stats_of, updated_view, CursorManager, ManagerView, MappingStats,
};
use crate::editor_state::{CursorPosition, EditorMode};
use crate::inline_renderer::{
    clone_elements, editing_classes, rendered_views, spec_render_with_cursor, spec_to_html,
    InlineRenderer, MarkdownInlineRenderer, RenderedElement, RenderedView,
};
use crate::render_trigger::{event_views, TriggerEvent, TriggerKind};
use crate::syntax_parser::{
    first_containing, lemma_parse_text_within, spec_parse_document, views, within, ElementView,
    MarkdownSyntaxParser, SyntaxElement, SyntaxParser,
};
use crate::text::{
    byte_len, byte_offsets, byte_slice, byte_tail, chars_of, decimal, escape, html_escape,
    is_char_boundary_at, offsets_of, owned, push_decimal, push_escaped, push_escaped_bytes,
    push_escaped_tail, push_str,
};

verus! {

broadcast use vstd::string::group_string_axioms;

/// Live editor integration that manages the connection between syntax
/// parsing and rendering
#[derive(Debug)]
pub struct LiveEditorIntegration {
    /// Syntax parser for detecting markdown elements
    syntax_parser: MarkdownSyntaxParser,
    /// Inline renderer for converting syntax to HTML
    inline_renderer: MarkdownInlineRenderer,
    /// Cursor manager for position mapping
    cursor_manager: CursorManager,
    /// Current syntax elements
    pub current_elements: Vec<SyntaxElement>,
    /// Current rendered elements
    pub current_rendered: Vec<RenderedElement>,
    /// Element currently being edited (if any)
    pub active_element_index: Option<usize>,
}

/// What a `LiveEditorIntegration` holds.
#[verifier::ext_equal]
pub struct LiveView {
    /// The renderer's class prefix
    pub prefix: Seq<char>,
    pub manager: ManagerView,
    pub elements: Seq<ElementView>,
    pub rendered: Seq<RenderedView>,
    pub active: Option<usize>,
}

impl View for LiveEditorIntegration {
    type V = LiveView;

    closed spec fn view(&self) -> LiveView {
        LiveView {
            prefix: self.inline_renderer.class_prefix@,
            manager: self.cursor_manager@,
            elements: views(self.current_elements@),
            rendered: rendered_views(self.current_rendered@),
            active: self.active_element_index,
        }
    }
}

/// Result of live editor processing
#[derive(Debug)]
pub struct LiveEditorResult {
    /// The final rendered content with mixed raw/rendered elements
    pub rendered_content: String,
    /// Index of the currently active element (if any)
    pub active_element_index: Option<usize>,
    /// All parsed syntax elements
    pub syntax_elements: Vec<SyntaxElement>,
    /// All rendered elements
    pub rendered_elements: Vec<RenderedElement>,
    /// Cursor mapping statistics
    pub cursor_mapping: MappingStats,
}

/// What a `LiveEditorResult` says.
#[verifier::ext_equal]
pub struct LiveResultView {
    pub content: Seq<char>,
    pub active: Option<usize>,
    pub elements: Seq<ElementView>,
    pub rendered: Seq<RenderedView>,
    pub stats: MappingStats,
}

impl View for LiveEditorResult {
    type V = LiveResultView;

    open spec fn view(&self) -> LiveResultView {
        LiveResultView {
            content: self.rendered_content@,
            active: self.active_element_index,
            elements: views(self.syntax_elements@),
            rendered: rendered_views(self.rendered_elements@),
            stats: self.cursor_mapping,
        }
    }
}

/// Result of click-to-edit operation
#[derive(Debug)]
pub struct ClickToEditResult {
    /// Whether the click-to-edit was successful
    pub success: bool,
    /// Index of the element that was clicked (if any)
    pub element_index: Option<usize>,
    /// Raw content of the clicked element
    pub raw_content: String,
    /// Suggested cursor position within the element
    pub cursor_position: Option<CursorPosition>,
    /// Range of the element in the original content
    pub element_range: (usize, usize),
}

/// What a `ClickToEditResult` says.
pub struct ClickView {
    pub success: bool,
    pub index: Option<usize>,
    pub raw: Seq<char>,
    pub cursor: Option<CursorPosition>,
    pub range: (usize, usize),
}

impl View for ClickToEditResult {
    type V = ClickView;

    open spec fn view(&self) -> ClickView {
        ClickView {
            success: self.success,
            index: self.element_index,
            raw: self.raw_content@,
            cursor: self.cursor_position,
            range: self.element_range,
        }
    }
}

impl Clone for LiveEditorResult {
    fn clone(&self) -> (r: Self)
        ensures
            r@ == self@,
    {
        LiveEditorResult {
            rendered_content: self.rendered_content.clone(),
            active_element_index: self.active_element_index,
            syntax_elements: clone_elements(self.syntax_elements.as_slice()),
            rendered_elements: clone_rendered(&self.rendered_elements),
            cursor_mapping: self.cursor_mapping,
        }
    }
}

impl Clone for ClickToEditResult {
    fn clone(&self) -> (r: Self)
        ensures
            r@ == self@,
    {
        ClickToEditResult {
            success: self.success,
            element_index: self.element_index,
            raw_content: self.raw_content.clone(),
            cursor_position: self.cursor_position,
            element_range: self.element_range,
        }
    }
}

/// Result of mode switching operation
#[derive(Debug, Clone, Copy, PartialEq, Eq, Structural)]
pub struct ModeSwitchResult {
    /// Preserved cursor position after mode switch
    pub preserved_cursor_position: CursorPosition,
    /// Whether a re-render is needed
    pub needs_rerender: bool,
}

// ---------------------------------------------------------------------------
// Specification
// ---------------------------------------------------------------------------

/// A new live editor: the `md` class prefix, a fresh cursor manager, and
/// nothing parsed or active.
pub open spec fn fresh_live() -> LiveView {
    LiveView {
        prefix: "md"@,
        manager: crate::cursor_manager::fresh_view(0),
        elements: seq![],
        rendered: seq![],
        active: None,
    }
}

/// `es` with element `i`, if there is one, marked active or not.
pub open spec fn set_active_at(es: Seq<ElementView>, i: int, b: bool) -> Seq<ElementView> {
    if 0 <= i < es.len() {
        es.update(i, ElementView { active: b, ..es[i] })
    } else {
        es
    }
}

/// `rs` with rendering `i`, if there is one, in editing state or not.
pub open spec fn set_editing_at(rs: Seq<RenderedView>, i: int, b: bool) -> Seq<RenderedView> {
    if 0 <= i < rs.len() {
        rs.update(
            i,
            RenderedView { editing: b, classes: editing_classes(rs[i].classes, b), ..rs[i] },
        )
    } else {
        rs
    }
}

/// The editor with no active element.
pub open spec fn cleared(v: LiveView) -> LiveView {
    match v.active {
        Some(i) => LiveView {
            elements: set_active_at(v.elements, i as int, false),
            rendered: set_editing_at(v.rendered, i as int, false),
            active: None,
            ..v
        },
        None => v,
    }
}

/// The editor with element `i` active, and no other.
pub open spec fn activated(v: LiveView, i: usize) -> LiveView {
    let c = cleared(v);
    LiveView {
        elements: set_active_at(c.elements, i as int, true),
        rendered: set_editing_at(c.rendered, i as int, true),
        active: Some(i),
        ..c
    }
}

/// Events that activate the element under the cursor.
pub open spec fn activates(e: TriggerKind) -> bool {
    e is SpaceKey || e is BlockElementCompleted
}

/// Events that deactivate when the cursor is on no element.
pub open spec fn deactivates(e: TriggerKind) -> bool {
    !(e is ContentChange)
}

pub open spec fn any_activating(evs: Seq<TriggerKind>) -> bool {
    exists|k: int| 0 <= k < evs.len() && activates(#[trigger] evs[k])
}

pub open spec fn any_deactivating(evs: Seq<TriggerKind>) -> bool {
    exists|k: int| 0 <= k < evs.len() && deactivates(#[trigger] evs[k])
}

/// Activity after the cursor and the events are taken into account.
pub open spec fn after_update_active(v: LiveView, cursor: int, evs: Seq<TriggerKind>) -> LiveView {
    match first_containing(v.elements, cursor) {
        Some(i) => if any_activating(evs) {
            activated(v, i as usize)
        } else {
            v
        },
        None => if any_deactivating(evs) {
            cleared(v)
        } else {
            v
        },
    }
}

/// Every element rendered with the cursor at `cursor`.
pub open spec fn render_all(es: Seq<ElementView>, p: Seq<char>, cursor: int) -> Seq<RenderedView> {
    Seq::new(es.len(), |i: int| spec_render_with_cursor(es[i], p, cursor))
}

/// The renderings' HTML, concatenated.
pub open spec fn html_concat(rs: Seq<RenderedView>) -> Seq<char>
    decreases rs.len(),
{
    if rs.len() == 0 {
        seq![]
    } else {
        html_concat(rs.drop_last()) + rs.last().html
    }
}

/// The editor after processing `c` with the cursor at `cursor`.
pub open spec fn processed(
    v: LiveView,
    c: Seq<char>,
    cursor: CursorPosition,
    evs: Seq<TriggerKind>,
) -> LiveView {
    let v1 = after_update_active(
        LiveView { elements: spec_parse_document(c), ..v },
        cursor.absolute as int,
        evs,
    );
    let rs = render_all(v1.elements, v.prefix, cursor.absolute as int);
    LiveView {
        rendered: rs,
        manager: updated_view(v.manager, v1.elements, rs, byte_len(c), byte_len(html_concat(rs))),
        ..v1
    }
}

/// The raw content of element `i`, shown for editing.
pub open spec fn editable_span(i: nat, raw: Seq<char>) -> Seq<char> {
    "<span class=\"editable-element\" data-element-index=\""@ + decimal(i)
        + "\" contenteditable=\"true\">"@ + escape(raw) + "</span>"@
}

/// How element `i` shows in the mixed content.
pub open spec fn mixed_body(
    es: Seq<ElementView>,
    rs: Seq<RenderedView>,
    active: Option<usize>,
    i: int,
) -> Seq<char> {
    if i < rs.len() {
        if rs[i].editing || active == Some(i as usize) {
            editable_span(i as nat, es[i].raw)
        } else {
            spec_to_html(rs[i])
        }
    } else {
        escape(es[i].raw)
    }
}

/// The mixed content from element `i` on, the previous element ending at
/// `last`: the text before each element escaped, then the element.
pub open spec fn mixed_from(
    c: Seq<char>,
    es: Seq<ElementView>,
    rs: Seq<RenderedView>,
    active: Option<usize>,
    i: int,
    last: int,
) -> Seq<char>
    decreases es.len() - i,
{
    if i < 0 || i >= es.len() {
        if last < byte_len(c) {
            escape(byte_tail(c, last))
        } else {
            seq![]
        }
    } else {
        let e = es[i];
        (if e.start > last {
            escape(byte_slice(c, last, e.start as int))
        } else {
            seq![]
        }) + mixed_body(es, rs, active, i) + mixed_from(c, es, rs, active, i + 1, e.end as int)
    }
}

/// Where the elements start and end.
pub open spec fn spans_of(es: Seq<ElementView>) -> Seq<(nat, nat)> {
    es.map_values(|e: ElementView| (e.start, e.end))
}

/// The mixed content of `c` cuts the text, from element `i` on with the
/// previous element ending at `last`, only between characters: before each
/// element that starts after `last`, and after the last element when text
/// remains.
pub open spec fn mixed_ok(c: Seq<char>, sp: Seq<(nat, nat)>, i: int, last: int) -> bool
    decreases sp.len() - i,
{
    if i < 0 || i >= sp.len() {
        last < byte_len(c) ==> is_char_boundary_at(c, last)
    } else {
        &&& sp[i].0 > last ==> is_char_boundary_at(c, last) && is_char_boundary_at(c, sp[i].0 as int)
        &&& mixed_ok(c, sp, i + 1, sp[i].1 as int)
    }
}

/// The mixed raw and rendered view of `c`.
pub open spec fn spec_mixed(
    c: Seq<char>,
    es: Seq<ElementView>,
    rs: Seq<RenderedView>,
    active: Option<usize>,
) -> Seq<char> {
    if es.len() == 0 {
        escape(c)
    } else {
        mixed_from(c, es, rs, active, 0, 0)
    }
}

/// Every element starts within `c`.
pub open spec fn starts_within(len: int, es: Seq<ElementView>) -> bool {
    forall|k: int| 0 <= k < es.len() ==> (#[trigger] es[k]).start <= len
}

/// The editor after a click at `click`.
pub open spec fn clicked(v: LiveView, click: int) -> LiveView {
    match first_containing(v.elements, click) {
        Some(i) => LiveView {
            elements: set_active_at(v.elements, i, true),
            rendered: set_editing_at(v.rendered, i, true),
            active: Some(i as usize),
            ..v
        },
        None => cleared(v),
    }
}

/// What a click at `click` reports.
pub open spec fn click_report(v: LiveView, click: int) -> ClickView {
    match first_containing(v.elements, click) {
        Some(i) => {
            let e = v.elements[i];
            ClickView {
                success: true,
                index: Some(i as usize),
                raw: e.raw,
                cursor: Some(
                    CursorPosition {
                        line: 0,
                        column: (click - e.start) as usize,
                        absolute: click as usize,
                    },
                ),
                range: (e.start as usize, e.end as usize),
            }
        },
        None => ClickView {
            success: false,
            index: None,
            raw: seq![],
            cursor: None,
            range: (0, 0),
        },
    }
}

/// The cursor manager's flags for a switch between two modes: raw to live,
/// live to raw, or neither.
pub open spec fn switch_flags(from: EditorMode, to: EditorMode) -> Option<(bool, bool)> {
    if from == EditorMode::Raw && to == EditorMode::Live {
        Some((true, false))
    } else if from == EditorMode::Live && to == EditorMode::Raw {
        Some((false, true))
    } else {
        None
    }
}

/// The cursor manager can carry the cursor across the switch.
pub open spec fn switch_defined(m: ManagerView, from: EditorMode, to: EditorMode) -> bool {
    match switch_flags(from, to) {
        Some(f) => {
            &&& f.0 && !f.1 ==> raw_mapping_defined(m, m.raw_position as int)
            &&& !f.0 && f.1 ==> (m.rendered_position matches Some(p) ==> rendered_mapping_defined(
                m,
                p as int,
            ))
        },
        None => true,
    }
}

pub open spec fn opt_view_at<T>(s: Seq<T>, i: Option<usize>) -> Option<T> {
    match i {
        Some(k) => if k < s.len() {
            Some(s[k as int])
        } else {
            None
        },
        None => None,
    }
}

// ---------------------------------------------------------------------------
// Lemmas
// ---------------------------------------------------------------------------

proof fn lemma_first_containing(s: Seq<ElementView>, p: int)
    ensures
        first_containing(s, p) matches Some(i) ==> 0 <= i < s.len() && s[i].start <= p < s[i].end,
    decreases s.len(),
{
    if s.len() > 0 {
        lemma_first_containing(s.drop_last(), p);
    }
}

proof fn lemma_first_containing_at(s: Seq<ElementView>, p: int, i: int)
    requires
        0 <= i < s.len(),
        first_containing(s.take(i), p) is None,
        s[i].start <= p < s[i].end,
    ensures
        first_containing(s, p) == Some(i),
    decreases s.len(),
{
    if s.len() == i + 1 {
        assert(s.take(i) =~= s.drop_last());
    } else {
        assert(s.drop_last().take(i) =~= s.take(i));
        lemma_first_containing_at(s.drop_last(), p, i);
    }
}

/// Renderings that keep their elements' ranges map every raw position they
/// hold onto an ordered rendered range.
proof fn lemma_rebuilt_defined(
    m: ManagerView,
    es: Seq<ElementView>,
    p: Seq<char>,
    cursor: int,
    raw_len: nat,
    rendered_len: nat,
)
    ensures
        raw_mapping_defined(
            rebuilt_view(m, es, render_all(es, p, cursor), raw_len, rendered_len),
            m.raw_position as int,
        ),
{
    let rs = render_all(es, p, cursor);
    let b = rebuilt_view(m, es, rs, raw_len, rendered_len);
    let x = m.raw_position as int;
    lemma_first_element_holding(b.elements, x, false);
    if let Some(j) = first_element_holding(b.elements, x, false) {
        let n = min_int(es.len() as int, rs.len() as int);
        assert(b.elements == built_elements(es, rs, n));
        assert(b.elements[j].1 == mapping_of(es[j], rs[j]));
        assert(rs[j] == spec_render_with_cursor(es[j], p, cursor));
        assert(rs[j].range == (es[j].start as usize, es[j].end as usize));
    }
}

// ---------------------------------------------------------------------------
// Implementation
// ---------------------------------------------------------------------------

fn set_element_active_at(v: &mut Vec<SyntaxElement>, i: usize, b: bool)
    ensures
        views(final(v)@) == set_active_at(views(old(v)@), i as int, b),
{
    if i < v.len() {
        let mut e = v.remove(i);
        e.set_active(b);
        v.insert(i, e);
        assert(views(v@) =~= set_active_at(views(old(v)@), i as int, b));
    }
}

fn set_editing_at_index(v: &mut Vec<RenderedElement>, i: usize, b: bool)
    ensures
        rendered_views(final(v)@) == set_editing_at(rendered_views(old(v)@), i as int, b),
{
    if i < v.len() {
        let mut r = v.remove(i);
        r.set_editing(b);
        v.insert(i, r);
        assert(rendered_views(v@) =~= set_editing_at(rendered_views(old(v)@), i as int, b));
    }
}

/// Copies of the renderings.
fn clone_rendered(rs: &Vec<RenderedElement>) -> (r: Vec<RenderedElement>)
    ensures
        rendered_views(r@) == rendered_views(rs@),
{
    let mut r: Vec<RenderedElement> = Vec::new();
    let mut i: usize = 0;
    while i < rs.len()
        invariant
            i <= rs@.len(),
            r@.len() == i,
            forall|j: int| 0 <= j < i ==> (#[trigger] r@[j])@ == rs@[j]@,
        decreases rs@.len() - i,
    {
        r.push(rs[i].clone());
        i += 1;
    }
    assert(rendered_views(r@) =~= rendered_views(rs@));
    r
}

impl LiveEditorIntegration {
    /// Create a new live editor integration
    pub fn new() -> (r: Self)
        ensures
            r@ == fresh_live(),
    {
        let r = Self {
            syntax_parser: MarkdownSyntaxParser::new(),
            inline_renderer: MarkdownInlineRenderer::new(),
            cursor_manager: CursorManager::new(),
            current_elements: Vec::new(),
            current_rendered: Vec::new(),
            active_element_index: None,
        };
        assert(r@ =~= fresh_live());
        r
    }

    /// Process content and cursor position: parse, decide the active
    /// element, render with the cursor, rebuild the cursor mappings and
    /// produce the mixed content.
    pub fn process_content_with_cursor(
        &mut self,
        content: &str,
        cursor_position: &CursorPosition,
        trigger_events: &[TriggerEvent],
    ) -> (r: LiveEditorResult)
        requires
            mixed_ok(content@, spans_of(spec_parse_document(content@)), 0, 0),
        ensures
            final(self)@ == processed(
                old(self)@,
                content@,
                *cursor_position,
                event_views(trigger_events@),
            ),
            r@ == (LiveResultView {
                content: spec_mixed(
                    content@,
                    final(self)@.elements,
                    final(self)@.rendered,
                    final(self)@.active,
                ),
                active: final(self)@.active,
                elements: final(self)@.elements,
                rendered: final(self)@.rendered,
                stats: stats_of(final(self)@.manager),
            }),
    {
        let ghost v0 = self@;
        self.current_elements = self.syntax_parser.parse_document(content);
        let ghost v1 = self@;
        assert(v1 == LiveView { elements: spec_parse_document(content@), ..v0 });
        proof {
            lemma_parse_text_within(content@, 0);
        }
        self.update_active_element(cursor_position, trigger_events);
        let ghost v2 = self@;
        assert(spans_of(v2.elements) =~= spans_of(v1.elements)) by {
            assert forall|k: int| 0 <= k < v2.elements.len() implies (#[trigger] v2.elements[k]).start
                == v1.elements[k].start && v2.elements[k].end == v1.elements[k].end by {}
        }
        self.current_rendered = self.inline_renderer.render_elements_with_cursor(
            self.current_elements.as_slice(),
            cursor_position,
        );
        let ghost rs = render_all(v2.elements, v0.prefix, cursor_position.absolute as int);
        assert(rendered_views(self.current_rendered@) =~= rs);
        let rendered_html = self.generate_rendered_content();
        proof {
            lemma_rebuilt_defined(
                v0.manager,
                v2.elements,
                v0.prefix,
                cursor_position.absolute as int,
                byte_len(content@),
                byte_len(rendered_html@),
            );
        }
        self.cursor_manager.update_element_mappings(
            self.current_elements.as_slice(),
            self.current_rendered.as_slice(),
            content,
            rendered_html.as_str(),
        );
        assert(self@ =~= processed(v0, content@, *cursor_position, event_views(trigger_events@)));
        let rendered_content = self.generate_mixed_content(content, cursor_position);
        LiveEditorResult {
            rendered_content,
            active_element_index: self.active_element_index,
            syntax_elements: clone_elements(self.current_elements.as_slice()),
            rendered_elements: clone_rendered(&self.current_rendered),
            cursor_mapping: self.cursor_manager.get_mapping_stats(),
        }
    }

    /// Handle click-to-edit: the first element holding the click becomes
    /// active and editing, and its raw content is reported; a click on no
    /// element clears the active element.
    pub fn handle_click_to_edit(&mut self, click_position: usize, _content: &str) -> (r:
        ClickToEditResult)
        ensures
            final(self)@ == clicked(old(self)@, click_position as int),
            r@ == click_report(old(self)@, click_position as int),
    {
        proof {
            lemma_first_containing(self@.elements, click_position as int);
        }
        match self.find_element_at_position(click_position) {
            Some(element_index) => {
                let ghost v = self@;
                self.active_element_index = Some(element_index);
                set_element_active_at(&mut self.current_elements, element_index, true);
                set_editing_at_index(&mut self.current_rendered, element_index, true);
                assert(self@ =~= clicked(v, click_position as int));
                assert(views(self.current_elements@).len() == self.current_elements@.len());
                assert(self@.elements[element_index as int] == self.current_elements@[element_index as int]@);
                let element = &self.current_elements[element_index];
                assert(element@.raw == v.elements[element_index as int].raw);
                let relative_position = click_position - element.range.start;
                let cursor_position = CursorPosition::new(0, relative_position, click_position);
                ClickToEditResult {
                    success: true,
                    element_index: Some(element_index),
                    raw_content: element.raw_content.clone(),
                    cursor_position: Some(cursor_position),
                    element_range: (element.range.start, element.range.end),
                }
            },
            None => {
                self.clear_active_element();
                ClickToEditResult {
                    success: false,
                    element_index: None,
                    raw_content: String::new(),
                    cursor_position: None,
                    element_range: (0, 0),
                }
            },
        }
    }

    /// Handle mode switching between raw and live modes: the cursor manager
    /// carries the cursor across (keeping the given one when it cannot),
    /// and a real switch clears the active element and asks for a re-render.
    pub fn handle_mode_switch(
        &mut self,
        from_mode: EditorMode,
        to_mode: EditorMode,
        current_cursor: &CursorPosition,
    ) -> (r: ModeSwitchResult)
        requires
            switch_defined(old(self)@.manager, from_mode, to_mode),
        ensures
            r.needs_rerender == (from_mode != to_mode),
            match switch_flags(from_mode, to_mode) {
                Some(f) => {
                    let o = mode_switch_outcome(old(self)@.manager, f.0, f.1);
                    &&& r.preserved_cursor_position == match o.1 {
                        Some(p) => p,
                        None => *current_cursor,
                    }
                    &&& final(self)@.manager == o.0
                },
                None => r.preserved_cursor_position == *current_cursor && final(self)@.manager
                    == old(self)@.manager,
            },
            final(self)@ == (LiveView {
                manager: final(self)@.manager,
                ..(if from_mode != to_mode {
                    cleared(old(self)@)
                } else {
                    old(self)@
                })
            }),
    {
        let ghost v = self@;
        let preserved_position = if from_mode == EditorMode::Raw && to_mode == EditorMode::Live {
            match self.cursor_manager.preserve_position_for_mode_switch(true, false) {
                Ok(p) => p,
                Err(_) => *current_cursor,
            }
        } else if from_mode == EditorMode::Live && to_mode == EditorMode::Raw {
            match self.cursor_manager.preserve_position_for_mode_switch(false, true) {
                Ok(p) => p,
                Err(_) => *current_cursor,
            }
        } else {
            *current_cursor
        };
        let ghost m = self@.manager;
        assert(self@ == LiveView { manager: m, ..v });
        if from_mode != to_mode {
            self.clear_active_element();
        }
        ModeSwitchResult {
            preserved_cursor_position: preserved_position,
            needs_rerender: from_mode != to_mode,
        }
    }

    /// Generate mixed content with both raw and rendered elements
    fn generate_mixed_content(&self, content: &str, cursor_position: &CursorPosition) -> (r:
        String)
        requires
            mixed_ok(content@, spans_of(self@.elements), 0, 0),
        ensures
            r@ == spec_mixed(content@, self@.elements, self@.rendered, self@.active),
    {
        if self.current_elements.len() == 0 {
            proof {
                assert(content@.take(0) =~= Seq::<char>::empty());
                crate::text::lemma_char_index(content@, 0);
            }
            let r = self.inline_renderer.render_document(
                content,
                self.current_elements.as_slice(),
                cursor_position,
            );
            return r;
        }
        let nb = content.as_bytes().len();
        let v = chars_of(content);
        let offs = byte_offsets(v.as_slice());
        let ghost es = self@.elements;
        let ghost rs = self@.rendered;
        let ghost active = self@.active;
        let mut result = String::new();
        let mut last_pos: usize = 0;
        let mut i: usize = 0;
        while i < self.current_elements.len()
            invariant
                v@ == content@,
                es == self@.elements,
                rs == self@.rendered,
                active == self@.active,
                offsets_of(v@, offs@),
                nb == byte_len(v@),
                mixed_ok(content@, spans_of(es), i as int, last_pos as int),
                es.len() == self.current_elements@.len(),
                rs.len() == self.current_rendered@.len(),
                i <= es.len(),
                result@ + mixed_from(content@, es, rs, active, i as int, last_pos as int)
                    == mixed_from(content@, es, rs, active, 0, 0),
            decreases es.len() - i,
        {
            let element = &self.current_elements[i];
            assert(es[i as int] == element@);
            let ghost before = result@;
            assert(spans_of(es)[i as int] == (es[i as int].start, es[i as int].end));
            if element.range.start > last_pos {
                push_escaped_bytes(&mut result, v.as_slice(), &offs, last_pos, element.range.start);
            }
            if i < self.current_rendered.len() {
                let rendered = &self.current_rendered[i];
                assert(rs[i as int] == rendered@);
                let is_active = match self.active_element_index {
                    Some(a) => a == i,
                    None => false,
                };
                if rendered.is_editing || is_active {
                    push_str(
                        &mut result,
                        "<span class=\"editable-element\" data-element-index=\"",
                    );
                    push_decimal(&mut result, i as u64);
                    push_str(&mut result, "\" contenteditable=\"true\">");
                    let escaped = html_escape(element.raw_content.as_str());
                    push_str(&mut result, escaped.as_str());
                    push_str(&mut result, "</span>");
                } else {
                    let html = rendered.to_html();
                    push_str(&mut result, html.as_str());
                }
            } else {
                let escaped = html_escape(element.raw_content.as_str());
                push_str(&mut result, escaped.as_str());
            }
            proof {
                let gap = if element.range.start > last_pos {
                    escape(byte_slice(content@, last_pos as int, element.range.start as int))
                } else {
                    seq![]
                };
                assert(result@ =~= before + gap + mixed_body(es, rs, active, i as int));
                assert(mixed_from(content@, es, rs, active, i as int, last_pos as int) =~= gap
                    + mixed_body(es, rs, active, i as int) + mixed_from(
                    content@,
                    es,
                    rs,
                    active,
                    i + 1,
                    element.range.end as int,
                ));
            }
            last_pos = element.range.end;
            i += 1;
        }
        let ghost before = result@;
        if last_pos < nb {
            push_escaped_tail(&mut result, v.as_slice(), &offs, last_pos);
        }
        assert(result@ =~= mixed_from(content@, es, rs, active, 0, 0));
        result
    }

    /// The renderings' HTML, concatenated
    fn generate_rendered_content(&self) -> (r: String)
        ensures
            r@ == html_concat(self@.rendered),
    {
        let ghost rs = self@.rendered;
        let mut s = String::new();
        let mut i: usize = 0;
        assert(html_concat(rs.take(0)) =~= Seq::<char>::empty());
        while i < self.current_rendered.len()
            invariant
                rs == self@.rendered,
                rs.len() == self.current_rendered@.len(),
                i <= rs.len(),
                s@ == html_concat(rs.take(i as int)),
            decreases rs.len() - i,
        {
            assert(rs[i as int] == self.current_rendered@[i as int]@);
            push_str(&mut s, self.current_rendered[i].html.as_str());
            assert(rs.take(i + 1).drop_last() =~= rs.take(i as int));
            i += 1;
        }
        assert(rs.take(i as int) =~= rs);
        s
    }

    /// Update which element should be active based on cursor position and
    /// triggers
    fn update_active_element(
        &mut self,
        cursor_position: &CursorPosition,
        trigger_events: &[TriggerEvent],
    )
        ensures
            final(self)@ == after_update_active(
                old(self)@,
                cursor_position.absolute as int,
                event_views(trigger_events@),
            ),
    {
        let ghost evs = event_views(trigger_events@);
        proof {
            lemma_first_containing(self@.elements, cursor_position.absolute as int);
        }
        match self.find_element_at_position(cursor_position.absolute) {
            Some(element_index) => {
                let mut found = false;
                let mut k: usize = 0;
                while k < trigger_events.len()
                    invariant
                        evs == event_views(trigger_events@),
                        k <= trigger_events@.len(),
                        found == exists|j: int| 0 <= j < k && activates(#[trigger] evs[j]),
                    decreases trigger_events@.len() - k,
                {
                    assert(evs[k as int] == trigger_events@[k as int]@);
                    let hit = match &trigger_events[k] {
                        TriggerEvent::SpaceKey => true,
                        TriggerEvent::CursorMovement { .. } => false,
                        TriggerEvent::BlockElementCompleted { .. } => true,
                        TriggerEvent::ContentChange { .. } => false,
                    };
                    if hit {
                        found = true;
                    }
                    k += 1;
                }
                if found {
                    self.set_active_element(element_index);
                }
            },
            None => {
                let mut found = false;
                let mut k: usize = 0;
                while k < trigger_events.len()
                    invariant
                        evs == event_views(trigger_events@),
                        k <= trigger_events@.len(),
                        found == exists|j: int| 0 <= j < k && deactivates(#[trigger] evs[j]),
                    decreases trigger_events@.len() - k,
                {
                    assert(evs[k as int] == trigger_events@[k as int]@);
                    let hit = match &trigger_events[k] {
                        TriggerEvent::ContentChange { .. } => false,
                        _ => true,
                    };
                    if hit {
                        found = true;
                    }
                    k += 1;
                }
                if found {
                    self.clear_active_element();
                }
            },
        }
    }

    /// Index of the first element whose range holds `position`
    fn find_element_at_position(&self, position: usize) -> (r: Option<usize>)
        ensures
            match r {
                Some(i) => first_containing(self@.elements, position as int) == Some(i as int),
                None => first_containing(self@.elements, position as int) is None,
            },
    {
        let ghost es = self@.elements;
        let mut i: usize = 0;
        while i < self.current_elements.len()
            invariant
                es == self@.elements,
                es.len() == self.current_elements@.len(),
                i <= es.len(),
                first_containing(es.take(i as int), position as int) is None,
            decreases es.len() - i,
        {
            assert(es[i as int] == self.current_elements@[i as int]@);
            if self.current_elements[i].range.contains(position) {
                proof {
                    lemma_first_containing_at(es, position as int, i as int);
                }
                return Some(i);
            }
            assert(es.take(i + 1).drop_last() =~= es.take(i as int));
            i += 1;
        }
        assert(es.take(i as int) =~= es);
        None
    }

    /// Set an element as active for editing, clearing the previous one
    pub fn set_active_element(&mut self, element_index: usize)
        ensures
            final(self)@ == activated(old(self)@, element_index),
    {
        self.clear_active_element();
        let ghost c = self@;
        self.active_element_index = Some(element_index);
        set_element_active_at(&mut self.current_elements, element_index, true);
        set_editing_at_index(&mut self.current_rendered, element_index, true);
        assert(self@ =~= activated(old(self)@, element_index));
    }

    /// Clear the active element
    pub fn clear_active_element(&mut self)
        ensures
            final(self)@ == cleared(old(self)@),
    {
        match self.active_element_index {
            Some(index) => {
                set_element_active_at(&mut self.current_elements, index, false);
                set_editing_at_index(&mut self.current_rendered, index, false);
            },
            None => {},
        }
        self.active_element_index = None;
        assert(self@ =~= cleared(old(self)@));
    }

    /// Get the currently active element
    pub fn get_active_element(&self) -> (r: Option<&SyntaxElement>)
        ensures
            match opt_view_at(self@.elements, self@.active) {
                Some(e) => r matches Some(x) && x@ == e,
                None => r is None,
            },
    {
        match self.active_element_index {
            Some(index) => if index < self.current_elements.len() {
                assert(self@.elements[index as int] == self.current_elements@[index as int]@);
                Some(&self.current_elements[index])
            } else {
                None
            },
            None => None,
        }
    }

    /// Get the currently active rendered element
    pub fn get_active_rendered_element(&self) -> (r: Option<&RenderedElement>)
        ensures
            match opt_view_at(self@.rendered, self@.active) {
                Some(e) => r matches Some(x) && x@ == e,
                None => r is None,
            },
    {
        match self.active_element_index {
            Some(index) => if index < self.current_rendered.len() {
                assert(self@.rendered[index as int] == self.current_rendered@[index as int]@);
                Some(&self.current_rendered[index])
            } else {
                None
            },
            None => None,
        }
    }

    /// Replace the raw content of the active element; false when there is
    /// none.
    pub fn update_active_element_content(&mut self, new_content: &str) -> (b: bool)
        ensures
            b == (opt_view_at(old(self)@.elements, old(self)@.active) is Some),
            b ==> final(self)@ == (LiveView {
                elements: old(self)@.elements.update(
                    old(self)@.active->0 as int,
                    ElementView {
                        raw: new_content@,
                        ..old(self)@.elements[old(self)@.active->0 as int]
                    },
                ),
                ..old(self)@
            }),
            !b ==> final(self)@ == old(self)@,
    {
        match self.active_element_index {
            Some(index) => {
                if index < self.current_elements.len() {
                    let mut e = self.current_elements.remove(index);
                    e.raw_content = owned(new_content);
                    self.current_elements.insert(index, e);
                    assert(self@ =~= LiveView {
                        elements: old(self)@.elements.update(
                            index as int,
                            ElementView { raw: new_content@, ..old(self)@.elements[index as int] },
                        ),
                        ..old(self)@
                    });
                    return true;
                }
                false
            },
            None => false,
        }
    }

    /// Get cursor manager for external access
    pub fn cursor_manager(&self) -> (m: &CursorManager)
        ensures
            m@ == self@.manager,
    {
        &self.cursor_manager
    }

    /// Get cursor manager for external mutation
    pub fn cursor_manager_mut(&mut self) -> (m: &mut CursorManager)
        ensures
            m@ == old(self)@.manager,
            final(self)@ == (LiveView { manager: final(m)@, ..old(self)@ }),
    {
        &mut self.cursor_manager
    }
}

impl Default for LiveEditorIntegration {
    fn default() -> (r: Self)
        ensures
            r@ == fresh_live(),
    {
        Self::new()
    }
}

} // verus!
