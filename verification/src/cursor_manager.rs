//! Cursor position manager for mapping between raw and rendered positions.
use vstd::prelude::*;

use crate::editor_state::CursorPosition;
use crate::inline_renderer::RenderedElement;
use crate::syntax_parser::{
    opt_int, opt_string_view, views, wrap_usize, ElementKind, ElementView, PositionRange,
    SyntaxElement, SyntaxElementType,
};
use crate::inline_renderer::{rendered_views, RenderedView};
use crate::text::{byte_len, debug_quoted, decimal, owned, push_decimal, push_str, str_debug};

verus! {

broadcast use vstd::string::group_string_axioms;

/// Mapping between raw markdown positions and rendered HTML positions
#[derive(Debug, PartialEq, Eq)]
pub struct PositionMapping {
    pub raw_position: usize,
    pub rendered_position: usize,
    pub element_id: Option<String>,
}

/// What a `PositionMapping` says.
pub struct PositionView {
    pub raw: usize,
    pub rendered: usize,
    pub id: Option<Seq<char>>,
}

impl View for PositionMapping {
    type V = PositionView;

    open spec fn view(&self) -> PositionView {
        PositionView {
            raw: self.raw_position,
            rendered: self.rendered_position,
            id: opt_string_view(self.element_id),
        }
    }
}

/// Element mapping information for cursor position tracking
#[derive(Debug, PartialEq, Eq)]
pub struct ElementMapping {
    pub raw_range: PositionRange,
    pub rendered_range: PositionRange,
    pub element_type: String,
    pub is_active: bool,
}

/// What an `ElementMapping` says.
pub struct MappingView {
    pub raw: PositionRange,
    pub rendered: PositionRange,
    pub ty: Seq<char>,
    pub active: bool,
}

impl View for ElementMapping {
    type V = MappingView;

    open spec fn view(&self) -> MappingView {
        MappingView {
            raw: self.raw_range,
            rendered: self.rendered_range,
            ty: self.element_type@,
            active: self.is_active,
        }
    }
}

/// Statistics about cursor manager mappings
#[derive(Debug, Clone, Copy, PartialEq, Eq, Structural)]
pub struct MappingStats {
    pub element_count: usize,
    pub position_mapping_count: usize,
    pub active_element_count: usize,
    pub raw_content_length: usize,
    pub rendered_content_length: usize,
}

/// Cursor manager for handling position mapping between raw and rendered
/// content. Element mappings are kept by id, in insertion order.
#[derive(Debug)]
pub struct CursorManager {
    pub raw_position: usize,
    pub rendered_position: Option<usize>,
    pub element_mappings: Vec<(String, ElementMapping)>,
    pub position_mappings: Vec<PositionMapping>,
    pub raw_content_length: usize,
    pub rendered_content_length: usize,
}

/// What a `CursorManager` holds.
#[verifier::ext_equal]
pub struct ManagerView {
    pub raw_position: usize,
    pub rendered_position: Option<usize>,
    pub elements: Seq<(Seq<char>, MappingView)>,
    pub positions: Seq<PositionView>,
    pub raw_len: usize,
    pub rendered_len: usize,
}

pub open spec fn element_views(s: Seq<(String, ElementMapping)>) -> Seq<(Seq<char>, MappingView)> {
    s.map_values(|p: (String, ElementMapping)| (p.0@, p.1@))
}

pub open spec fn position_views(s: Seq<PositionMapping>) -> Seq<PositionView> {
    s.map_values(|p: PositionMapping| p@)
}

impl View for CursorManager {
    type V = ManagerView;

    open spec fn view(&self) -> ManagerView {
        ManagerView {
            raw_position: self.raw_position,
            rendered_position: self.rendered_position,
            elements: element_views(self.element_mappings@),
            positions: position_views(self.position_mappings@),
            raw_len: self.raw_content_length,
            rendered_len: self.rendered_content_length,
        }
    }
}

// ---------------------------------------------------------------------------
// Specification of the mapping
// ---------------------------------------------------------------------------

/// Index of the first position mapping whose raw side is `x`.
pub open spec fn first_raw_position(ps: Seq<PositionView>, x: int) -> Option<int>
    decreases ps.len(),
{
    if ps.len() == 0 {
        None
    } else {
        match first_raw_position(ps.drop_last(), x) {
            Some(i) => Some(i),
            None => if ps.last().raw == x {
                Some(ps.len() - 1)
            } else {
                None
            },
        }
    }
}

/// Index of the first position mapping whose rendered side is `x`.
pub open spec fn first_rendered_position(ps: Seq<PositionView>, x: int) -> Option<int>
    decreases ps.len(),
{
    if ps.len() == 0 {
        None
    } else {
        match first_rendered_position(ps.drop_last(), x) {
            Some(i) => Some(i),
            None => if ps.last().rendered == x {
                Some(ps.len() - 1)
            } else {
                None
            },
        }
    }
}

/// Index of the first element mapping whose raw range holds `x`
/// (`rendered == false`) or whose rendered range holds `x`.
pub open spec fn first_element_holding(
    es: Seq<(Seq<char>, MappingView)>,
    x: int,
    rendered: bool,
) -> Option<int>
    decreases es.len(),
{
    if es.len() == 0 {
        None
    } else {
        match first_element_holding(es.drop_last(), x, rendered) {
            Some(i) => Some(i),
            None => {
                let r = if rendered {
                    es.last().1.rendered
                } else {
                    es.last().1.raw
                };
                if r.start <= x < r.end {
                    Some(es.len() - 1)
                } else {
                    None
                }
            },
        }
    }
}

/// `rel` scaled from a length `from` to a length `to`, rounded down.
pub open spec fn scale(rel: int, from: int, to: int) -> int {
    rel * to / from
}

/// Proportional placement of `x` from range `a` into range `b`.
pub open spec fn place_in(a: PositionRange, b: PositionRange, x: int) -> int {
    if a.end - a.start == 0 {
        b.start as int
    } else {
        b.start + scale(x - a.start, a.end - a.start, b.end - b.start)
    }
}

/// Inside an element the mapping keeps the element's bounds and the order
/// of positions: its start lands on the other side's start, its end on the
/// other side's end, a later position never lands earlier, and mapping a
/// bound there and back gives the bound again.
pub proof fn lemma_mapping_keeps_bounds_and_order(a: PositionRange, b: PositionRange, x: int, y: int)
    requires
        a.start <= a.end,
        b.start <= b.end,
    ensures
        place_in(a, b, a.start as int) == b.start,
        a.start < a.end ==> place_in(a, b, a.end as int) == b.end,
        a.start <= x <= y ==> place_in(a, b, x) <= place_in(a, b, y),
        a.start < a.end && b.start < b.end ==> place_in(b, a, place_in(a, b, a.start as int))
            == a.start && place_in(b, a, place_in(a, b, a.end as int)) == a.end,
{
    let la = a.end - a.start;
    let lb = b.end - b.start;
    if la > 0 {
        assert(0 * lb / la == 0) by (nonlinear_arith)
            requires
                la > 0,
        ;
        assert(la * lb / la == lb) by (nonlinear_arith)
            requires
                la > 0,
        ;
        if a.start <= x <= y {
            assert((x - a.start) * lb / la <= (y - a.start) * lb / la) by (nonlinear_arith)
                requires
                    la > 0,
                    lb >= 0,
                    0 <= x - a.start <= y - a.start,
            ;
        }
        if lb > 0 {
            assert(0 * la / lb == 0) by (nonlinear_arith)
                requires
                    lb > 0,
            ;
            assert(lb * la / lb == la) by (nonlinear_arith)
                requires
                    lb > 0,
            ;
        }
    }
}

pub open spec fn min_int(a: int, b: int) -> int {
    if a <= b {
        a
    } else {
        b
    }
}

/// Where raw position `x` lands in the rendered content.
pub open spec fn spec_raw_to_rendered(m: ManagerView, x: int) -> Option<int> {
    match first_raw_position(m.positions, x) {
        Some(i) => Some(m.positions[i].rendered as int),
        None => match first_element_holding(m.elements, x, false) {
            Some(j) => Some(place_in(m.elements[j].1.raw, m.elements[j].1.rendered, x)),
            None => if m.raw_len > 0 && m.rendered_len > 0 {
                Some(min_int(scale(x, m.raw_len as int, m.rendered_len as int), m.rendered_len as int))
            } else {
                None
            },
        },
    }
}

/// Where rendered position `x` lands in the raw content.
pub open spec fn spec_rendered_to_raw(m: ManagerView, x: int) -> int {
    match first_rendered_position(m.positions, x) {
        Some(i) => m.positions[i].raw as int,
        None => match first_element_holding(m.elements, x, true) {
            Some(j) => place_in(m.elements[j].1.rendered, m.elements[j].1.raw, x),
            None => if m.rendered_len > 0 && m.raw_len > 0 {
                min_int(scale(x, m.rendered_len as int, m.raw_len as int), m.raw_len as int)
            } else {
                min_int(x, m.raw_len as int)
            },
        },
    }
}

/// Every element mapping has ordered ranges, as the mapping arithmetic
/// assumes.
pub open spec fn ranges_ordered(es: Seq<(Seq<char>, MappingView)>) -> bool {
    forall|i: int|
        0 <= i < es.len() ==> (#[trigger] es[i]).1.raw.start <= es[i].1.raw.end
            && es[i].1.rendered.start <= es[i].1.rendered.end
}

pub proof fn lemma_first_element_holding(es: Seq<(Seq<char>, MappingView)>, x: int, rendered: bool)
    ensures
        first_element_holding(es, x, rendered) matches Some(j) ==> 0 <= j < es.len() && {
            let r = if rendered {
                es[j].1.rendered
            } else {
                es[j].1.raw
            };
            r.start <= x < r.end
        },
    decreases es.len(),
{
    if es.len() > 0 {
        lemma_first_element_holding(es.drop_last(), x, rendered);
    }
}

pub proof fn lemma_first_raw_position(ps: Seq<PositionView>, x: int)
    ensures
        first_raw_position(ps, x) matches Some(i) ==> 0 <= i < ps.len(),
        first_rendered_position(ps, x) matches Some(i) ==> 0 <= i < ps.len(),
    decreases ps.len(),
{
    if ps.len() > 0 {
        lemma_first_raw_position(ps.drop_last(), x);
    }
}

proof fn lemma_mul_fits_u128(a: usize, b: usize)
    ensures
        (a as int) * (b as int) <= u128::MAX,
{
    assert(usize::MAX <= 0xFFFF_FFFF_FFFF_FFFFint);
    assert((a as int) * (b as int) <= 0xFFFF_FFFF_FFFF_FFFFint * 0xFFFF_FFFF_FFFF_FFFFint)
        by (nonlinear_arith)
        requires
            0 <= a <= 0xFFFF_FFFF_FFFF_FFFFint,
            0 <= b <= 0xFFFF_FFFF_FFFF_FFFFint,
    ;
}

/// `rel * to / from` for `rel < from`, which is below `to`.
fn scale_within(rel: usize, from: usize, to: usize) -> (r: usize)
    requires
        rel < from,
    ensures
        r == scale(rel as int, from as int, to as int),
        r <= to,
{
    proof {
        lemma_mul_fits_u128(rel, to);
    }
    let p: u128 = (rel as u128) * (to as u128);
    let q: u128 = p / (from as u128);
    proof {
        assert((rel as int) * (to as int) <= (from as int) * (to as int)) by (nonlinear_arith)
            requires
                rel < from,
        ;
        assert(q <= to) by (nonlinear_arith)
            requires
                q == p / (from as u128),
                p == (rel as int) * (to as int),
                (rel as int) * (to as int) <= (from as int) * (to as int),
                from > 0,
        ;
    }
    q as usize
}

/// `min(x * to / from, to)` for `from > 0`.
fn scale_capped(x: usize, from: usize, to: usize) -> (r: usize)
    requires
        from > 0,
    ensures
        r == min_int(scale(x as int, from as int, to as int), to as int),
{
    proof {
        lemma_mul_fits_u128(x, to);
    }
    let p: u128 = (x as u128) * (to as u128);
    let q: u128 = p / (from as u128);
    if q < to as u128 {
        q as usize
    } else {
        to
    }
}

// ---------------------------------------------------------------------------
// `Debug` of element types
// ---------------------------------------------------------------------------

/// `Some(..)` around a `Debug` rendering, or `None`.
pub open spec fn opt_debug(o: Option<Seq<char>>) -> Seq<char> {
    match o {
        Some(s) => "Some("@ + str_debug(s) + ")"@,
        None => "None"@,
    }
}

/// The `Debug` rendering of an element type.
pub open spec fn kind_debug(k: ElementKind) -> Seq<char> {
    match k {
        ElementKind::Header { level } => "Header { level: "@ + decimal(level as nat) + " }"@,
        ElementKind::Bold => "Bold"@,
        ElementKind::Italic => "Italic"@,
        ElementKind::InlineCode => "InlineCode"@,
        ElementKind::CodeBlock { language } => "CodeBlock { language: "@ + opt_debug(language)
            + " }"@,
        ElementKind::Link { url, title } => "Link { url: "@ + str_debug(url) + ", title: "@
            + opt_debug(title) + " }"@,
        ElementKind::UnorderedListItem { level } => "UnorderedListItem { level: "@ + decimal(
            level as nat,
        ) + " }"@,
        ElementKind::OrderedListItem { level, number } => "OrderedListItem { level: "@ + decimal(
            level as nat,
        ) + ", number: "@ + decimal(number as nat) + " }"@,
    }
}

fn push_opt_debug(s: &mut String, o: &Option<String>)
    ensures
        final(s)@ == old(s)@ + opt_debug(opt_string_view(*o)),
{
    match o {
        Some(x) => {
            push_str(s, "Some(");
            let d = debug_quoted(x.as_str());
            push_str(s, d.as_str());
            push_str(s, ")");
        },
        None => push_str(s, "None"),
    }
    assert(s@ =~= old(s)@ + opt_debug(opt_string_view(*o)));
}

/// `format!("{:?}", t)`.
pub fn element_type_debug(t: &SyntaxElementType) -> (r: String)
    ensures
        r@ == kind_debug(t@),
{
    let mut s = String::new();
    match t {
        SyntaxElementType::Header { level } => {
            push_str(&mut s, "Header { level: ");
            push_decimal(&mut s, *level as u64);
            push_str(&mut s, " }");
        },
        SyntaxElementType::Bold => push_str(&mut s, "Bold"),
        SyntaxElementType::Italic => push_str(&mut s, "Italic"),
        SyntaxElementType::InlineCode => push_str(&mut s, "InlineCode"),
        SyntaxElementType::CodeBlock { language } => {
            push_str(&mut s, "CodeBlock { language: ");
            push_opt_debug(&mut s, language);
            push_str(&mut s, " }");
        },
        SyntaxElementType::Link { url, title } => {
            push_str(&mut s, "Link { url: ");
            let d = debug_quoted(url.as_str());
            push_str(&mut s, d.as_str());
            push_str(&mut s, ", title: ");
            push_opt_debug(&mut s, title);
            push_str(&mut s, " }");
        },
        SyntaxElementType::UnorderedListItem { level } => {
            push_str(&mut s, "UnorderedListItem { level: ");
            push_decimal(&mut s, *level as u64);
            push_str(&mut s, " }");
        },
        SyntaxElementType::OrderedListItem { level, number } => {
            push_str(&mut s, "OrderedListItem { level: ");
            push_decimal(&mut s, *level as u64);
            push_str(&mut s, ", number: ");
            push_decimal(&mut s, *number as u64);
            push_str(&mut s, " }");
        },
    }
    assert(s@ =~= kind_debug(t@));
    s
}

// ---------------------------------------------------------------------------
// Building the mappings
// ---------------------------------------------------------------------------

/// The id of the `i`-th element: `element_i`.
pub open spec fn element_id(i: nat) -> Seq<char> {
    "element_"@ + decimal(i)
}

/// The element mapping built from a syntax element and its rendering.
pub open spec fn mapping_of(
    se: ElementView,
    re: RenderedView,
) -> MappingView {
    MappingView {
        raw: PositionRange { start: se.start as usize, end: se.end as usize },
        rendered: PositionRange { start: re.range.0, end: re.range.1 },
        ty: kind_debug(se.kind),
        active: se.active,
    }
}

/// The element mappings for the first `n` pairs.
pub open spec fn built_elements(
    ses: Seq<ElementView>,
    res: Seq<RenderedView>,
    n: int,
) -> Seq<(Seq<char>, MappingView)> {
    Seq::new(n as nat, |i: int| (element_id(i as nat), mapping_of(ses[i], res[i])))
}

/// The start and end position mappings for the first `n` pairs, before
/// sorting.
pub open spec fn built_positions(
    ses: Seq<ElementView>,
    res: Seq<RenderedView>,
    n: int,
) -> Seq<PositionView>
    decreases n,
{
    if n <= 0 {
        seq![]
    } else {
        let i = n - 1;
        let id = Some(element_id(i as nat));
        built_positions(ses, res, n - 1).push(
            PositionView { raw: ses[i].start as usize, rendered: res[i].range.0, id },
        ).push(PositionView { raw: ses[i].end as usize, rendered: res[i].range.1, id })
    }
}

/// Inserts `e` after every mapping whose raw side is not greater.
pub open spec fn insert_by_raw(s: Seq<PositionView>, e: PositionView) -> Seq<PositionView>
    decreases s.len(),
{
    if s.len() == 0 {
        seq![e]
    } else if s.last().raw <= e.raw {
        s.push(e)
    } else {
        insert_by_raw(s.drop_last(), e).push(s.last())
    }
}

/// `s` stably sorted by raw position.
pub open spec fn sort_by_raw(s: Seq<PositionView>) -> Seq<PositionView>
    decreases s.len(),
{
    if s.len() == 0 {
        s
    } else {
        insert_by_raw(sort_by_raw(s.drop_last()), s.last())
    }
}

proof fn lemma_insert_by_raw_at(s: Seq<PositionView>, e: PositionView, j: int)
    requires
        0 <= j <= s.len(),
        forall|m: int| j <= m < s.len() ==> (#[trigger] s[m]).raw > e.raw,
        j > 0 ==> s[j - 1].raw <= e.raw,
    ensures
        insert_by_raw(s, e) == s.take(j).push(e) + s.skip(j),
    decreases s.len(),
{
    if s.len() == j {
        assert(s.take(j) =~= s);
        assert(s.take(j).push(e) + s.skip(j) =~= s.push(e));
    } else {
        lemma_insert_by_raw_at(s.drop_last(), e, j);
        assert(s.drop_last().take(j).push(e) + s.drop_last().skip(j) + seq![s.last()] =~= s.take(
            j,
        ).push(e) + s.skip(j));
    }
}

/// Sorts position mappings by raw position, keeping the order of ties.
fn sort_positions(input: Vec<PositionMapping>) -> (r: Vec<PositionMapping>)
    ensures
        position_views(r@) == sort_by_raw(position_views(input@)),
{
    let ghost orig = input@;
    let mut rest = input;
    let mut r: Vec<PositionMapping> = Vec::new();
    let mut k: usize = 0;
    let n = rest.len();
    assert(position_views(orig.take(0)) =~= Seq::<PositionView>::empty());
    assert(rest@ =~= orig.skip(0));
    while k < n
        invariant
            n == orig.len(),
            k <= n,
            rest@ == orig.skip(k as int),
            position_views(r@) == sort_by_raw(position_views(orig.take(k as int))),
        decreases n - k,
    {
        let e = rest.remove(0);
        let mut j = r.len();
        while j > 0 && r[j - 1].raw_position > e.raw_position
            invariant
                j <= r@.len(),
                forall|m: int|
                    j <= m < r@.len() ==> (#[trigger] r@[m]).raw_position > e.raw_position,
            decreases j,
        {
            j -= 1;
        }
        proof {
            let vs = position_views(r@);
            assert forall|m: int| j <= m < vs.len() implies (#[trigger] vs[m]).raw > e@.raw by {
                assert(vs[m] == r@[m]@);
            }
            if j > 0 {
                assert(vs[j - 1] == r@[j - 1]@);
            }
            lemma_insert_by_raw_at(vs, e@, j as int);
            assert(position_views(orig.take(k + 1)).drop_last() =~= position_views(
                orig.take(k as int),
            ));
            assert(orig.take(k + 1).last() == orig[k as int]);
        }
        let ghost before = r@;
        r.insert(j, e);
        proof {
            assert(position_views(r@) =~= position_views(before).take(j as int).push(e@)
                + position_views(before).skip(j as int));
        }
        k += 1;
        proof {
            assert(rest@ =~= orig.skip(k as int));
        }
    }
    assert(orig.take(n as int) =~= orig);
    r
}

/// `element_i`.
fn element_id_string(i: usize) -> (r: String)
    ensures
        r@ == element_id(i as nat),
{
    let mut s = owned("element_");
    push_decimal(&mut s, i as u64);
    s
}

/// The element mappings after `handle_content_change`.
pub open spec fn elements_after_change(
    es: Seq<(Seq<char>, MappingView)>,
    change: PositionRange,
    delta: int,
) -> Seq<(Seq<char>, MappingView)>
    decreases es.len(),
{
    if es.len() == 0 {
        seq![]
    } else {
        let rest = elements_after_change(es.drop_last(), change, delta);
        let (id, m) = es.last();
        if m.raw.start >= change.end {
            rest.push(
                (
                    id,
                    MappingView {
                        raw: PositionRange {
                            start: (m.raw.start + delta) as usize,
                            end: wrap_usize(m.raw.end + delta) as usize,
                        },
                        ..m
                    },
                ),
            )
        } else if m.raw.end <= change.start {
            rest.push((id, m))
        } else {
            rest
        }
    }
}

/// The position mappings after `handle_content_change`.
pub open spec fn positions_after_change(
    ps: Seq<PositionView>,
    change: PositionRange,
    delta: int,
) -> Seq<PositionView>
    decreases ps.len(),
{
    if ps.len() == 0 {
        seq![]
    } else {
        let rest = positions_after_change(ps.drop_last(), change, delta);
        let p = ps.last();
        if p.raw >= change.end {
            rest.push(PositionView { raw: (p.raw + delta) as usize, ..p })
        } else if p.raw < change.start {
            rest.push(p)
        } else {
            rest
        }
    }
}

/// The `i32` arithmetic of `handle_content_change` stays in range.
pub open spec fn content_change_fits(m: ManagerView, change: PositionRange, new_len: int) -> bool {
    let delta = new_len - (change.end - change.start);
    &&& change.start <= change.end
    &&& new_len <= i32::MAX
    &&& change.end - change.start <= i32::MAX
    &&& m.raw_len <= i32::MAX
    &&& i32::MIN <= m.raw_len + delta <= i32::MAX
    &&& m.raw_position >= change.end ==> m.raw_position <= i32::MAX && m.raw_position + delta
        <= i32::MAX
    &&& change.start <= m.raw_position < change.end ==> change.start + new_len <= usize::MAX
    &&& forall|i: int|
        0 <= i < m.elements.len() && (#[trigger] m.elements[i]).1.raw.start >= change.end ==> {
            &&& m.elements[i].1.raw.start <= i32::MAX
            &&& m.elements[i].1.raw.end <= i32::MAX
            &&& m.elements[i].1.raw.start + delta <= i32::MAX
            &&& i32::MIN <= m.elements[i].1.raw.end + delta <= i32::MAX
        }
    &&& forall|i: int|
        0 <= i < m.positions.len() && (#[trigger] m.positions[i]).raw >= change.end ==> {
            &&& m.positions[i].raw <= i32::MAX
            &&& m.positions[i].raw + delta <= i32::MAX
        }
}

/// The entries whose mapping is active, in order.
pub open spec fn active_entries(es: Seq<(Seq<char>, MappingView)>) -> Seq<(Seq<char>, MappingView)>
    decreases es.len(),
{
    if es.len() == 0 {
        seq![]
    } else if es.last().1.active {
        active_entries(es.drop_last()).push(es.last())
    } else {
        active_entries(es.drop_last())
    }
}

/// Index of the first entry with id `k`.
pub open spec fn entry_index(es: Seq<(Seq<char>, MappingView)>, k: Seq<char>) -> Option<int>
    decreases es.len(),
{
    if es.len() == 0 {
        None
    } else {
        match entry_index(es.drop_last(), k) {
            Some(i) => Some(i),
            None => if es.last().0 == k {
                Some(es.len() - 1)
            } else {
                None
            },
        }
    }
}

/// `x` as a `usize` after an exact `i32` computation.
fn to_usize_wrapping(x: i64) -> (r: usize)
    requires
        i32::MIN <= x <= i32::MAX,
    ensures
        r == wrap_usize(x as int),
{
    if x >= 0 {
        x as usize
    } else {
        usize::MAX - ((-x - 1) as usize)
    }
}

proof fn lemma_entry_index_at(es: Seq<(Seq<char>, MappingView)>, k: Seq<char>, i: int)
    requires
        0 <= i < es.len(),
        entry_index(es.take(i), k) is None,
        es[i].0 == k,
    ensures
        entry_index(es, k) == Some(i),
    decreases es.len(),
{
    if es.len() == i + 1 {
        assert(es.take(i) =~= es.drop_last());
    } else {
        assert(es.drop_last().take(i) =~= es.take(i));
        lemma_entry_index_at(es.drop_last(), k, i);
    }
}

proof fn lemma_first_element_holding_at(
    es: Seq<(Seq<char>, MappingView)>,
    x: int,
    rendered: bool,
    i: int,
)
    requires
        0 <= i < es.len(),
        first_element_holding(es.take(i), x, rendered) is None,
        ({
            let r = if rendered {
                es[i].1.rendered
            } else {
                es[i].1.raw
            };
            r.start <= x < r.end
        }),
    ensures
        first_element_holding(es, x, rendered) == Some(i),
    decreases es.len(),
{
    if es.len() == i + 1 {
        assert(es.take(i) =~= es.drop_last());
    } else {
        assert(es.drop_last().take(i) =~= es.take(i));
        lemma_first_element_holding_at(es.drop_last(), x, rendered, i);
    }
}

proof fn lemma_first_position_at(ps: Seq<PositionView>, x: int, rendered: bool, i: int)
    requires
        0 <= i < ps.len(),
        rendered ==> first_rendered_position(ps.take(i), x) is None,
        !rendered ==> first_raw_position(ps.take(i), x) is None,
        rendered ==> ps[i].rendered == x,
        !rendered ==> ps[i].raw == x,
    ensures
        rendered ==> first_rendered_position(ps, x) == Some(i),
        !rendered ==> first_raw_position(ps, x) == Some(i),
    decreases ps.len(),
{
    if ps.len() == i + 1 {
        assert(ps.take(i) =~= ps.drop_last());
    } else {
        assert(ps.drop_last().take(i) =~= ps.take(i));
        lemma_first_position_at(ps.drop_last(), x, rendered, i);
    }
}

// ---------------------------------------------------------------------------
// Whole-manager specifications
// ---------------------------------------------------------------------------

/// `map_raw_to_rendered(x)` can measure the element it falls back to: that
/// element's rendered range is ordered.
pub open spec fn raw_mapping_defined(m: ManagerView, x: int) -> bool {
    first_raw_position(m.positions, x) is None ==> match first_element_holding(
        m.elements,
        x,
        false,
    ) {
        Some(j) => m.elements[j].1.rendered.start <= m.elements[j].1.rendered.end,
        None => true,
    }
}

/// `map_rendered_to_raw(x)` can measure the element it falls back to: that
/// element's raw range is ordered.
pub open spec fn rendered_mapping_defined(m: ManagerView, x: int) -> bool {
    first_rendered_position(m.positions, x) is None ==> match first_element_holding(
        m.elements,
        x,
        true,
    ) {
        Some(j) => m.elements[j].1.raw.start <= m.elements[j].1.raw.end,
        None => true,
    }
}

pub open spec fn to_opt_usize(o: Option<int>) -> Option<usize> {
    match o {
        Some(v) => Some(v as usize),
        None => None,
    }
}

/// The manager with no mappings and cursor at `p`.
pub open spec fn fresh_view(p: usize) -> ManagerView {
    ManagerView {
        raw_position: p,
        rendered_position: None,
        elements: seq![],
        positions: seq![],
        raw_len: 0,
        rendered_len: 0,
    }
}

/// The mappings that `update_element_mappings` builds, before the cursor
/// is mapped.
pub open spec fn rebuilt_view(
    m: ManagerView,
    ses: Seq<ElementView>,
    res: Seq<RenderedView>,
    raw_len: nat,
    rendered_len: nat,
) -> ManagerView {
    let n = min_int(ses.len() as int, res.len() as int);
    ManagerView {
        raw_position: m.raw_position,
        rendered_position: None,
        elements: built_elements(ses, res, n),
        positions: sort_by_raw(built_positions(ses, res, n)),
        raw_len: raw_len as usize,
        rendered_len: rendered_len as usize,
    }
}

/// The manager after `update_element_mappings`.
pub open spec fn updated_view(
    m: ManagerView,
    ses: Seq<ElementView>,
    res: Seq<RenderedView>,
    raw_len: nat,
    rendered_len: nat,
) -> ManagerView {
    let b = rebuilt_view(m, ses, res, raw_len, rendered_len);
    ManagerView {
        rendered_position: to_opt_usize(spec_raw_to_rendered(b, m.raw_position as int)),
        ..b
    }
}

/// The manager after replacing `change` with `new_len` bytes.
pub open spec fn changed_view(m: ManagerView, change: PositionRange, new_len: int) -> ManagerView {
    let delta = new_len - (change.end - change.start);
    ManagerView {
        raw_position: if m.raw_position >= change.end {
            (m.raw_position + delta) as usize
        } else if m.raw_position >= change.start {
            (change.start + new_len) as usize
        } else {
            m.raw_position
        },
        rendered_position: None,
        elements: elements_after_change(m.elements, change, delta),
        positions: positions_after_change(m.positions, change, delta),
        raw_len: wrap_usize(m.raw_len + delta) as usize,
        rendered_len: m.rendered_len,
    }
}

/// A cursor position on the first line at column and offset `p`.
pub open spec fn pos_at(p: int) -> CursorPosition {
    CursorPosition { line: 0, column: p as usize, absolute: p as usize }
}

/// The manager after a switch between raw (`true`) and rendered views, and
/// the cursor position it reports (`None` when the raw position cannot be
/// mapped).
pub open spec fn mode_switch_outcome(m: ManagerView, from_raw: bool, to_raw: bool) -> (
    ManagerView,
    Option<CursorPosition>,
) {
    if from_raw && !to_raw {
        match spec_raw_to_rendered(m, m.raw_position as int) {
            Some(p) => (ManagerView { rendered_position: Some(p as usize), ..m }, Some(pos_at(p))),
            None => (m, None),
        }
    } else if !from_raw && to_raw {
        match m.rendered_position {
            Some(rp) => {
                let q = spec_rendered_to_raw(m, rp as int);
                (ManagerView { raw_position: q as usize, ..m }, Some(pos_at(q)))
            },
            None => (m, Some(pos_at(m.raw_position as int))),
        }
    } else {
        (
            m,
            Some(
                pos_at(
                    if to_raw {
                        m.raw_position as int
                    } else {
                        match m.rendered_position {
                            Some(p) => p as int,
                            None => 0,
                        }
                    },
                ),
            ),
        )
    }
}

/// What `get_mapping_stats` reports.
pub open spec fn stats_of(m: ManagerView) -> MappingStats {
    MappingStats {
        element_count: m.elements.len() as usize,
        position_mapping_count: m.positions.len() as usize,
        active_element_count: active_entries(m.elements).len() as usize,
        raw_content_length: m.raw_len,
        rendered_content_length: m.rendered_len,
    }
}

/// The number of active elements among the first `n` of `ses`.
pub open spec fn count_active(ses: Seq<ElementView>, n: int) -> nat
    decreases n,
{
    if n <= 0 {
        0
    } else {
        count_active(ses, n - 1) + if ses[n - 1].active {
            1nat
        } else {
            0nat
        }
    }
}

proof fn lemma_insert_by_raw_len(s: Seq<PositionView>, e: PositionView)
    ensures
        insert_by_raw(s, e).len() == s.len() + 1,
    decreases s.len(),
{
    if s.len() > 0 && s.last().raw > e.raw {
        lemma_insert_by_raw_len(s.drop_last(), e);
    }
}

proof fn lemma_sort_by_raw_len(s: Seq<PositionView>)
    ensures
        sort_by_raw(s).len() == s.len(),
    decreases s.len(),
{
    if s.len() > 0 {
        lemma_sort_by_raw_len(s.drop_last());
        lemma_insert_by_raw_len(sort_by_raw(s.drop_last()), s.last());
    }
}

proof fn lemma_built_positions_len(ses: Seq<ElementView>, res: Seq<RenderedView>, n: int)
    requires
        n >= 0,
    ensures
        built_positions(ses, res, n).len() == 2 * n,
    decreases n,
{
    if n > 0 {
        lemma_built_positions_len(ses, res, n - 1);
    }
}

proof fn lemma_active_built(ses: Seq<ElementView>, res: Seq<RenderedView>, n: int)
    requires
        0 <= n,
    ensures
        active_entries(built_elements(ses, res, n)).len() == count_active(ses, n),
        count_active(ses, n) <= n,
    decreases n,
{
    if n > 0 {
        lemma_active_built(ses, res, n - 1);
        assert(built_elements(ses, res, n).drop_last() =~= built_elements(ses, res, n - 1));
    } else {
        assert(built_elements(ses, res, n) =~= Seq::<(Seq<char>, MappingView)>::empty());
    }
}

/// Rebuilding the mappings from `ses` and `res` (paired by index, `k` of
/// them) with contents of `raw_len` and `rendered_len` bytes leaves `k`
/// element mappings and `2 * k` position mappings, as many active ones as
/// the first `k` elements hold, those lengths, the raw cursor where it was,
/// and the rendered cursor where the new mappings map it.
pub proof fn lemma_update_mappings_stats(
    m: ManagerView,
    ses: Seq<ElementView>,
    res: Seq<RenderedView>,
    raw_len: nat,
    rendered_len: nat,
)
    requires
        2 * min_int(ses.len() as int, res.len() as int) <= usize::MAX,
        raw_len <= usize::MAX,
        rendered_len <= usize::MAX,
    ensures
        stats_of(updated_view(m, ses, res, raw_len, rendered_len)).element_count == min_int(
            ses.len() as int,
            res.len() as int,
        ),
        stats_of(updated_view(m, ses, res, raw_len, rendered_len)).position_mapping_count == 2
            * min_int(ses.len() as int, res.len() as int),
        stats_of(updated_view(m, ses, res, raw_len, rendered_len)).active_element_count
            == count_active(ses, min_int(ses.len() as int, res.len() as int)),
        stats_of(updated_view(m, ses, res, raw_len, rendered_len)).raw_content_length == raw_len,
        stats_of(updated_view(m, ses, res, raw_len, rendered_len)).rendered_content_length
            == rendered_len,
        updated_view(m, ses, res, raw_len, rendered_len).raw_position == m.raw_position,
        updated_view(m, ses, res, raw_len, rendered_len).rendered_position == to_opt_usize(
            spec_raw_to_rendered(updated_view(m, ses, res, raw_len, rendered_len), m.raw_position as int),
        ),
{
    let k = min_int(ses.len() as int, res.len() as int);
    lemma_built_positions_len(ses, res, k);
    lemma_sort_by_raw_len(built_positions(ses, res, k));
    lemma_active_built(ses, res, k);
    let b = rebuilt_view(m, ses, res, raw_len, rendered_len);
    let u = updated_view(m, ses, res, raw_len, rendered_len);
    assert(u.positions == b.positions && u.elements == b.elements);
    assert(spec_raw_to_rendered(u, m.raw_position as int) == spec_raw_to_rendered(
        b,
        m.raw_position as int,
    ));
}

impl CursorManager {
    pub fn new() -> (r: Self)
        ensures
            r@ == fresh_view(0),
    {
        let r = Self {
            raw_position: 0,
            rendered_position: None,
            element_mappings: Vec::new(),
            position_mappings: Vec::new(),
            raw_content_length: 0,
            rendered_content_length: 0,
        };
        assert(r@ =~= fresh_view(0));
        r
    }

    pub fn with_position(raw_position: usize) -> (r: Self)
        ensures
            r@ == fresh_view(raw_position),
    {
        let r = Self {
            raw_position,
            rendered_position: None,
            element_mappings: Vec::new(),
            position_mappings: Vec::new(),
            raw_content_length: 0,
            rendered_content_length: 0,
        };
        assert(r@ =~= fresh_view(raw_position));
        r
    }

    pub fn raw_position(&self) -> (p: usize)
        ensures
            p == self@.raw_position,
    {
        self.raw_position
    }

    pub fn rendered_position(&self) -> (p: Option<usize>)
        ensures
            p == self@.rendered_position,
    {
        self.rendered_position
    }

    /// Index of the first position mapping with the given raw (or rendered)
    /// side.
    fn find_position(&self, x: usize, rendered: bool) -> (r: Option<usize>)
        ensures
            !rendered ==> opt_int(r) == first_raw_position(self@.positions, x as int),
            rendered ==> opt_int(r) == first_rendered_position(self@.positions, x as int),
    {
        let mut i: usize = 0;
        while i < self.position_mappings.len()
            invariant
                i <= self@.positions.len(),
                self@.positions.len() == self.position_mappings@.len(),
                !rendered ==> first_raw_position(self@.positions.take(i as int), x as int) is None,
                rendered ==> first_rendered_position(self@.positions.take(i as int), x as int) is None,
            decreases self.position_mappings@.len() - i,
        {
            let pm = &self.position_mappings[i];
            assert(self@.positions[i as int] == pm@);
            let hit = if rendered {
                pm.rendered_position == x
            } else {
                pm.raw_position == x
            };
            if hit {
                proof {
                    lemma_first_position_at(self@.positions, x as int, rendered, i as int);
                }
                return Some(i);
            }
            assert(self@.positions.take(i + 1).drop_last() =~= self@.positions.take(i as int));
            i += 1;
        }
        assert(self@.positions.take(i as int) =~= self@.positions);
        None
    }

    /// Index of the first element mapping whose raw (or rendered) range
    /// holds `x`.
    fn find_element(&self, x: usize, rendered: bool) -> (r: Option<usize>)
        ensures
            opt_int(r) == first_element_holding(self@.elements, x as int, rendered),
    {
        let mut i: usize = 0;
        while i < self.element_mappings.len()
            invariant
                i <= self@.elements.len(),
                self@.elements.len() == self.element_mappings@.len(),
                first_element_holding(self@.elements.take(i as int), x as int, rendered) is None,
            decreases self.element_mappings@.len() - i,
        {
            let em = &self.element_mappings[i].1;
            assert(self@.elements[i as int].1 == em@);
            let hit = if rendered {
                em.rendered_range.contains(x)
            } else {
                em.raw_range.contains(x)
            };
            if hit {
                proof {
                    lemma_first_element_holding_at(self@.elements, x as int, rendered, i as int);
                }
                return Some(i);
            }
            assert(self@.elements.take(i + 1).drop_last() =~= self@.elements.take(i as int));
            i += 1;
        }
        assert(self@.elements.take(i as int) =~= self@.elements);
        None
    }

    /// Where raw position `raw_pos` lands in the rendered content: an exact
    /// position mapping first, then proportionally inside the first element
    /// holding it, then proportionally over the whole content.
    pub fn map_raw_to_rendered(&self, raw_pos: usize) -> (r: Option<usize>)
        requires
            raw_mapping_defined(self@, raw_pos as int),
        ensures
            opt_int(r) == spec_raw_to_rendered(self@, raw_pos as int),
    {
        proof {
            lemma_first_raw_position(self@.positions, raw_pos as int);
            lemma_first_element_holding(self@.elements, raw_pos as int, false);
        }
        match self.find_position(raw_pos, false) {
            Some(i) => {
                assert(self@.positions[i as int] == self.position_mappings@[i as int]@);
                return Some(self.position_mappings[i].rendered_position);
            },
            None => {},
        }
        match self.find_element(raw_pos, false) {
            Some(j) => {
                let em = &self.element_mappings[j].1;
                assert(self@.elements[j as int].1 == em@);
                let rel = raw_pos - em.raw_range.start;
                let raw_len = em.raw_range.len();
                if raw_len == 0 {
                    return Some(em.rendered_range.start);
                }
                let rendered_len = em.rendered_range.len();
                let off = scale_within(rel, raw_len, rendered_len);
                return Some(em.rendered_range.start + off);
            },
            None => {},
        }
        if self.raw_content_length > 0 && self.rendered_content_length > 0 {
            Some(scale_capped(raw_pos, self.raw_content_length, self.rendered_content_length))
        } else {
            None
        }
    }

    /// Where rendered position `rendered_pos` lands in the raw content.
    pub fn map_rendered_to_raw(&self, rendered_pos: usize) -> (r: usize)
        requires
            rendered_mapping_defined(self@, rendered_pos as int),
        ensures
            r == spec_rendered_to_raw(self@, rendered_pos as int),
    {
        proof {
            lemma_first_raw_position(self@.positions, rendered_pos as int);
            lemma_first_element_holding(self@.elements, rendered_pos as int, true);
        }
        match self.find_position(rendered_pos, true) {
            Some(i) => {
                assert(self@.positions[i as int] == self.position_mappings@[i as int]@);
                return self.position_mappings[i].raw_position;
            },
            None => {},
        }
        match self.find_element(rendered_pos, true) {
            Some(j) => {
                let em = &self.element_mappings[j].1;
                assert(self@.elements[j as int].1 == em@);
                let rel = rendered_pos - em.rendered_range.start;
                let rendered_len = em.rendered_range.len();
                if rendered_len == 0 {
                    return em.raw_range.start;
                }
                let raw_len = em.raw_range.len();
                let off = scale_within(rel, rendered_len, raw_len);
                return em.raw_range.start + off;
            },
            None => {},
        }
        if self.rendered_content_length > 0 && self.raw_content_length > 0 {
            scale_capped(rendered_pos, self.rendered_content_length, self.raw_content_length)
        } else if rendered_pos < self.raw_content_length {
            rendered_pos
        } else {
            self.raw_content_length
        }
    }
    /// Rebuilds the mappings from parsed elements and their renderings,
    /// paired by index, and maps the cursor into the rendered content.
    /// Lengths count UTF-8 bytes.
    pub fn update_element_mappings(
        &mut self,
        syntax_elements: &[SyntaxElement],
        rendered_elements: &[RenderedElement],
        raw_content: &str,
        rendered_content: &str,
    )
        requires
            raw_mapping_defined(
                rebuilt_view(
                    old(self)@,
                    views(syntax_elements@),
                    rendered_views(rendered_elements@),
                    byte_len(raw_content@),
                    byte_len(rendered_content@),
                ),
                old(self)@.raw_position as int,
            ),
        ensures
            final(self)@ == updated_view(
                old(self)@,
                views(syntax_elements@),
                rendered_views(rendered_elements@),
                byte_len(raw_content@),
                byte_len(rendered_content@),
            ),
    {
        let ghost ses = views(syntax_elements@);
        let ghost res = rendered_views(rendered_elements@);
        let n = if syntax_elements.len() < rendered_elements.len() {
            syntax_elements.len()
        } else {
            rendered_elements.len()
        };
        let mut elems: Vec<(String, ElementMapping)> = Vec::new();
        let mut poss: Vec<PositionMapping> = Vec::new();
        let mut i: usize = 0;
        assert(element_views(elems@) =~= built_elements(ses, res, 0));
        while i < n
            invariant
                n <= syntax_elements@.len(),
                n <= rendered_elements@.len(),
                ses == views(syntax_elements@),
                res == rendered_views(rendered_elements@),
                i <= n,
                element_views(elems@) == built_elements(ses, res, i as int),
                position_views(poss@) == built_positions(ses, res, i as int),
            decreases n - i,
        {
            let se = &syntax_elements[i];
            let re = &rendered_elements[i];
            assert(ses[i as int] == se@);
            assert(res[i as int] == re@);
            let id = element_id_string(i);
            let mapping = ElementMapping {
                raw_range: se.range,
                rendered_range: PositionRange::new(re.position_range.0, re.position_range.1),
                element_type: element_type_debug(&se.element_type),
                is_active: se.is_active,
            };
            let ghost before_e = elems@;
            let ghost before_p = poss@;
            poss.push(
                PositionMapping {
                    raw_position: se.range.start,
                    rendered_position: re.position_range.0,
                    element_id: Some(id.clone()),
                },
            );
            poss.push(
                PositionMapping {
                    raw_position: se.range.end,
                    rendered_position: re.position_range.1,
                    element_id: Some(id.clone()),
                },
            );
            elems.push((id, mapping));
            proof {
                assert(element_views(elems@) =~= element_views(before_e).push(
                    (element_id(i as nat), mapping_of(ses[i as int], res[i as int])),
                ));
                assert(element_views(elems@) =~= built_elements(ses, res, i + 1));
                let b = before_p.len() as int;
                assert(poss@ =~= before_p.push(poss@[b]).push(poss@[b + 1]));
                assert(position_views(poss@) =~= position_views(before_p).push(poss@[b]@).push(
                    poss@[b + 1]@,
                ));
            }
            i += 1;
        }
        self.raw_content_length = raw_content.len();
        self.rendered_content_length = rendered_content.len();
        self.element_mappings = elems;
        self.position_mappings = sort_positions(poss);
        self.rendered_position = None;
        assert(self@ =~= rebuilt_view(old(self)@, ses, res, byte_len(raw_content@), byte_len(rendered_content@)));
        self.rendered_position = self.map_raw_to_rendered(self.raw_position);
        assert(self@ =~= updated_view(old(self)@, ses, res, byte_len(raw_content@), byte_len(rendered_content@)));
    }

    /// Adjusts the cursor and the mappings after `change_range` was replaced
    /// by `new_content`: what follows the change moves by the difference in
    /// length, what overlaps it is dropped, and the rendered cursor is
    /// forgotten.
    pub fn handle_content_change(
        &mut self,
        change_range: &PositionRange,
        _old_content: &str,
        new_content: &str,
    )
        requires
            content_change_fits(old(self)@, *change_range, byte_len(new_content@) as int),
        ensures
            final(self)@ == changed_view(old(self)@, *change_range, byte_len(new_content@) as int),
    {
        let ghost m = self@;
        let new_len = new_content.len();
        let span = change_range.end - change_range.start;
        let delta: i64 = new_len as i64 - span as i64;
        let ghost d: int = delta as int;
        self.raw_content_length = to_usize_wrapping(self.raw_content_length as i64 + delta);
        if self.raw_position >= change_range.end {
            self.raw_position = to_usize_wrapping(self.raw_position as i64 + delta);
        } else if self.raw_position >= change_range.start {
            self.raw_position = change_range.start + new_len;
        }
        let mut old_elems: Vec<(String, ElementMapping)> = Vec::new();
        std::mem::swap(&mut old_elems, &mut self.element_mappings);
        let ghost orig = old_elems@;
        assert(element_views(orig) == m.elements);
        let mut kept: Vec<(String, ElementMapping)> = Vec::new();
        let mut k: usize = 0;
        let total = old_elems.len();
        assert(old_elems@ =~= orig.skip(0));
        assert(element_views(orig.take(0)) =~= Seq::<(Seq<char>, MappingView)>::empty());
        while k < total
            invariant
                total == orig.len(),
                k <= total,
                old_elems@ == orig.skip(k as int),
                element_views(orig) == m.elements,
                content_change_fits(m, *change_range, new_len as int),
                d == new_len - (change_range.end - change_range.start),
                delta == d,
                element_views(kept@) == elements_after_change(
                    element_views(orig.take(k as int)),
                    *change_range,
                    d,
                ),
            decreases total - k,
        {
            let (id, mut mapping) = old_elems.remove(0);
            assert(m.elements[k as int] == (id@, mapping@));
            let ghost before = kept@;
            proof {
                assert(element_views(orig.take(k + 1)).drop_last() =~= element_views(
                    orig.take(k as int),
                ));
                assert(element_views(orig.take(k + 1)).last() == (id@, mapping@));
            }
            if mapping.raw_range.start >= change_range.end {
                mapping.raw_range.start = to_usize_wrapping(mapping.raw_range.start as i64 + delta);
                mapping.raw_range.end = to_usize_wrapping(mapping.raw_range.end as i64 + delta);
                kept.push((id, mapping));
                assert(element_views(kept@) =~= element_views(before).push(kept@.last()@));
                proof {
                    assert(element_views(kept@) =~= element_views(before).push(
                        (kept@.last().0@, kept@.last().1@),
                    ));
                }
            } else if mapping.raw_range.end <= change_range.start {
                kept.push((id, mapping));
                proof {
                    assert(element_views(kept@) =~= element_views(before).push(
                        (kept@.last().0@, kept@.last().1@),
                    ));
                }
            }
            k += 1;
            assert(old_elems@ =~= orig.skip(k as int));
        }
        assert(orig.take(total as int) =~= orig);
        self.element_mappings = kept;

        let mut old_pos: Vec<PositionMapping> = Vec::new();
        std::mem::swap(&mut old_pos, &mut self.position_mappings);
        let ghost porig = old_pos@;
        assert(position_views(porig) == m.positions);
        let mut pkept: Vec<PositionMapping> = Vec::new();
        let mut q: usize = 0;
        let ptotal = old_pos.len();
        assert(old_pos@ =~= porig.skip(0));
        assert(position_views(porig.take(0)) =~= Seq::<PositionView>::empty());
        while q < ptotal
            invariant
                ptotal == porig.len(),
                q <= ptotal,
                old_pos@ == porig.skip(q as int),
                position_views(porig) == m.positions,
                content_change_fits(m, *change_range, new_len as int),
                d == new_len - (change_range.end - change_range.start),
                delta == d,
                position_views(pkept@) == positions_after_change(
                    position_views(porig.take(q as int)),
                    *change_range,
                    d,
                ),
            decreases ptotal - q,
        {
            let mut pm = old_pos.remove(0);
            assert(m.positions[q as int] == pm@);
            let ghost before = pkept@;
            proof {
                assert(position_views(porig.take(q + 1)).drop_last() =~= position_views(
                    porig.take(q as int),
                ));
                assert(position_views(porig.take(q + 1)).last() == pm@);
            }
            if pm.raw_position >= change_range.end {
                pm.raw_position = to_usize_wrapping(pm.raw_position as i64 + delta);
                pkept.push(pm);
                assert(position_views(pkept@) =~= position_views(before).push(pkept@.last()@));
            } else if pm.raw_position < change_range.start {
                pkept.push(pm);
                assert(position_views(pkept@) =~= position_views(before).push(pkept@.last()@));
            }
            q += 1;
            assert(old_pos@ =~= porig.skip(q as int));
        }
        assert(porig.take(ptotal as int) =~= porig);
        self.position_mappings = pkept;
        self.rendered_position = None;
        assert(self@ =~= changed_view(m, *change_range, new_len as int));
    }
    /// Carries the cursor across a switch between raw and rendered views.
    pub fn preserve_position_for_mode_switch(&mut self, from_raw: bool, to_raw: bool) -> (r:
        Result<CursorPosition, String>)
        requires
            from_raw && !to_raw ==> raw_mapping_defined(old(self)@, old(self)@.raw_position as int),
            !from_raw && to_raw ==> (old(self)@.rendered_position matches Some(p)
                ==> rendered_mapping_defined(old(self)@, p as int)),
        ensures
            final(self)@ == mode_switch_outcome(old(self)@, from_raw, to_raw).0,
            match mode_switch_outcome(old(self)@, from_raw, to_raw).1 {
                Some(p) => r == Ok::<CursorPosition, String>(p),
                None => r matches Err(e) && e@ == "Could not map raw position to rendered position"@,
            },
    {
        if from_raw && !to_raw {
            match self.map_raw_to_rendered(self.raw_position) {
                Some(rendered_pos) => {
                    self.rendered_position = Some(rendered_pos);
                    assert(self@ =~= ManagerView { rendered_position: Some(rendered_pos), ..old(self)@ });
                    Ok(CursorPosition::new(0, rendered_pos, rendered_pos))
                },
                None => Err(owned("Could not map raw position to rendered position")),
            }
        } else if !from_raw && to_raw {
            match self.rendered_position {
                Some(rendered_pos) => {
                    let raw_pos = self.map_rendered_to_raw(rendered_pos);
                    self.raw_position = raw_pos;
                    assert(self@ =~= ManagerView { raw_position: raw_pos, ..old(self)@ });
                    Ok(CursorPosition::new(0, raw_pos, raw_pos))
                },
                None => Ok(CursorPosition::new(0, self.raw_position, self.raw_position)),
            }
        } else {
            let position = if to_raw {
                self.raw_position
            } else {
                match self.rendered_position {
                    Some(p) => p,
                    None => 0,
                }
            };
            Ok(CursorPosition::new(0, position, position))
        }
    }

    /// The first element mapping whose raw range holds the cursor.
    pub fn get_element_at_cursor(&self) -> (r: Option<&ElementMapping>)
        ensures
            match first_element_holding(self@.elements, self@.raw_position as int, false) {
                Some(j) => r matches Some(m) && m@ == self@.elements[j].1,
                None => r is None,
            },
    {
        proof {
            lemma_first_element_holding(self@.elements, self@.raw_position as int, false);
        }
        match self.find_element(self.raw_position, false) {
            Some(j) => {
                assert(self@.elements[j as int].1 == self.element_mappings@[j as int].1@);
                Some(&self.element_mappings[j].1)
            },
            None => None,
        }
    }

    /// Whether the element at the cursor is active.
    pub fn is_cursor_in_active_element(&self) -> (b: bool)
        ensures
            b == match first_element_holding(self@.elements, self@.raw_position as int, false) {
                Some(j) => self@.elements[j].1.active,
                None => false,
            },
    {
        match self.get_element_at_cursor() {
            Some(m) => m.is_active,
            None => false,
        }
    }

    /// Marks the element mapping with the given id active or inactive; an
    /// unknown id changes nothing.
    pub fn set_element_active(&mut self, element_id: &str, active: bool)
        ensures
            final(self)@ == match entry_index(old(self)@.elements, element_id@) {
                Some(i) => ManagerView {
                    elements: old(self)@.elements.update(
                        i,
                        (
                            old(self)@.elements[i].0,
                            MappingView { active, ..old(self)@.elements[i].1 },
                        ),
                    ),
                    ..old(self)@
                },
                None => old(self)@,
            },
    {
        let ghost es = self@.elements;
        let mut i: usize = 0;
        while i < self.element_mappings.len()
            invariant
                i <= es.len(),
                es.len() == self.element_mappings@.len(),
                self@ == old(self)@,
                es == old(self)@.elements,
                entry_index(es.take(i as int), element_id@) is None,
            decreases es.len() - i,
        {
            assert(es[i as int].0 == self.element_mappings@[i as int].0@);
            if crate::text::str_eq(self.element_mappings[i].0.as_str(), element_id) {
                proof {
                    lemma_entry_index_at(es, element_id@, i as int);
                }
                let mut entry = self.element_mappings.remove(i);
                entry.1.is_active = active;
                self.element_mappings.insert(i, entry);
                assert(self@ =~= ManagerView {
                    elements: es.update(i as int, (es[i as int].0, MappingView { active, ..es[i as int].1 })),
                    ..old(self)@
                });
                return;
            }
            assert(es.take(i + 1).drop_last() =~= es.take(i as int));
            i += 1;
        }
        assert(es.take(i as int) =~= es);
    }

    /// The active element mappings with their ids, in order.
    pub fn get_active_elements(&self) -> (r: Vec<(&String, &ElementMapping)>)
        ensures
            r@.map_values(|p: (&String, &ElementMapping)| (p.0@, p.1@)) == active_entries(
                self@.elements,
            ),
    {
        let mut r: Vec<(&String, &ElementMapping)> = Vec::new();
        let mut i: usize = 0;
        while i < self.element_mappings.len()
            invariant
                i <= self@.elements.len(),
                self@.elements.len() == self.element_mappings@.len(),
                r@.map_values(|p: (&String, &ElementMapping)| (p.0@, p.1@)) == active_entries(
                    self@.elements.take(i as int),
                ),
            decreases self@.elements.len() - i,
        {
            let entry = &self.element_mappings[i];
            assert(self@.elements[i as int] == (entry.0@, entry.1@));
            let ghost before = r@;
            assert(self@.elements.take(i + 1).drop_last() =~= self@.elements.take(i as int));
            if entry.1.is_active {
                r.push((&entry.0, &entry.1));
                assert(r@.map_values(|p: (&String, &ElementMapping)| (p.0@, p.1@)) =~= before.map_values(
                    |p: (&String, &ElementMapping)| (p.0@, p.1@),
                ).push((entry.0@, entry.1@)));
            }
            i += 1;
        }
        assert(self@.elements.take(i as int) =~= self@.elements);
        r
    }

    /// Drops every mapping and the rendered cursor.
    pub fn clear_mappings(&mut self)
        ensures
            final(self)@ == (ManagerView {
                elements: seq![],
                positions: seq![],
                rendered_position: None,
                ..old(self)@
            }),
    {
        self.element_mappings = Vec::new();
        self.position_mappings = Vec::new();
        self.rendered_position = None;
        assert(self@ =~= ManagerView {
            elements: seq![],
            positions: seq![],
            rendered_position: None,
            ..old(self)@
        });
    }

    /// Counts of mappings and content lengths.
    pub fn get_mapping_stats(&self) -> (r: MappingStats)
        ensures
            r == stats_of(self@),
    {
        let mut count: usize = 0;
        let mut i: usize = 0;
        while i < self.element_mappings.len()
            invariant
                i <= self@.elements.len(),
                self@.elements.len() == self.element_mappings@.len(),
                count == active_entries(self@.elements.take(i as int)).len(),
                count <= i,
            decreases self@.elements.len() - i,
        {
            assert(self@.elements[i as int].1.active == self.element_mappings@[i as int].1.is_active);
            assert(self@.elements.take(i + 1).drop_last() =~= self@.elements.take(i as int));
            if self.element_mappings[i].1.is_active {
                count += 1;
            }
            i += 1;
        }
        assert(self@.elements.take(i as int) =~= self@.elements);
        MappingStats {
            element_count: self.element_mappings.len(),
            position_mapping_count: self.position_mappings.len(),
            active_element_count: count,
            raw_content_length: self.raw_content_length,
            rendered_content_length: self.rendered_content_length,
        }
    }
}

impl Default for CursorManager {
    fn default() -> (r: Self)
        ensures
            r@ == fresh_view(0),
    {
        Self::new()
    }
}

} // verus!
