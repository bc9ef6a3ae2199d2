//! Syntax parser for real-time markdown element detection. Positions are
//! byte offsets into the text, as `str` indices are: lines are laid out by
//! their UTF-8 byte lengths, and an inline element starts at the byte
//! offset of its first character and spans as many positions as it has
//! characters.
use vstd::prelude::*;

use crate::text::{
    byte_len, byte_line_offset, byte_offsets, char_index, char_index_of, chars_of,
    is_char_boundary_at, lemma_byte_len_bounds, lemma_byte_len_split, lemma_byte_prefix_strict,
    lemma_span_bytes, line_spans, offsets_of, spans_ok, string_of, ws_prefix_len_of, digit_value,
    has_prefix_at, is_digit, lines, occurs_at, trim_start, ws_prefix_len,
};

verus! {

broadcast use vstd::string::group_string_axioms;

/// Position range within the document: `start` inclusive, `end` exclusive.
#[derive(Debug, Clone, Copy, PartialEq, Eq, Structural)]
pub struct PositionRange {
    /// Start position (inclusive)
    pub start: usize,
    /// End position (exclusive)
    pub end: usize,
}

impl PositionRange {
    /// Create a new position range
    pub fn new(start: usize, end: usize) -> (r: Self)
        ensures
            r.start == start,
            r.end == end,
    {
        Self { start, end }
    }

    /// Check if this range contains a position
    pub fn contains(&self, position: usize) -> (b: bool)
        ensures
            b == (self.start <= position < self.end),
    {
        position >= self.start && position < self.end
    }

    /// Check if this range overlaps with another range
    pub fn overlaps(&self, other: &PositionRange) -> (b: bool)
        ensures
            b == spec_overlaps(*self, *other),
    {
        self.start < other.end && other.start < self.end
    }

    /// Get the length of this range
    pub fn len(&self) -> (n: usize)
        requires
            self.start <= self.end,
        ensures
            n == self.end - self.start,
    {
        self.end - self.start
    }

    /// Check if this range is empty
    pub fn is_empty(&self) -> (b: bool)
        ensures
            b == (self.start >= self.end),
    {
        self.start >= self.end
    }
}

/// Whether two ranges share a position.
pub open spec fn spec_overlaps(a: PositionRange, b: PositionRange) -> bool {
    a.start < b.end && b.start < a.end
}

/// Whether `p` lies in `r`.
pub open spec fn in_range(r: PositionRange, p: int) -> bool {
    r.start <= p < r.end
}

/// Overlap is symmetric, and two non-empty ranges overlap exactly when
/// some position lies in both.
pub proof fn lemma_overlaps_symmetric(a: PositionRange, b: PositionRange)
    ensures
        spec_overlaps(a, b) == spec_overlaps(b, a),
        a.start < a.end && b.start < b.end ==> (spec_overlaps(a, b) <==> exists|p: int|
            #[trigger] in_range(a, p) && in_range(b, p)),
{
    if spec_overlaps(a, b) && a.start < a.end && b.start < b.end {
        let p = if a.start <= b.start {
            b.start as int
        } else {
            a.start as int
        };
        assert(in_range(a, p) && in_range(b, p));
    }
}

/// A range that contains some position is not empty.
pub proof fn lemma_contains_not_empty(r: PositionRange, p: int)
    requires
        r.start <= p < r.end,
    ensures
        !(r.start >= r.end),
        r.end - r.start > 0,
{
}

/// Types of markdown syntax elements
#[derive(Debug, PartialEq, Eq)]
pub enum SyntaxElementType {
    /// Header elements (# ## ### etc.)
    Header { level: u8 },
    /// Bold text (**text** or __text__)
    Bold,
    /// Italic text (*text* or _text_)
    Italic,
    /// Inline code (`code`)
    InlineCode,
    /// Code block (```code```)
    CodeBlock { language: Option<String> },
    /// Link ([text](url))
    Link { url: String, title: Option<String> },
    /// Unordered list item (- item or * item)
    UnorderedListItem { level: u8 },
    /// Ordered list item (1. item)
    OrderedListItem { level: u8, number: u32 },
}

/// What a `SyntaxElementType` says, with strings as character sequences.
pub enum ElementKind {
    Header { level: u8 },
    Bold,
    Italic,
    InlineCode,
    CodeBlock { language: Option<Seq<char>> },
    Link { url: Seq<char>, title: Option<Seq<char>> },
    UnorderedListItem { level: u8 },
    OrderedListItem { level: u8, number: u32 },
}

pub open spec fn opt_string_view(o: Option<String>) -> Option<Seq<char>> {
    match o {
        Some(s) => Some(s@),
        None => None,
    }
}

pub fn clone_opt_string(o: &Option<String>) -> (r: Option<String>)
    ensures
        opt_string_view(r) == opt_string_view(*o),
{
    match o {
        Some(s) => Some(s.clone()),
        None => None,
    }
}

impl View for SyntaxElementType {
    type V = ElementKind;

    open spec fn view(&self) -> ElementKind {
        match self {
            SyntaxElementType::Header { level } => ElementKind::Header { level: *level },
            SyntaxElementType::Bold => ElementKind::Bold,
            SyntaxElementType::Italic => ElementKind::Italic,
            SyntaxElementType::InlineCode => ElementKind::InlineCode,
            SyntaxElementType::CodeBlock { language } => ElementKind::CodeBlock {
                language: opt_string_view(*language),
            },
            SyntaxElementType::Link { url, title } => ElementKind::Link {
                url: url@,
                title: opt_string_view(*title),
            },
            SyntaxElementType::UnorderedListItem { level } => ElementKind::UnorderedListItem {
                level: *level,
            },
            SyntaxElementType::OrderedListItem { level, number } => ElementKind::OrderedListItem {
                level: *level,
                number: *number,
            },
        }
    }
}

impl Clone for SyntaxElementType {
    fn clone(&self) -> (r: Self)
        ensures
            r@ == self@,
    {
        match self {
            SyntaxElementType::Header { level } => SyntaxElementType::Header { level: *level },
            SyntaxElementType::Bold => SyntaxElementType::Bold,
            SyntaxElementType::Italic => SyntaxElementType::Italic,
            SyntaxElementType::InlineCode => SyntaxElementType::InlineCode,
            SyntaxElementType::CodeBlock { language } => SyntaxElementType::CodeBlock {
                language: clone_opt_string(language),
            },
            SyntaxElementType::Link { url, title } => SyntaxElementType::Link {
                url: url.clone(),
                title: clone_opt_string(title),
            },
            SyntaxElementType::UnorderedListItem { level } => SyntaxElementType::UnorderedListItem {
                level: *level,
            },
            SyntaxElementType::OrderedListItem { level, number } =>
                SyntaxElementType::OrderedListItem { level: *level, number: *number },
        }
    }
}

/// A syntax element with its position and content
#[derive(Debug, PartialEq, Eq)]
pub struct SyntaxElement {
    /// Type of the syntax element
    pub element_type: SyntaxElementType,
    /// Position range in the document
    pub range: PositionRange,
    /// Raw content including markdown syntax
    pub raw_content: String,
    /// Rendered content without markdown syntax
    pub rendered_content: String,
    /// Whether this element is currently being edited
    pub is_active: bool,
}

/// What a `SyntaxElement` says.
#[verifier::ext_equal]
pub struct ElementView {
    pub kind: ElementKind,
    pub start: nat,
    pub end: nat,
    pub raw: Seq<char>,
    pub rendered: Seq<char>,
    pub active: bool,
}

impl View for SyntaxElement {
    type V = ElementView;

    open spec fn view(&self) -> ElementView {
        ElementView {
            kind: self.element_type@,
            start: self.range.start as nat,
            end: self.range.end as nat,
            raw: self.raw_content@,
            rendered: self.rendered_content@,
            active: self.is_active,
        }
    }
}

impl Clone for SyntaxElement {
    fn clone(&self) -> (r: Self)
        ensures
            r@ == self@,
    {
        SyntaxElement {
            element_type: self.element_type.clone(),
            range: self.range,
            raw_content: self.raw_content.clone(),
            rendered_content: self.rendered_content.clone(),
            is_active: self.is_active,
        }
    }
}

/// A freshly parsed, inactive element.
pub open spec fn elem(kind: ElementKind, start: int, end: int, raw: Seq<char>, rendered: Seq<
    char,
>) -> ElementView {
    ElementView { kind, start: start as nat, end: end as nat, raw, rendered, active: false }
}

pub open spec fn views(s: Seq<SyntaxElement>) -> Seq<ElementView> {
    s.map_values(|e: SyntaxElement| e@)
}

pub open spec fn opt_view(o: Option<SyntaxElement>) -> Option<ElementView> {
    match o {
        Some(e) => Some(e@),
        None => None,
    }
}

pub open spec fn opt_seq(o: Option<ElementView>) -> Seq<ElementView> {
    match o {
        Some(e) => seq![e],
        None => seq![],
    }
}

impl SyntaxElement {
    /// Create a new syntax element
    pub fn new(
        element_type: SyntaxElementType,
        range: PositionRange,
        raw_content: String,
        rendered_content: String,
    ) -> (r: Self)
        ensures
            r.element_type == element_type,
            r.range == range,
            r.raw_content == raw_content,
            r.rendered_content == rendered_content,
            !r.is_active,
    {
        Self { element_type, range, raw_content, rendered_content, is_active: false }
    }

    /// Check if this element contains a cursor position
    pub fn contains_cursor(&self, cursor_position: usize) -> (b: bool)
        ensures
            b == (self.range.start <= cursor_position < self.range.end),
    {
        self.range.contains(cursor_position)
    }

    /// Set the active state of this element
    pub fn set_active(&mut self, active: bool)
        ensures
            final(self)@ == (ElementView { active, ..old(self)@ }),
    {
        self.is_active = active;
    }
}

// ---------------------------------------------------------------------------
// Specification of the parser
// ---------------------------------------------------------------------------

/// First index `j >= from` with `s[j] == c`.
pub open spec fn find_char(s: Seq<char>, c: char, from: int) -> Option<int>
    decreases s.len() - from,
{
    if from < 0 || from >= s.len() {
        None
    } else if s[from] == c {
        Some(from)
    } else {
        find_char(s, c, from + 1)
    }
}

/// First index `j >= from` with `s[j] == m`, and, for a double marker,
/// `s[j + 1] == m` too.
pub open spec fn find_closing_marker(s: Seq<char>, m: char, double: bool, from: int) -> Option<
    int,
>
    decreases s.len() - from,
{
    if from < 0 || from >= s.len() {
        None
    } else if s[from] == m && (!double || (from + 1 < s.len() && s[from + 1] == m)) {
        Some(from)
    } else {
        find_closing_marker(s, m, double, from + 1)
    }
}

/// Number of `'#'` at the start of `t`.
pub open spec fn leading_hashes(t: Seq<char>) -> nat
    decreases t.len(),
{
    if t.len() == 0 || t[0] != '#' {
        0
    } else {
        1 + leading_hashes(t.drop_first())
    }
}

/// Header level of a trimmed line: the leading `'#'`, at most six.
pub open spec fn header_level(t: Seq<char>) -> nat {
    if leading_hashes(t) > 6 {
        6
    } else {
        leading_hashes(t)
    }
}

/// What follows the header marker: the scan over the `'#'` also consumes
/// the character that ended it.
pub open spec fn header_rest(t: Seq<char>) -> Seq<char> {
    if header_level(t) < t.len() {
        t.skip(header_level(t) as int + 1)
    } else {
        seq![]
    }
}

/// The header element of one line, if the line is a header.
pub open spec fn spec_header_line(line: Seq<char>, off: int) -> Option<ElementView> {
    let t = trim_start(line);
    let text = trim_start(header_rest(t));
    if t.len() == 0 || t[0] != '#' || text.len() == 0 {
        None
    } else {
        Some(
            elem(
                ElementKind::Header { level: header_level(t) as u8 },
                off + byte_len(line.take(ws_prefix_len(line) as int)),
                off + byte_len(line),
                line,
                text,
            ),
        )
    }
}

/// Emphasis starting at `s[0]`, if it is closed.
pub open spec fn spec_emphasis(s: Seq<char>, off: int) -> Option<ElementView> {
    if s.len() == 0 || (s[0] != '*' && s[0] != '_') {
        None
    } else {
        let m = s[0];
        let double = s.len() > 1 && s[1] == m;
        let ml: int = if double {
            2
        } else {
            1
        };
        match find_closing_marker(s, m, double, ml) {
            Some(j) => if double {
                Some(
                    elem(
                        ElementKind::Bold,
                        off,
                        off + j + 2,
                        s.subrange(0, j + 2),
                        s.subrange(ml, j),
                    ),
                )
            } else {
                Some(
                    elem(
                        ElementKind::Italic,
                        off,
                        off + j + 1,
                        s.subrange(0, j + 1),
                        s.subrange(ml, j),
                    ),
                )
            },
            None => None,
        }
    }
}

/// Whether `s[k]` closes emphasis opened by `m` (doubled or not).
pub open spec fn closes_at(s: Seq<char>, m: char, double: bool, k: int) -> bool {
    s[k] == m && (!double || (k + 1 < s.len() && s[k + 1] == m))
}

proof fn lemma_find_closing_first(s: Seq<char>, m: char, double: bool, from: int, j: int)
    requires
        0 <= from <= j < s.len(),
        closes_at(s, m, double, j),
        forall|k: int| from <= k < j ==> !closes_at(s, m, double, k),
    ensures
        find_closing_marker(s, m, double, from) == Some(j),
    decreases j - from,
{
    if from < j {
        assert(!closes_at(s, m, double, from));
        lemma_find_closing_first(s, m, double, from + 1, j);
    }
}

proof fn lemma_find_closing_none(s: Seq<char>, m: char, double: bool, from: int)
    requires
        0 <= from,
        forall|k: int| from <= k < s.len() ==> !closes_at(s, m, double, k),
    ensures
        find_closing_marker(s, m, double, from) is None,
    decreases s.len() - from,
{
    if from < s.len() {
        assert(!closes_at(s, m, double, from));
        lemma_find_closing_none(s, m, double, from + 1);
    }
}

/// Both `*` and `_` open emphasis. A single marker `m` (`*` or `_`) closed
/// by the next `m` is italic: the element spans both markers and shows
/// the text between them. A doubled marker closed by the next doubled one
/// is bold, spanning all four markers.
pub proof fn lemma_emphasis_markers(s: Seq<char>, off: int, m: char, j: int)
    requires
        m == '*' || m == '_',
        s.len() > 0,
        s[0] == m,
    ensures
        (!(s.len() > 1 && s[1] == m) && 1 <= j < s.len() && s[j] == m && (forall|k: int|
            1 <= k < j ==> s[k] != m)) ==> spec_emphasis(s, off) == Some(
            elem(ElementKind::Italic, off, off + j + 1, s.subrange(0, j + 1), s.subrange(1, j)),
        ),
        (s.len() > 1 && s[1] == m && 2 <= j && j + 1 < s.len() && s[j] == m && s[j + 1] == m
            && (forall|k: int| 2 <= k < j ==> !(#[trigger] s[k] == m && k + 1 < s.len() && s[k + 1]
            == m))) ==> spec_emphasis(s, off) == Some(
            elem(ElementKind::Bold, off, off + j + 2, s.subrange(0, j + 2), s.subrange(2, j)),
        ),
        (!(s.len() > 1 && s[1] == m) && (forall|k: int| 1 <= k < s.len() ==> s[k] != m))
            ==> spec_emphasis(s, off) is None,
{
    let double = s.len() > 1 && s[1] == m;
    if !double && 1 <= j < s.len() && s[j] == m && (forall|k: int| 1 <= k < j ==> s[k] != m) {
        lemma_find_closing_first(s, m, false, 1, j);
    }
    if double && 2 <= j && j + 1 < s.len() && s[j] == m && s[j + 1] == m && (forall|k: int|
        2 <= k < j ==> !(#[trigger] s[k] == m && k + 1 < s.len() && s[k + 1] == m)) {
        lemma_find_closing_first(s, m, true, 2, j);
    }
    if !double && (forall|k: int| 1 <= k < s.len() ==> s[k] != m) {
        lemma_find_closing_none(s, m, false, 1);
    }
}

proof fn lemma_find_char_is(s: Seq<char>, c: char, from: int, j: int)
    requires
        0 <= from <= j < s.len(),
        s[j] == c,
        forall|k: int| from <= k < j ==> s[k] != c,
    ensures
        find_char(s, c, from) == Some(j),
    decreases j - from,
{
    if from < j {
        lemma_find_char_is(s, c, from + 1, j);
    }
}

proof fn lemma_find_char_absent(s: Seq<char>, c: char, from: int)
    requires
        0 <= from,
        forall|k: int| from <= k < s.len() ==> s[k] != c,
    ensures
        find_char(s, c, from) is None,
    decreases s.len() - from,
{
    if from < s.len() {
        lemma_find_char_absent(s, c, from + 1);
    }
}

proof fn lemma_leading_hashes_is(t: Seq<char>, k: int)
    requires
        0 <= k <= t.len(),
        forall|q: int| 0 <= q < k ==> t[q] == '#',
        k == t.len() || t[k] != '#',
    ensures
        leading_hashes(t) == k,
    decreases k,
{
    if k > 0 {
        assert forall|q: int| 0 <= q < k - 1 implies t.drop_first()[q] == '#' by {
            assert(t.drop_first()[q] == t[q + 1]);
        }
        if k < t.len() {
            assert(t.drop_first()[k - 1] == t[k]);
        }
        lemma_leading_hashes_is(t.drop_first(), k - 1);
    }
}

/// A line whose text, after its indentation, is one to six `#`, a space
/// and then text that does not start with whitespace is a header of that
/// level: it spans from the first `#` to the end of the line, keeps the
/// whole line as its raw text and shows the text after the space.
pub proof fn lemma_header_line(line: Seq<char>, off: int, k: int)
    requires
        1 <= k <= 6,
        k < trim_start(line).len(),
        forall|q: int| 0 <= q < k ==> trim_start(line)[q] == '#',
        trim_start(line)[k] == ' ',
        trim_start(trim_start(line).skip(k + 1)) == trim_start(line).skip(k + 1),
        trim_start(line).skip(k + 1).len() > 0,
    ensures
        spec_header_line(line, off) == Some(
            elem(
                ElementKind::Header { level: k as u8 },
                off + byte_len(line.take(ws_prefix_len(line) as int)),
                off + byte_len(line),
                line,
                trim_start(line).skip(k + 1),
            ),
        ),
{
    lemma_leading_hashes_is(trim_start(line), k);
}

/// Inline code: a backtick closed by the next backtick spans both and
/// shows what lies between; an unclosed backtick is no element.
pub proof fn lemma_inline_code(s: Seq<char>, off: int, j: int)
    requires
        s.len() > 0,
        s[0] == '`',
    ensures
        (1 <= j < s.len() && s[j] == '`' && forall|k: int| 1 <= k < j ==> s[k] != '`')
            ==> spec_inline_code(s, off) == Some(
            elem(ElementKind::InlineCode, off, off + j + 1, s.subrange(0, j + 1), s.subrange(1, j)),
        ),
        (forall|k: int| 1 <= k < s.len() ==> s[k] != '`') ==> spec_inline_code(s, off) is None,
{
    if 1 <= j < s.len() && s[j] == '`' && forall|k: int| 1 <= k < j ==> s[k] != '`' {
        lemma_find_char_is(s, '`', 1, j);
    }
    if forall|k: int| 1 <= k < s.len() ==> s[k] != '`' {
        lemma_find_char_absent(s, '`', 1);
    }
}

/// A link `[text](url)`: the first `]` closes the text, a `(` must follow
/// it at once, and the first `)` after that closes the url. The element
/// spans from `[` to `)`, shows the text and links to the url.
pub proof fn lemma_link(s: Seq<char>, off: int, te: int, ue: int)
    requires
        s.len() > 0,
        s[0] == '[',
        1 <= te,
        te + 1 < ue < s.len(),
        s[te] == ']',
        forall|k: int| 1 <= k < te ==> s[k] != ']',
        s[te + 1] == '(',
        s[ue] == ')',
        forall|k: int| te + 2 <= k < ue ==> s[k] != ')',
    ensures
        spec_link(s, off) == Some(
            elem(
                ElementKind::Link { url: s.subrange(te + 2, ue), title: None },
                off,
                off + ue + 1,
                s.subrange(0, ue + 1),
                s.subrange(1, te),
            ),
        ),
{
    lemma_find_char_is(s, ']', 1, te);
    lemma_find_char_is(s, ')', te + 2, ue);
}

/// A line whose text, after its indentation, starts with `- ` or `* ` is
/// an unordered list item: it spans the whole line, keeps it as its raw
/// text, shows what follows the marker, and its level is half the bytes of
/// the indentation.
pub proof fn lemma_unordered_item(line: Seq<char>, off: int)
    requires
        trim_start(line).len() >= 2,
        trim_start(line)[0] == '-' || trim_start(line)[0] == '*',
        trim_start(line)[1] == ' ',
    ensures
        spec_list_item(line, off) == Some(
            elem(
                ElementKind::UnorderedListItem {
                    level: ((byte_len(line.take(ws_prefix_len(line) as int)) / 2) % 256) as u8,
                },
                off,
                off + byte_len(line),
                line,
                trim_start(line).skip(2),
            ),
        ),
{
    let t = trim_start(line);
    if t[0] == '-' {
        assert(t.subrange(0, 2) =~= dash_space());
    } else {
        assert(t.subrange(0, 2) =~= star_space());
    }
}

/// Inline code starting at `s[0]`, if it is closed.
pub open spec fn spec_inline_code(s: Seq<char>, off: int) -> Option<ElementView> {
    if s.len() == 0 || s[0] != '`' {
        None
    } else {
        match find_char(s, '`', 1) {
            Some(j) => Some(
                elem(
                    ElementKind::InlineCode,
                    off,
                    off + j + 1,
                    s.subrange(0, j + 1),
                    s.subrange(1, j),
                ),
            ),
            None => None,
        }
    }
}

/// A link `[text](url)` starting at `s[0]`.
pub open spec fn spec_link(s: Seq<char>, off: int) -> Option<ElementView> {
    if s.len() == 0 || s[0] != '[' {
        None
    } else {
        match find_char(s, ']', 1) {
            None => None,
            Some(te) => if te + 1 >= s.len() || s[te + 1] != '(' {
                None
            } else {
                match find_char(s, ')', te + 2) {
                    None => None,
                    Some(ue) => Some(
                        elem(
                            ElementKind::Link { url: s.subrange(te + 2, ue), title: None },
                            off,
                            off + ue + 1,
                            s.subrange(0, ue + 1),
                            s.subrange(1, te),
                        ),
                    ),
                }
            },
        }
    }
}

/// The element that the inline pass finds at character `i` of `s`, which
/// starts at its byte offset.
pub open spec fn inline_at(s: Seq<char>, off: int, i: int) -> Option<ElementView> {
    if s[i] == '*' || s[i] == '_' {
        spec_emphasis(s.skip(i), off + byte_len(s.take(i)))
    } else if s[i] == '`' {
        spec_inline_code(s.skip(i), off + byte_len(s.take(i)))
    } else {
        None
    }
}

/// The element that the link pass finds at character `i` of `s`.
pub open spec fn link_at(s: Seq<char>, off: int, i: int) -> Option<ElementView> {
    if s[i] == '[' {
        spec_link(s.skip(i), off + byte_len(s.take(i)))
    } else {
        None
    }
}

/// Inline elements found at positions `0..n` of `s`, in order.
pub open spec fn inline_upto(s: Seq<char>, off: int, n: int) -> Seq<ElementView>
    decreases n,
{
    if n <= 0 {
        seq![]
    } else {
        inline_upto(s, off, n - 1) + opt_seq(inline_at(s, off, n - 1))
    }
}

/// Links found at positions `0..n` of `s`, in order.
pub open spec fn links_upto(s: Seq<char>, off: int, n: int) -> Seq<ElementView>
    decreases n,
{
    if n <= 0 {
        seq![]
    } else {
        links_upto(s, off, n - 1) + opt_seq(link_at(s, off, n - 1))
    }
}

/// What the inline pass finds in `s`.
pub open spec fn spec_inline(s: Seq<char>, off: int) -> Seq<ElementView> {
    inline_upto(s, off, s.len() as int)
}

/// What the link pass finds in `s`.
pub open spec fn spec_links(s: Seq<char>, off: int) -> Seq<ElementView> {
    links_upto(s, off, s.len() as int)
}

/// The value of a string of ASCII digits.
pub open spec fn digits_value(s: Seq<char>) -> nat
    decreases s.len(),
{
    if s.len() == 0 {
        0
    } else {
        digits_value(s.drop_last()) * 10 + digit_value(s.last())
    }
}

pub open spec fn all_digits(s: Seq<char>) -> bool {
    forall|i: int| 0 <= i < s.len() ==> is_digit(#[trigger] s[i])
}

/// `s.parse::<u32>()`: an optional `'+'`, then one or more ASCII digits
/// whose value fits in `u32`.
pub open spec fn parse_u32(s: Seq<char>) -> Option<u32> {
    if s.len() > 0 && s[0] == '+' {
        parse_digits(s.drop_first())
    } else {
        parse_digits(s)
    }
}

/// One or more ASCII digits whose value fits in `u32`.
pub open spec fn parse_digits(d: Seq<char>) -> Option<u32> {
    if d.len() > 0 && all_digits(d) && digits_value(d) <= u32::MAX {
        Some(digits_value(d) as u32)
    } else {
        None
    }
}

/// First position of `p` in `s`, as `str::find` gives it.
pub open spec fn find_seq(s: Seq<char>, p: Seq<char>, from: int) -> Option<int>
    decreases s.len() + 1 - from,
{
    if from < 0 || from + p.len() > s.len() {
        None
    } else if occurs_at(s, p, from) {
        Some(from)
    } else {
        find_seq(s, p, from + 1)
    }
}

pub open spec fn dash_space() -> Seq<char> {
    seq!['-', ' ']
}

pub open spec fn star_space() -> Seq<char> {
    seq!['*', ' ']
}

pub open spec fn dot_space() -> Seq<char> {
    seq!['.', ' ']
}

/// Indentation level of a line: two bytes of leading whitespace per
/// level, as a `u8`.
pub open spec fn indent_level(line: Seq<char>) -> u8 {
    ((byte_len(line.take(ws_prefix_len(line) as int)) / 2) % 256) as u8
}

/// The list item of one line, if the line is one.
pub open spec fn spec_list_item(line: Seq<char>, off: int) -> Option<ElementView> {
    let t = trim_start(line);
    let level = indent_level(line);
    if has_prefix_at(t, 0, dash_space()) || has_prefix_at(t, 0, star_space()) {
        Some(
            elem(
                ElementKind::UnorderedListItem { level },
                off,
                off + byte_len(line),
                line,
                t.skip(2),
            ),
        )
    } else {
        match find_seq(t, dot_space(), 0) {
            Some(d) => match parse_u32(t.take(d)) {
                Some(number) => Some(
                    elem(
                        ElementKind::OrderedListItem { level, number },
                        off,
                        off + byte_len(line),
                        line,
                        t.skip(d + 2),
                    ),
                ),
                None => None,
            },
            None => None,
        }
    }
}

/// Applies a per-line parser to lines `0..n`, each at its offset.
pub open spec fn per_line(
    f: spec_fn(Seq<char>, int) -> Option<ElementView>,
    ls: Seq<Seq<char>>,
    off: int,
    n: int,
) -> Seq<ElementView>
    decreases n,
{
    if n <= 0 {
        seq![]
    } else {
        per_line(f, ls, off, n - 1) + opt_seq(f(ls[n - 1], off + byte_line_offset(ls, n - 1)))
    }
}

/// What the header pass finds in `s`.
pub open spec fn spec_headers(s: Seq<char>, off: int) -> Seq<ElementView> {
    per_line(line_parser(true), lines(s), off, lines(s).len() as int)
}

/// What the list pass finds in `s`.
pub open spec fn spec_lists(s: Seq<char>, off: int) -> Seq<ElementView> {
    per_line(line_parser(false), lines(s), off, lines(s).len() as int)
}

/// Everything the four passes find in `s`, sorted by start position.
pub open spec fn spec_parse_text(s: Seq<char>, off: int) -> Seq<ElementView> {
    sort_by_start(spec_headers(s, off) + spec_inline(s, off) + spec_links(s, off) + spec_lists(s, off))
}

/// The elements of a whole document.
pub open spec fn spec_parse_document(s: Seq<char>) -> Seq<ElementView> {
    spec_parse_text(s, 0)
}

/// The elements of a single line placed at `off`.
pub open spec fn spec_parse_line(line: Seq<char>, off: int) -> Seq<ElementView> {
    sort_by_start(
        opt_seq(spec_header_line(line, off)) + opt_seq(spec_list_item(line, off)) + spec_inline(
            line,
            off,
        ) + spec_links(line, off),
    )
}

/// `a - b`, or zero.
pub open spec fn sat_sub(a: int, b: int) -> int {
    if a >= b {
        a - b
    } else {
        0
    }
}

pub open spec fn min_int(a: int, b: int) -> int {
    if a <= b {
        a
    } else {
        b
    }
}

/// The part of the text that incremental parsing looks at: a hundred
/// bytes around the change, or around the cursor when there is none; `len`
/// is the text's length in bytes.
pub open spec fn incremental_window(len: int, cursor: int, change: Option<PositionRange>) -> (
    int,
    int,
) {
    match change {
        Some(r) => (sat_sub(r.start as int, 100), min_int(r.end + 100, len)),
        None => (sat_sub(cursor, 100), min_int(cursor + 100, len)),
    }
}

/// The elements found by incremental parsing.
pub open spec fn spec_parse_incremental(
    s: Seq<char>,
    cursor: int,
    change: Option<PositionRange>,
) -> Seq<ElementView> {
    let (a, b) = incremental_window(byte_len(s) as int, cursor, change);
    spec_parse_text(s.subrange(char_index(s, a), char_index(s, b)), a)
}

/// `x` as a `usize`, wrapping a negative value as a cast from `i32` does.
pub open spec fn wrap_usize(x: int) -> int {
    if x >= 0 {
        x
    } else {
        x + usize::MAX + 1
    }
}

/// How a change of `change` into `new_len` bytes moves an element.
pub open spec fn shifted(e: ElementView, change: PositionRange, new_len: int) -> ElementView {
    if e.start >= change.end {
        let delta = new_len - (change.end - change.start);
        ElementView { start: (e.start + delta) as nat, end: wrap_usize(e.end + delta) as nat, ..e }
    } else {
        e
    }
}

pub open spec fn view_overlaps(e: ElementView, r: PositionRange) -> bool {
    e.start < r.end && r.start < e.end
}

/// The elements that survive a change, moved to their new places.
pub open spec fn after_change(s: Seq<ElementView>, change: PositionRange, new_len: int) -> Seq<
    ElementView,
>
    decreases s.len(),
{
    if s.len() == 0 {
        seq![]
    } else if view_overlaps(s.last(), change) {
        after_change(s.drop_last(), change, new_len)
    } else {
        after_change(s.drop_last(), change, new_len).push(shifted(s.last(), change, new_len))
    }
}

/// The `i32` arithmetic that moves elements after a change stays in range.
pub open spec fn change_fits_i32(s: Seq<ElementView>, change: PositionRange, new_len: int) -> bool {
    let delta = new_len - (change.end - change.start);
    &&& change.start <= change.end
    &&& new_len <= i32::MAX
    &&& change.end - change.start <= i32::MAX
    &&& forall|i: int|
        0 <= i < s.len() && !view_overlaps(#[trigger] s[i], change) && s[i].start >= change.end
            ==> {
            &&& s[i].start <= i32::MAX
            &&& s[i].end <= i32::MAX
            &&& s[i].start + delta <= i32::MAX
            &&& i32::MIN <= s[i].end + delta <= i32::MAX
        }
}

/// Index of the first element containing `p`.
pub open spec fn first_containing(s: Seq<ElementView>, p: int) -> Option<int>
    decreases s.len(),
{
    if s.len() == 0 {
        None
    } else {
        match first_containing(s.drop_last(), p) {
            Some(i) => Some(i),
            None => if s.last().start <= p < s.last().end {
                Some(s.len() - 1)
            } else {
                None
            },
        }
    }
}


// ---------------------------------------------------------------------------
// Scanning helpers
// ---------------------------------------------------------------------------

pub open spec fn opt_int(o: Option<usize>) -> Option<int> {
    match o {
        Some(j) => Some(j as int),
        None => None,
    }
}

/// `find_char` over `v[lo..hi]`.
pub(crate) fn find_char_from(v: &[char], lo: usize, hi: usize, c: char, from: usize) -> (r: Option<usize>)
    requires
        lo <= hi <= v@.len(),
    ensures
        opt_int(r) == find_char(v@.subrange(lo as int, hi as int), c, from as int),
        r matches Some(j) ==> from <= j < hi - lo,
{
    let ghost s = v@.subrange(lo as int, hi as int);
    let mut j = from;
    while j < hi - lo
        invariant
            lo <= hi <= v@.len(),
            s == v@.subrange(lo as int, hi as int),
            from <= j,
            find_char(s, c, from as int) == find_char(s, c, j as int),
        decreases hi - lo - j,
    {
        if v[lo + j] == c {
            return Some(j);
        }
        j += 1;
    }
    None
}

/// `find_closing_marker` over `v[lo..hi]`.
pub(crate) fn find_closing_marker_from(
    v: &[char],
    lo: usize,
    hi: usize,
    m: char,
    double: bool,
    from: usize,
) -> (r: Option<usize>)
    requires
        lo <= hi <= v@.len(),
    ensures
        opt_int(r) == find_closing_marker(v@.subrange(lo as int, hi as int), m, double, from as int),
        r matches Some(j) ==> from <= j < hi - lo && (double ==> j + 1 < hi - lo),
{
    let ghost s = v@.subrange(lo as int, hi as int);
    let mut j = from;
    while j < hi - lo
        invariant
            lo <= hi <= v@.len(),
            s == v@.subrange(lo as int, hi as int),
            from <= j,
            find_closing_marker(s, m, double, from as int) == find_closing_marker(
                s,
                m,
                double,
                j as int,
            ),
        decreases hi - lo - j,
    {
        if v[lo + j] == m && (!double || (j + 1 < hi - lo && v[lo + j + 1] == m)) {
            return Some(j);
        }
        j += 1;
    }
    None
}

// ---------------------------------------------------------------------------
// Single elements
// ---------------------------------------------------------------------------

/// Emphasis at the start of `v[lo..hi]`, placed at `off`.
fn parse_emphasis(v: &[char], lo: usize, hi: usize, off: usize) -> (r: Option<SyntaxElement>)
    requires
        lo <= hi <= v@.len(),
        off + (hi - lo) <= usize::MAX,
    ensures
        opt_view(r) == spec_emphasis(v@.subrange(lo as int, hi as int), off as int),
{
    let ghost s = v@.subrange(lo as int, hi as int);
    if lo >= hi {
        return None;
    }
    let m = v[lo];
    if m != '*' && m != '_' {
        return None;
    }
    let double = hi - lo > 1 && v[lo + 1] == m;
    let ml: usize = if double {
        2
    } else {
        1
    };
    match find_closing_marker_from(v, lo, hi, m, double, ml) {
        Some(j) => {
            if double {
                let raw = string_of(v, lo, lo + j + 2);
                let rendered = string_of(v, lo + ml, lo + j);
                proof {
                    assert(s.subrange(0, j + 2) =~= v@.subrange(lo as int, lo + j + 2));
                    assert(s.subrange(ml as int, j as int) =~= v@.subrange(lo + ml, lo + j));
                }
                Some(
                    SyntaxElement::new(
                        SyntaxElementType::Bold,
                        PositionRange::new(off, off + j + 2),
                        raw,
                        rendered,
                    ),
                )
            } else {
                let raw = string_of(v, lo, lo + j + 1);
                let rendered = string_of(v, lo + ml, lo + j);
                proof {
                    assert(s.subrange(0, j + 1) =~= v@.subrange(lo as int, lo + j + 1));
                    assert(s.subrange(ml as int, j as int) =~= v@.subrange(lo + ml, lo + j));
                }
                Some(
                    SyntaxElement::new(
                        SyntaxElementType::Italic,
                        PositionRange::new(off, off + j + 1),
                        raw,
                        rendered,
                    ),
                )
            }
        },
        None => None,
    }
}

/// Inline code at the start of `v[lo..hi]`, placed at `off`.
fn parse_inline_code(v: &[char], lo: usize, hi: usize, off: usize) -> (r: Option<SyntaxElement>)
    requires
        lo <= hi <= v@.len(),
        off + (hi - lo) <= usize::MAX,
    ensures
        opt_view(r) == spec_inline_code(v@.subrange(lo as int, hi as int), off as int),
{
    let ghost s = v@.subrange(lo as int, hi as int);
    if lo >= hi || v[lo] != '`' {
        return None;
    }
    match find_char_from(v, lo, hi, '`', 1) {
        Some(j) => {
            let raw = string_of(v, lo, lo + j + 1);
            let rendered = string_of(v, lo + 1, lo + j);
            proof {
                assert(s.subrange(0, j + 1) =~= v@.subrange(lo as int, lo + j + 1));
                assert(s.subrange(1, j as int) =~= v@.subrange(lo + 1, lo + j));
            }
            Some(
                SyntaxElement::new(
                    SyntaxElementType::InlineCode,
                    PositionRange::new(off, off + j + 1),
                    raw,
                    rendered,
                ),
            )
        },
        None => None,
    }
}

/// A link at the start of `v[lo..hi]`, placed at `off`.
fn parse_link(v: &[char], lo: usize, hi: usize, off: usize) -> (r: Option<SyntaxElement>)
    requires
        lo <= hi <= v@.len(),
        off + (hi - lo) <= usize::MAX,
    ensures
        opt_view(r) == spec_link(v@.subrange(lo as int, hi as int), off as int),
{
    let ghost s = v@.subrange(lo as int, hi as int);
    if lo >= hi || v[lo] != '[' {
        return None;
    }
    let te = match find_char_from(v, lo, hi, ']', 1) {
        Some(te) => te,
        None => return None,
    };
    if te + 1 >= hi - lo || v[lo + te + 1] != '(' {
        return None;
    }
    let ue = match find_char_from(v, lo, hi, ')', te + 2) {
        Some(ue) => ue,
        None => return None,
    };
    let link_text = string_of(v, lo + 1, lo + te);
    let url = string_of(v, lo + te + 2, lo + ue);
    let raw = string_of(v, lo, lo + ue + 1);
    proof {
        assert(s.subrange(1, te as int) =~= v@.subrange(lo + 1, lo + te));
        assert(s.subrange(te + 2, ue as int) =~= v@.subrange(lo + te + 2, lo + ue));
        assert(s.subrange(0, ue + 1) =~= v@.subrange(lo as int, lo + ue + 1));
    }
    Some(
        SyntaxElement::new(
            SyntaxElementType::Link { url, title: None },
            PositionRange::new(off, off + ue + 1),
            raw,
            link_text,
        ),
    )
}

/// The bytes of `v[a..b]` are the difference of the offsets of its ends.
proof fn lemma_offs_span(v: Seq<char>, offs: Seq<usize>, a: int, b: int)
    requires
        offsets_of(v, offs),
        0 <= a <= b <= v.len(),
    ensures
        offs[b] - offs[a] == byte_len(v.subrange(a, b)),
        offs[a] <= offs[b] <= byte_len(v),
        byte_len(v.subrange(a, b)) >= b - a,
{
    assert(offs[a] == byte_len(v.take(a)));
    assert(offs[b] == byte_len(v.take(b)));
    lemma_byte_len_split(v, a, b);
}

pub proof fn lemma_leading_hashes_step(t: Seq<char>, k: int)
    requires
        0 <= k < t.len(),
        t[k] == '#',
    ensures
        leading_hashes(t.skip(k)) == 1 + leading_hashes(t.skip(k + 1)),
{
    assert(t.skip(k).drop_first() =~= t.skip(k + 1));
}

/// The header in line `v[lo..hi]`, placed at `off`.
fn parse_header_line(v: &[char], offs: &Vec<usize>, lo: usize, hi: usize, off: usize) -> (r:
    Option<SyntaxElement>)
    requires
        lo <= hi <= v@.len(),
        offsets_of(v@, offs@),
        off + byte_len(v@.subrange(lo as int, hi as int)) <= usize::MAX,
    ensures
        opt_view(r) == spec_header_line(v@.subrange(lo as int, hi as int), off as int),
{
    let ghost line = v@.subrange(lo as int, hi as int);
    let w = ws_prefix_len_of(v, lo, hi);
    let ts = lo + w;
    proof {
        lemma_offs_span(v@, offs@, lo as int, ts as int);
        lemma_offs_span(v@, offs@, lo as int, hi as int);
        lemma_offs_span(v@, offs@, ts as int, hi as int);
        assert(line.take(w as int) =~= v@.subrange(lo as int, ts as int));
    }
    let ghost t = v@.subrange(ts as int, hi as int);
    proof {
        assert(trim_start(line) =~= t);
    }
    if ts >= hi || v[ts] != '#' {
        return None;
    }
    let mut k: usize = 0;
    proof {
        assert(t.skip(0) =~= t);
    }
    while k < 6 && ts + k < hi && v[ts + k] == '#'
        invariant
            ts <= hi <= v@.len(),
            t == v@.subrange(ts as int, hi as int),
            k <= 6,
            ts + k <= hi,
            leading_hashes(t) == k + leading_hashes(t.skip(k as int)),
        decreases 6 - k,
    {
        proof {
            lemma_leading_hashes_step(t, k as int);
        }
        k += 1;
    }
    proof {
        if k < 6 {
            if ts + k < hi {
                assert(t.skip(k as int)[0] == t[k as int]);
            } else {
                assert(t.skip(k as int).len() == 0);
            }
            assert(leading_hashes(t.skip(k as int)) == 0);
        }
        assert(header_level(t) == k);
    }
    let rs: usize = if ts + k < hi {
        ts + k + 1
    } else {
        hi
    };
    proof {
        assert(header_rest(t) =~= v@.subrange(rs as int, hi as int));
    }
    let w2 = ws_prefix_len_of(v, rs, hi);
    let text_start = rs + w2;
    proof {
        assert(trim_start(header_rest(t)) =~= v@.subrange(text_start as int, hi as int));
    }
    if text_start >= hi {
        return None;
    }
    let raw = string_of(v, lo, hi);
    let text = string_of(v, text_start, hi);
    Some(
        SyntaxElement::new(
            SyntaxElementType::Header { level: k as u8 },
            PositionRange::new(off + (offs[ts] - offs[lo]), off + (offs[hi] - offs[lo])),
            raw,
            text,
        ),
    )
}

pub proof fn lemma_digits_value_prefix(s: Seq<char>, k: int)
    requires
        0 <= k <= s.len(),
    ensures
        digits_value(s.take(k)) <= digits_value(s),
    decreases s.len() - k,
{
    if k < s.len() {
        lemma_digits_value_prefix(s, k + 1);
        assert(s.take(k + 1).drop_last() =~= s.take(k));
    } else {
        assert(s.take(k) =~= s);
    }
}

/// `v[lo..hi].parse::<u32>()`.
fn parse_u32_at(v: &[char], lo: usize, hi: usize) -> (r: Option<u32>)
    requires
        lo <= hi <= v@.len(),
    ensures
        r == parse_u32(v@.subrange(lo as int, hi as int)),
{
    let ghost s = v@.subrange(lo as int, hi as int);
    let start = if lo < hi && v[lo] == '+' {
        lo + 1
    } else {
        lo
    };
    let ghost d = v@.subrange(start as int, hi as int);
    proof {
        if lo < hi {
            assert(s[0] == v@[lo as int]);
        }
        if lo < hi && v@[lo as int] == '+' {
            assert(s.drop_first() =~= d);
        } else {
            assert(s =~= d);
        }
    }
    if start >= hi {
        return None;
    }
    let mut acc: u64 = 0;
    let mut j = start;
    while j < hi
        invariant
            start <= j <= hi <= v@.len(),
            d == v@.subrange(start as int, hi as int),
            parse_u32(v@.subrange(lo as int, hi as int)) == parse_digits(d),
            acc as nat == digits_value(v@.subrange(start as int, j as int)),
            acc <= u32::MAX,
            all_digits(v@.subrange(start as int, j as int)),
        decreases hi - j,
    {
        let c = v[j];
        proof {
            assert(v@.subrange(start as int, j + 1).drop_last() =~= v@.subrange(
                start as int,
                j as int,
            ));
            assert(v@.subrange(start as int, j + 1).last() == c);
        }
        if c < '0' || c > '9' {
            proof {
                assert(d[j - start] == c);
                assert(!is_digit(d[j - start]));
                assert(!all_digits(d));
            }
            return None;
        }
        let dv = (c as u32 - '0' as u32) as u64;
        acc = acc * 10 + dv;
        proof {
            assert(digit_value(c) == dv);
            assert(acc as nat == digits_value(v@.subrange(start as int, j + 1)));
        }
        if acc > 0xFFFF_FFFF {
            proof {
                assert(v@.subrange(start as int, j + 1) =~= d.take(j + 1 - start));
                lemma_digits_value_prefix(d, j + 1 - start);
                assert(digits_value(d) > u32::MAX);
            }
            return None;
        }
        proof {
            assert forall|i: int| 0 <= i < j + 1 - start implies is_digit(
                #[trigger] v@.subrange(start as int, j + 1)[i],
            ) by {
                if i < j - start {
                    assert(v@.subrange(start as int, j + 1)[i] == v@.subrange(
                        start as int,
                        j as int,
                    )[i]);
                }
            }
        }
        j += 1;
    }
    proof {
        assert(v@.subrange(start as int, hi as int) =~= d);
    }
    Some(acc as u32)
}

/// First `". "` in `v[lo..hi]`, relative to `lo`.
pub(crate) fn find_dot_space(v: &[char], lo: usize, hi: usize) -> (r: Option<usize>)
    requires
        lo <= hi <= v@.len(),
    ensures
        opt_int(r) == find_seq(v@.subrange(lo as int, hi as int), dot_space(), 0),
        r matches Some(d) ==> d + 2 <= hi - lo,
{
    let ghost s = v@.subrange(lo as int, hi as int);
    let mut d: usize = 0;
    while d < hi - lo && hi - lo - d >= 2
        invariant
            lo <= hi <= v@.len(),
            s == v@.subrange(lo as int, hi as int),
            find_seq(s, dot_space(), 0) == find_seq(s, dot_space(), d as int),
        decreases hi - lo - d,
    {
        if v[lo + d] == '.' && v[lo + d + 1] == ' ' {
            proof {
                assert(s.subrange(d as int, d + 2) =~= dot_space());
            }
            return Some(d);
        }
        proof {
            assert(s.subrange(d as int, d + 2)[0] == v@[lo + d]);
            assert(s.subrange(d as int, d + 2)[1] == v@[lo + d + 1]);
        }
        d += 1;
    }
    None
}

/// The list item in line `v[lo..hi]`, placed at `off`.
fn parse_list_item(v: &[char], offs: &Vec<usize>, lo: usize, hi: usize, off: usize) -> (r: Option<
    SyntaxElement,
>)
    requires
        lo <= hi <= v@.len(),
        offsets_of(v@, offs@),
        off + byte_len(v@.subrange(lo as int, hi as int)) <= usize::MAX,
    ensures
        opt_view(r) == spec_list_item(v@.subrange(lo as int, hi as int), off as int),
{
    let ghost line = v@.subrange(lo as int, hi as int);
    let w = ws_prefix_len_of(v, lo, hi);
    let ts = lo + w;
    let ghost t = v@.subrange(ts as int, hi as int);
    proof {
        assert(trim_start(line) =~= t);
        lemma_offs_span(v@, offs@, lo as int, ts as int);
        lemma_offs_span(v@, offs@, lo as int, hi as int);
        lemma_offs_span(v@, offs@, ts as int, hi as int);
        assert(line.take(w as int) =~= v@.subrange(lo as int, ts as int));
    }
    let wb = offs[ts] - offs[lo];
    let line_end = off + (offs[hi] - offs[lo]);
    let level = ((wb / 2) % 256) as u8;
    let unordered = hi - ts >= 2 && (v[ts] == '-' || v[ts] == '*') && v[ts + 1] == ' ';
    proof {
        if hi - ts >= 2 {
            assert(t.subrange(0, 2)[0] == v@[ts as int]);
            assert(t.subrange(0, 2)[1] == v@[ts + 1]);
            if unordered {
                if v@[ts as int] == '-' {
                    assert(t.subrange(0, 2) =~= dash_space());
                } else {
                    assert(t.subrange(0, 2) =~= star_space());
                }
            }
        }
    }
    if unordered {
        let raw = string_of(v, lo, hi);
        let text = string_of(v, ts + 2, hi);
        proof {
            assert(t.skip(2) =~= v@.subrange(ts + 2, hi as int));
        }
        return Some(
            SyntaxElement::new(
                SyntaxElementType::UnorderedListItem { level },
                PositionRange::new(off, line_end),
                raw,
                text,
            ),
        );
    }
    match find_dot_space(v, ts, hi) {
        Some(d) => match parse_u32_at(v, ts, ts + d) {
            Some(number) => {
                let raw = string_of(v, lo, hi);
                let text = string_of(v, ts + d + 2, hi);
                proof {
                    assert(t.take(d as int) =~= v@.subrange(ts as int, ts + d));
                    assert(t.skip(d + 2) =~= v@.subrange(ts + d + 2, hi as int));
                }
                Some(
                    SyntaxElement::new(
                        SyntaxElementType::OrderedListItem { level, number },
                        PositionRange::new(off, line_end),
                        raw,
                        text,
                    ),
                )
            },
            None => {
                proof {
                    assert(t.take(d as int) =~= v@.subrange(ts as int, ts + d));
                }
                None
            },
        },
        None => None,
    }
}

// ---------------------------------------------------------------------------
// Whole-text passes
// ---------------------------------------------------------------------------

/// The per-line parser of the header pass (`true`) or the list pass.
pub open spec fn line_parser(headers: bool) -> spec_fn(Seq<char>, int) -> Option<ElementView> {
    if headers {
        |l: Seq<char>, o: int| spec_header_line(l, o)
    } else {
        |l: Seq<char>, o: int| spec_list_item(l, o)
    }
}

proof fn lemma_views_push(s: Seq<SyntaxElement>, e: SyntaxElement)
    ensures
        views(s.push(e)) == views(s).push(e@),
{
    assert(views(s.push(e)) =~= views(s).push(e@));
}

/// Pushes the element, if any, onto `out`.
fn push_opt(out: &mut Vec<SyntaxElement>, o: Option<SyntaxElement>)
    ensures
        views(final(out)@) == views(old(out)@) + opt_seq(opt_view(o)),
{
    match o {
        Some(e) => {
            proof {
                lemma_views_push(out@, e);
            }
            out.push(e);
            assert(views(out@) =~= views(old(out)@) + opt_seq(opt_view(Some(e))));
        },
        None => {
            assert(views(out@) =~= views(old(out)@) + opt_seq(opt_view(o)));
        },
    }
}

/// Runs the header pass (`headers`) or the list pass over the lines of `v`.
fn lines_pass(v: &[char], offs: &Vec<usize>, off: usize, headers: bool, out: &mut Vec<SyntaxElement>)
    requires
        offsets_of(v@, offs@),
        off + byte_len(v@) <= usize::MAX,
    ensures
        views(final(out)@) == views(old(out)@) + per_line(
            line_parser(headers),
            lines(v@),
            off as int,
            lines(v@).len() as int,
        ),
{
    let spans = line_spans(v);
    let ghost ls = lines(v@);
    let mut cur = off;
    let mut i: usize = 0;
    assert(views(out@) =~= views(old(out)@) + per_line(line_parser(headers), ls, off as int, 0));
    proof {
        assert(v@.take(v@.len() as int) =~= v@);
    }
    while i < spans.len()
        invariant
            off + byte_len(v@) <= usize::MAX,
            offsets_of(v@, offs@),
            ls == lines(v@),
            spans_ok(v@, spans@),
            i <= spans@.len(),
            i < spans@.len() ==> cur == off + byte_line_offset(ls, i as int),
            views(out@) == views(old(out)@) + per_line(line_parser(headers), ls, off as int, i as int),
        decreases spans@.len() - i,
    {
        let (a, b) = spans[i];
        proof {
            assert(v@.subrange(a as int, b as int) == ls[i as int]);
            lemma_span_bytes(v@, spans@, i as int);
            lemma_offs_span(v@, offs@, a as int, b as int);
        }
        let e = if headers {
            parse_header_line(v, offs, a, b, cur)
        } else {
            parse_list_item(v, offs, a, b, cur)
        };
        let ghost before = views(out@);
        push_opt(out, e);
        proof {
            assert(views(out@) =~= views(old(out)@) + per_line(
                line_parser(headers),
                ls,
                off as int,
                i + 1,
            ));
        }
        if i + 1 < spans.len() {
            proof {
                lemma_span_bytes(v@, spans@, i + 1);
            }
            cur = cur + (offs[b] - offs[a]) + 1;
        }
        i += 1;
    }
}

/// Runs the inline pass (emphasis and code) over `v`.
fn inline_pass(v: &[char], offs: &Vec<usize>, off: usize, out: &mut Vec<SyntaxElement>)
    requires
        offsets_of(v@, offs@),
        off + byte_len(v@) <= usize::MAX,
    ensures
        views(final(out)@) == views(old(out)@) + spec_inline(v@, off as int),
{
    let n = v.len();
    let mut i: usize = 0;
    assert(views(out@) =~= views(old(out)@) + inline_upto(v@, off as int, 0));
    while i < n
        invariant
            n == v@.len(),
            offsets_of(v@, offs@),
            off + byte_len(v@) <= usize::MAX,
            i <= n,
            views(out@) == views(old(out)@) + inline_upto(v@, off as int, i as int),
        decreases n - i,
    {
        let c = v[i];
        proof {
            assert(v@.skip(i as int) =~= v@.subrange(i as int, n as int));
            lemma_offs_span(v@, offs@, i as int, n as int);
            assert(offs@[i as int] == byte_len(v@.take(i as int)));
            assert(v@.take(n as int) =~= v@);
        }
        let at = off + offs[i];
        let e = if c == '*' || c == '_' {
            parse_emphasis(v, i, n, at)
        } else if c == '`' {
            parse_inline_code(v, i, n, at)
        } else {
            None
        };
        push_opt(out, e);
        proof {
            assert(views(out@) =~= views(old(out)@) + inline_upto(v@, off as int, i + 1));
        }
        i += 1;
    }
}

/// Runs the link pass over `v`.
fn links_pass(v: &[char], offs: &Vec<usize>, off: usize, out: &mut Vec<SyntaxElement>)
    requires
        offsets_of(v@, offs@),
        off + byte_len(v@) <= usize::MAX,
    ensures
        views(final(out)@) == views(old(out)@) + spec_links(v@, off as int),
{
    let n = v.len();
    let mut i: usize = 0;
    assert(views(out@) =~= views(old(out)@) + links_upto(v@, off as int, 0));
    while i < n
        invariant
            n == v@.len(),
            offsets_of(v@, offs@),
            off + byte_len(v@) <= usize::MAX,
            i <= n,
            views(out@) == views(old(out)@) + links_upto(v@, off as int, i as int),
        decreases n - i,
    {
        proof {
            assert(v@.skip(i as int) =~= v@.subrange(i as int, n as int));
            lemma_offs_span(v@, offs@, i as int, n as int);
            assert(offs@[i as int] == byte_len(v@.take(i as int)));
            assert(v@.take(n as int) =~= v@);
        }
        let e = if v[i] == '[' {
            parse_link(v, i, n, off + offs[i])
        } else {
            None
        };
        push_opt(out, e);
        proof {
            assert(views(out@) =~= views(old(out)@) + links_upto(v@, off as int, i + 1));
        }
        i += 1;
    }
}

// ---------------------------------------------------------------------------
// Ordering by start position (a stable sort, as `sort_by_key`)
// ---------------------------------------------------------------------------

/// Inserts `e` after every element whose start is not greater than its own.
pub open spec fn insert_by_start(s: Seq<ElementView>, e: ElementView) -> Seq<ElementView>
    decreases s.len(),
{
    if s.len() == 0 {
        seq![e]
    } else if s.last().start <= e.start {
        s.push(e)
    } else {
        insert_by_start(s.drop_last(), e).push(s.last())
    }
}

/// `s` stably sorted by start position.
pub open spec fn sort_by_start(s: Seq<ElementView>) -> Seq<ElementView>
    decreases s.len(),
{
    if s.len() == 0 {
        s
    } else {
        insert_by_start(sort_by_start(s.drop_last()), s.last())
    }
}

/// Elements in order of their start positions.
pub open spec fn sorted_by_start(s: Seq<ElementView>) -> bool {
    forall|i: int, j: int| 0 <= i < j < s.len() ==> s[i].start <= s[j].start
}

proof fn lemma_insert_by_start_sorted(s: Seq<ElementView>, e: ElementView)
    requires
        sorted_by_start(s),
    ensures
        sorted_by_start(insert_by_start(s, e)),
        insert_by_start(s, e).len() == s.len() + 1,
        forall|k: int|
            0 <= k < insert_by_start(s, e).len() ==> #[trigger] insert_by_start(s, e)[k] == e
                || s.contains(insert_by_start(s, e)[k]),
    decreases s.len(),
{
    if s.len() > 0 && s.last().start > e.start {
        let t = s.drop_last();
        assert(sorted_by_start(t)) by {
            assert forall|i: int, j: int| 0 <= i < j < t.len() implies t[i].start <= t[j].start by {
                assert(t[i] == s[i] && t[j] == s[j]);
            }
        }
        lemma_insert_by_start_sorted(t, e);
        let it = insert_by_start(t, e);
        let r = it.push(s.last());
        assert forall|k: int| 0 <= k < r.len() implies #[trigger] r[k] == e || s.contains(r[k]) by {
            if k < it.len() {
                if it[k] != e {
                    assert(t.contains(it[k]));
                    let x = choose|x: int| 0 <= x < t.len() && t[x] == it[k];
                    assert(s[x] == t[x]);
                }
            } else {
                assert(s[s.len() - 1] == r[k]);
            }
        }
        assert forall|i: int, j: int| 0 <= i < j < r.len() implies r[i].start <= r[j].start by {
            if j == r.len() - 1 {
                if it[i] == e {
                } else {
                    assert(t.contains(it[i]));
                    let x = choose|x: int| 0 <= x < t.len() && t[x] == it[i];
                    assert(s[x] == t[x]);
                }
            }
        }
    } else if s.len() > 0 {
        let r = s.push(e);
        assert forall|k: int| 0 <= k < r.len() implies #[trigger] r[k] == e || s.contains(r[k]) by {
            if k < s.len() {
                assert(s[k] == r[k]);
            }
        }
    } else {
        assert(seq![e][0] == e);
    }
}

/// Sorting by start position gives elements in order of their starts.
pub proof fn lemma_sort_by_start_sorted(s: Seq<ElementView>)
    ensures
        sorted_by_start(sort_by_start(s)),
        sort_by_start(s).len() == s.len(),
    decreases s.len(),
{
    if s.len() > 0 {
        lemma_sort_by_start_sorted(s.drop_last());
        lemma_insert_by_start_sorted(sort_by_start(s.drop_last()), s.last());
    }
}

/// The parser gives the elements of a text in document order: by start
/// position, elements starting together in the order the passes found
/// them.
pub proof fn lemma_parse_in_document_order(s: Seq<char>, off: int)
    ensures
        sorted_by_start(spec_parse_text(s, off)),
        sorted_by_start(spec_parse_document(s)),
{
    lemma_sort_by_start_sorted(
        spec_headers(s, off) + spec_inline(s, off) + spec_links(s, off) + spec_lists(s, off),
    );
    lemma_sort_by_start_sorted(
        spec_headers(s, 0) + spec_inline(s, 0) + spec_links(s, 0) + spec_lists(s, 0),
    );
}

proof fn lemma_insert_at(s: Seq<ElementView>, e: ElementView, j: int)
    requires
        0 <= j <= s.len(),
        forall|m: int| j <= m < s.len() ==> (#[trigger] s[m]).start > e.start,
        j > 0 ==> s[j - 1].start <= e.start,
    ensures
        insert_by_start(s, e) == s.take(j).push(e) + s.skip(j),
    decreases s.len(),
{
    if s.len() == j {
        assert(s.take(j) =~= s);
        assert(s.take(j).push(e) + s.skip(j) =~= s.push(e));
    } else {
        lemma_insert_at(s.drop_last(), e, j);
        assert(s.drop_last().take(j).push(e) + s.drop_last().skip(j) + seq![s.last()] =~= s.take(
            j,
        ).push(e) + s.skip(j));
    }
}

/// Sorts elements by start position, keeping the order of equal starts.
pub fn sort_elements(input: Vec<SyntaxElement>) -> (r: Vec<SyntaxElement>)
    ensures
        views(r@) == sort_by_start(views(input@)),
{
    let ghost orig = input@;
    let mut rest = input;
    let mut r: Vec<SyntaxElement> = Vec::new();
    let mut k: usize = 0;
    let n = rest.len();
    assert(views(orig.take(0)) =~= Seq::<ElementView>::empty());
    assert(rest@ =~= orig.skip(0));
    while k < n
        invariant
            n == orig.len(),
            k <= n,
            rest@ == orig.skip(k as int),
            views(r@) == sort_by_start(views(orig.take(k as int))),
        decreases n - k,
    {
        let e = rest.remove(0);
        let mut j = r.len();
        while j > 0 && r[j - 1].range.start > e.range.start
            invariant
                j <= r@.len(),
                forall|m: int| j <= m < r@.len() ==> (#[trigger] r@[m]).range.start > e.range.start,
            decreases j,
        {
            j -= 1;
        }
        proof {
            let vs = views(r@);
            assert forall|m: int| j <= m < vs.len() implies (#[trigger] vs[m]).start > e@.start by {
                assert(vs[m] == r@[m]@);
            }
            if j > 0 {
                assert(vs[j - 1] == r@[j - 1]@);
            }
            lemma_insert_at(vs, e@, j as int);
            assert(views(orig.take(k + 1)).drop_last() =~= views(orig.take(k as int)));
            assert(orig.take(k + 1).last() == orig[k as int]);
            assert(e == orig[k as int]);
        }
        r.insert(j, e);
        proof {
            assert(views(r@) =~= views(old_r_at(r@, j as int)).take(j as int).push(e@) + views(
                old_r_at(r@, j as int),
            ).skip(j as int));
        }
        k += 1;
        proof {
            assert(rest@ =~= orig.skip(k as int));
        }
    }
    assert(orig.take(n as int) =~= orig);
    r
}

/// The sequence before `e` was inserted at `j`.
spec fn old_r_at(s: Seq<SyntaxElement>, j: int) -> Seq<SyntaxElement> {
    s.remove(j)
}

// ---------------------------------------------------------------------------
// The parser
// ---------------------------------------------------------------------------

/// Trait for parsing markdown syntax elements in real-time
pub trait SyntaxParser {
    /// Parse the entire document and return all syntax elements
    fn parse_document(&self, content: &str) -> Vec<SyntaxElement>;

    /// Parse a specific line and return syntax elements found
    fn parse_line(&self, line: &str, line_start_offset: usize) -> Vec<SyntaxElement>
        requires
            line_start_offset + byte_len(line@) <= usize::MAX,
    ;

    /// Parse incrementally from a cursor position
    fn parse_incremental(
        &self,
        content: &str,
        cursor_position: usize,
        change_range: Option<PositionRange>,
    ) -> Vec<SyntaxElement>
        requires
            cursor_position + 100 <= usize::MAX,
            change_range matches Some(r) ==> r.end + 100 <= usize::MAX,
            incremental_window(byte_len(content@) as int, cursor_position as int, change_range).0
                <= incremental_window(byte_len(content@) as int, cursor_position as int, change_range).1,
            is_char_boundary_at(
                content@,
                incremental_window(byte_len(content@) as int, cursor_position as int, change_range).0,
            ),
            is_char_boundary_at(
                content@,
                incremental_window(byte_len(content@) as int, cursor_position as int, change_range).1,
            ),
    ;

    /// Find syntax element at a specific position
    fn find_element_at_position<'a>(
        &self,
        elements: &'a [SyntaxElement],
        position: usize,
    ) -> Option<&'a SyntaxElement>;

    /// Update syntax elements after content change
    fn update_elements_after_change(
        &self,
        elements: &mut Vec<SyntaxElement>,
        change_range: PositionRange,
        new_content: &str,
    )
        requires
            change_fits_i32(views(old(elements)@), change_range, byte_len(new_content@) as int),
    ;
}

/// Default implementation of the markdown syntax parser
#[derive(Debug, Default)]
pub struct MarkdownSyntaxParser;

impl MarkdownSyntaxParser {
    /// Create a new markdown syntax parser
    pub fn new() -> Self {
        Self
    }
}

/// All four passes over `v` placed at `off`, sorted.
fn parse_text(v: &[char], off: usize) -> (r: Vec<SyntaxElement>)
    requires
        off + byte_len(v@) <= usize::MAX,
    ensures
        views(r@) == spec_parse_text(v@, off as int),
{
    let offs = byte_offsets(v);
    let mut out: Vec<SyntaxElement> = Vec::new();
    assert(views(out@) =~= Seq::<ElementView>::empty());
    lines_pass(v, &offs, off, true, &mut out);
    inline_pass(v, &offs, off, &mut out);
    links_pass(v, &offs, off, &mut out);
    lines_pass(v, &offs, off, false, &mut out);
    assert(views(out@) =~= spec_headers(v@, off as int) + spec_inline(v@, off as int) + spec_links(
        v@,
        off as int,
    ) + spec_lists(v@, off as int));
    sort_elements(out)
}

/// Moves an element after a change, as the editor's `i32` arithmetic does.
fn shift_element(e: SyntaxElement, change: PositionRange, new_len: usize) -> (r: SyntaxElement)
    requires
        change.start <= change.end,
        new_len <= i32::MAX,
        change.end - change.start <= i32::MAX,
        e.range.start >= change.end ==> {
            let delta = new_len - (change.end - change.start);
            &&& e.range.start <= i32::MAX
            &&& e.range.end <= i32::MAX
            &&& e.range.start + delta <= i32::MAX
            &&& i32::MIN <= e.range.end + delta <= i32::MAX
        },
    ensures
        r@ == shifted(e@, change, new_len as int),
{
    if e.range.start >= change.end {
        let delta: i64 = new_len as i64 - (change.end - change.start) as i64;
        let ns = e.range.start as i64 + delta;
        let ne = e.range.end as i64 + delta;
        let new_end: usize = if ne >= 0 {
            ne as usize
        } else {
            usize::MAX - ((-ne - 1) as usize)
        };
        let mut e = e;
        e.range = PositionRange::new(ns as usize, new_end);
        e
    } else {
        e
    }
}

impl SyntaxParser for MarkdownSyntaxParser {
    fn parse_document(&self, content: &str) -> (r: Vec<SyntaxElement>)
        ensures
            views(r@) == spec_parse_document(content@),
    {
        let n = content.as_bytes().len();
        let v = chars_of(content);
        parse_text(v.as_slice(), 0)
    }

    fn parse_line(&self, line: &str, line_start_offset: usize) -> (r: Vec<SyntaxElement>)
        ensures
            views(r@) == spec_parse_line(line@, line_start_offset as int),
    {
        let v = chars_of(line);
        let n = v.len();
        let offs = byte_offsets(v.as_slice());
        let mut out: Vec<SyntaxElement> = Vec::new();
        assert(views(out@) =~= Seq::<ElementView>::empty());
        assert(v@.subrange(0, n as int) =~= v@);
        push_opt(&mut out, parse_header_line(v.as_slice(), &offs, 0, n, line_start_offset));
        push_opt(&mut out, parse_list_item(v.as_slice(), &offs, 0, n, line_start_offset));
        inline_pass(v.as_slice(), &offs, line_start_offset, &mut out);
        links_pass(v.as_slice(), &offs, line_start_offset, &mut out);
        sort_elements(out)
    }

    fn parse_incremental(
        &self,
        content: &str,
        cursor_position: usize,
        change_range: Option<PositionRange>,
    ) -> (r: Vec<SyntaxElement>)
        ensures
            views(r@) == spec_parse_incremental(content@, cursor_position as int, change_range),
    {
        let n = content.as_bytes().len();
        let v = chars_of(content);
        let offs = byte_offsets(v.as_slice());
        let cursor_start = if cursor_position >= 100 {
            cursor_position - 100
        } else {
            0
        };
        let cursor_end = if cursor_position + 100 <= n {
            cursor_position + 100
        } else {
            n
        };
        let (a, b) = match change_range {
            Some(r) => (
                if r.start >= 100 {
                    r.start - 100
                } else {
                    0
                },
                if r.end + 100 <= n {
                    r.end + 100
                } else {
                    n
                },
            ),
            None => (cursor_start, cursor_end),
        };
        let ca = char_index_of(v.as_slice(), &offs, a);
        let cb = char_index_of(v.as_slice(), &offs, b);
        proof {
            if cb < ca {
                lemma_byte_prefix_strict(v@, cb as int, ca as int);
            }
            lemma_byte_len_split(v@, ca as int, cb as int);
        }
        let sub = copy_range(v.as_slice(), ca, cb);
        parse_text(sub.as_slice(), a)
    }

    fn find_element_at_position<'a>(
        &self,
        elements: &'a [SyntaxElement],
        position: usize,
    ) -> (r: Option<&'a SyntaxElement>)
        ensures
            match first_containing(views(elements@), position as int) {
                Some(i) => r matches Some(e) && e@ == elements@[i]@,
                None => r is None,
            },
    {
        let mut i: usize = 0;
        while i < elements.len()
            invariant
                i <= elements@.len(),
                first_containing(views(elements@.take(i as int)), position as int) is None,
            decreases elements@.len() - i,
        {
            proof {
                assert(views(elements@.take(i + 1)).drop_last() =~= views(
                    elements@.take(i as int),
                ));
                assert(views(elements@.take(i + 1)).last() == elements@[i as int]@);
            }
            if elements[i].contains_cursor(position) {
                proof {
                    assert(views(elements@.take(i as int)) =~= views(elements@).take(i as int));
                    lemma_first_containing_prefix(views(elements@), position as int, i + 1);
                }
                return Some(&elements[i]);
            }
            i += 1;
        }
        proof {
            assert(elements@.take(i as int) =~= elements@);
        }
        None
    }

    fn update_elements_after_change(
        &self,
        elements: &mut Vec<SyntaxElement>,
        change_range: PositionRange,
        new_content: &str,
    )
        ensures
            views(final(elements)@) == after_change(
                views(old(elements)@),
                change_range,
                byte_len(new_content@) as int,
            ),
    {
        let new_len = new_content.as_bytes().len();
        let ghost orig = views(elements@);
        let mut kept: Vec<SyntaxElement> = Vec::new();
        let mut k: usize = 0;
        let n = elements.len();
        assert(after_change(orig.take(0), change_range, new_len as int) =~= views(kept@));
        while elements.len() > 0
            invariant
                n == orig.len(),
                k + elements@.len() == n,
                views(elements@) == orig.skip(k as int),
                views(kept@) == after_change(orig.take(k as int), change_range, new_len as int),
                change_fits_i32(orig, change_range, new_len as int),
            decreases elements@.len(),
        {
            let ghost before = elements@;
            let e = elements.remove(0);
            proof {
                assert(views(before)[0] == before[0]@);
                assert(orig.skip(k as int)[0] == orig[k as int]);
                assert(e@ == orig[k as int]);
                assert(orig.take(k + 1).drop_last() =~= orig.take(k as int));
                assert(orig.take(k + 1).last() == orig[k as int]);
                assert(views(elements@) =~= orig.skip(k + 1)) by {
                    assert(elements@ =~= before.remove(0));
                    assert forall|m: int| 0 <= m < views(elements@).len() implies views(
                        elements@,
                    )[m] == orig.skip(k + 1)[m] by {
                        assert(views(elements@)[m] == before[m + 1]@);
                        assert(views(before)[m + 1] == before[m + 1]@);
                    }
                }
            }
            if !e.range.overlaps(&change_range) {
                let moved = shift_element(e, change_range, new_len);
                proof {
                    lemma_views_push(kept@, moved);
                }
                kept.push(moved);
            }
            k += 1;
        }
        proof {
            assert(orig.take(n as int) =~= orig);
        }
        *elements = kept;
    }
}

proof fn lemma_first_containing_prefix(s: Seq<ElementView>, p: int, k: int)
    requires
        0 < k <= s.len(),
        first_containing(s.take(k - 1), p) is None,
        s[k - 1].start <= p < s[k - 1].end,
    ensures
        first_containing(s, p) == Some(k - 1),
    decreases s.len(),
{
    if s.len() == k {
        assert(s.take(k - 1) =~= s.drop_last());
    } else {
        assert(s.drop_last().take(k - 1) =~= s.take(k - 1));
        lemma_first_containing_prefix(s.drop_last(), p, k);
    }
}

/// A copy of `v[lo..hi]`.
pub fn copy_range(v: &[char], lo: usize, hi: usize) -> (r: Vec<char>)
    requires
        lo <= hi <= v@.len(),
    ensures
        r@ == v@.subrange(lo as int, hi as int),
{
    let mut r: Vec<char> = Vec::new();
    let mut i = lo;
    while i < hi
        invariant
            lo <= i <= hi <= v@.len(),
            r@ == v@.subrange(lo as int, i as int),
        decreases hi - i,
    {
        r.push(v[i]);
        i += 1;
    }
    r
}


// ---------------------------------------------------------------------------
// Parsed elements lie within the text
// ---------------------------------------------------------------------------

/// `e` starts no earlier than `lo`, ends no later than `hi`, and does not
/// end before it starts.
pub open spec fn within(e: ElementView, lo: int, hi: int) -> bool {
    lo <= e.start <= e.end <= hi
}

pub open spec fn all_within(s: Seq<ElementView>, lo: int, hi: int) -> bool {
    forall|k: int| 0 <= k < s.len() ==> within(#[trigger] s[k], lo, hi)
}

proof fn lemma_find_char_in(s: Seq<char>, c: char, from: int)
    ensures
        find_char(s, c, from) matches Some(j) ==> from <= j < s.len(),
    decreases s.len() - from,
{
    if 0 <= from < s.len() && s[from] != c {
        lemma_find_char_in(s, c, from + 1);
    }
}

proof fn lemma_find_closing_marker_in(s: Seq<char>, m: char, double: bool, from: int)
    ensures
        find_closing_marker(s, m, double, from) matches Some(j) ==> from <= j && j < s.len() && (
        double ==> j + 1 < s.len()),
    decreases s.len() - from,
{
    if 0 <= from < s.len() && !(s[from] == m && (!double || (from + 1 < s.len() && s[from + 1]
        == m))) {
        lemma_find_closing_marker_in(s, m, double, from + 1);
    }
}

proof fn lemma_insert_within(s: Seq<ElementView>, e: ElementView, lo: int, hi: int)
    requires
        all_within(s, lo, hi),
        within(e, lo, hi),
    ensures
        all_within(insert_by_start(s, e), lo, hi),
    decreases s.len(),
{
    if s.len() > 0 && s.last().start > e.start {
        assert(all_within(s.drop_last(), lo, hi)) by {
            assert forall|k: int| 0 <= k < s.drop_last().len() implies within(
                #[trigger] s.drop_last()[k],
                lo,
                hi,
            ) by {
                assert(s.drop_last()[k] == s[k]);
            }
        }
        lemma_insert_within(s.drop_last(), e, lo, hi);
        assert(within(s[s.len() - 1], lo, hi));
    }
}

proof fn lemma_sort_within(s: Seq<ElementView>, lo: int, hi: int)
    requires
        all_within(s, lo, hi),
    ensures
        all_within(sort_by_start(s), lo, hi),
    decreases s.len(),
{
    if s.len() > 0 {
        assert(all_within(s.drop_last(), lo, hi)) by {
            assert forall|k: int| 0 <= k < s.drop_last().len() implies within(
                #[trigger] s.drop_last()[k],
                lo,
                hi,
            ) by {
                assert(s.drop_last()[k] == s[k]);
            }
        }
        lemma_sort_within(s.drop_last(), lo, hi);
        assert(within(s[s.len() - 1], lo, hi));
        lemma_insert_within(sort_by_start(s.drop_last()), s.last(), lo, hi);
    }
}

proof fn lemma_concat_within(a: Seq<ElementView>, b: Seq<ElementView>, lo: int, hi: int)
    requires
        all_within(a, lo, hi),
        all_within(b, lo, hi),
    ensures
        all_within(a + b, lo, hi),
{
    assert forall|k: int| 0 <= k < (a + b).len() implies within(#[trigger] (a + b)[k], lo, hi) by {
        if k < a.len() {
            assert((a + b)[k] == a[k]);
        } else {
            assert((a + b)[k] == b[k - a.len()]);
        }
    }
}

proof fn lemma_line_elements_within(line: Seq<char>, o: int, headers: bool)
    requires
        o >= 0,
    ensures
        (line_parser(headers))(line, o) matches Some(e) ==> within(e, o, o + byte_len(line)),
{
    crate::text::lemma_ws_prefix_len_bound(line);
    lemma_byte_len_bounds(line, ws_prefix_len(line) as int);
    if headers {
        assert((line_parser(headers))(line, o) == spec_header_line(line, o));
    } else {
        assert((line_parser(headers))(line, o) == spec_list_item(line, o));
    }
}

proof fn lemma_per_line_within(
    headers: bool,
    ls: Seq<Seq<char>>,
    s: Seq<char>,
    off: int,
    n: int,
)
    requires
        ls == lines(s),
        n <= ls.len(),
        off >= 0,
    ensures
        all_within(per_line(line_parser(headers), ls, off, n), off, off + byte_len(s)),
    decreases n,
{
    if n > 0 {
        lemma_per_line_within(headers, ls, s, off, n - 1);
        let o = off + byte_line_offset(ls, n - 1);
        lemma_byte_line_offset_nonneg(ls, n - 1);
        lemma_line_elements_within(ls[n - 1], o, headers);
        crate::editor_state::lemma_byte_line_offset_bound(s, n - 1);
        lemma_concat_within(
            per_line(line_parser(headers), ls, off, n - 1),
            opt_seq((line_parser(headers))(ls[n - 1], o)),
            off,
            off + byte_len(s),
        );
    }
}

proof fn lemma_byte_line_offset_nonneg(ls: Seq<Seq<char>>, i: int)
    ensures
        byte_line_offset(ls, i) >= 0,
    decreases i,
{
    if i > 0 {
        lemma_byte_line_offset_nonneg(ls, i - 1);
    }
}

proof fn lemma_inline_at_within(s: Seq<char>, off: int, i: int)
    requires
        0 <= i < s.len(),
        off >= 0,
    ensures
        inline_at(s, off, i) matches Some(e) ==> within(e, off, off + byte_len(s)),
        link_at(s, off, i) matches Some(e) ==> within(e, off, off + byte_len(s)),
{
    let t = s.skip(i);
    lemma_byte_len_bounds(s, i);
    lemma_byte_len_bounds(t, 0);
    let m = t[0];
    let double = t.len() > 1 && t[1] == m;
    let ml: int = if double {
        2
    } else {
        1
    };
    lemma_find_closing_marker_in(t, m, double, ml);
    lemma_find_char_in(t, '`', 1);
    lemma_find_char_in(t, ']', 1);
    if let Some(te) = find_char(t, ']', 1) {
        lemma_find_char_in(t, ')', te + 2);
    }
}

proof fn lemma_inline_upto_within(s: Seq<char>, off: int, n: int)
    requires
        n <= s.len(),
        off >= 0,
    ensures
        all_within(inline_upto(s, off, n), off, off + byte_len(s)),
        all_within(links_upto(s, off, n), off, off + byte_len(s)),
    decreases n,
{
    if n > 0 {
        let i = n - 1;
        lemma_inline_upto_within(s, off, n - 1);
        lemma_inline_at_within(s, off, i);
        lemma_concat_within(inline_upto(s, off, n - 1), opt_seq(inline_at(s, off, i)), off, off
            + byte_len(s));
        lemma_concat_within(links_upto(s, off, n - 1), opt_seq(link_at(s, off, i)), off, off
            + byte_len(s));
    }
}

/// Every element the parser finds in `s` (placed at `off`) lies within
/// `off .. off + byte_len(s)`, and starts no later than it ends.
pub proof fn lemma_parse_text_within(s: Seq<char>, off: int)
    requires
        off >= 0,
    ensures
        all_within(spec_parse_text(s, off), off, off + byte_len(s)),
{
    lemma_per_line_within(true, lines(s), s, off, lines(s).len() as int);
    lemma_per_line_within(false, lines(s), s, off, lines(s).len() as int);
    lemma_inline_upto_within(s, off, s.len() as int);
    let h = spec_headers(s, off);
    let i = spec_inline(s, off);
    let l = spec_links(s, off);
    let li = spec_lists(s, off);
    lemma_concat_within(h, i, off, off + byte_len(s));
    lemma_concat_within(h + i, l, off, off + byte_len(s));
    lemma_concat_within(h + i + l, li, off, off + byte_len(s));
    lemma_sort_within(h + i + l + li, off, off + byte_len(s));
}

} // verus!
