//! Keyboard shortcuts for markdown formatting: bold and italic markers, and
//! indenting or unindenting list items. Positions are byte
//! offsets, as `str` indices are.
use vstd::prelude::*;

use crate::editor_state::{spec_line_column, CursorPosition};
use crate::syntax_parser::{min_int, opt_string_view, sat_sub};
use crate::text::{
    byte_len, byte_offsets, char_index, char_index_of, chars_of, is_char_boundary_at,
    lemma_byte_len_bounds, lemma_byte_len_push, lemma_byte_len_split, lemma_byte_prefix_strict, chars_range, contains_chars, contains_seq, is_digit, join, lines, line_spans,
    matches_at, occurs_at, owned, push_chars, push_str, spans_ok, string_of, trim_start,
    ws_prefix_len, ws_prefix_len_of,
};

verus! {

broadcast use vstd::string::group_string_axioms;

/// Keyboard shortcut actions for markdown formatting
#[derive(Debug, Clone, Copy, PartialEq, Eq, Structural)]
pub enum ShortcutAction {
    /// Bold text formatting (Ctrl+B / Cmd+B)
    Bold,
    /// Italic text formatting (Ctrl+I / Cmd+I)
    Italic,
    /// Indent list item (Tab)
    IndentList,
    /// Unindent list item (Shift+Tab)
    UnindentList,
}

/// Result of applying a keyboard shortcut
#[derive(Debug)]
pub struct ShortcutResult {
    /// The modified content after applying the shortcut
    pub content: String,
    /// The new cursor position after the modification
    pub cursor_position: CursorPosition,
    /// Whether the shortcut was successfully applied
    pub success: bool,
    /// Optional message about the operation
    pub message: Option<String>,
}

/// What a `ShortcutResult` says.
pub struct ShortcutView {
    pub content: Seq<char>,
    pub cursor: CursorPosition,
    pub success: bool,
    pub message: Option<Seq<char>>,
}

impl View for ShortcutResult {
    type V = ShortcutView;

    open spec fn view(&self) -> ShortcutView {
        ShortcutView {
            content: self.content@,
            cursor: self.cursor_position,
            success: self.success,
            message: opt_string_view(self.message),
        }
    }
}

/// Text selection range for keyboard shortcuts
#[derive(Debug, Clone, Copy, PartialEq, Eq, Structural)]
pub struct TextSelection {
    /// Start position of the selection (absolute position)
    pub start: usize,
    /// End position of the selection (absolute position)
    pub end: usize,
}

/// The text a selection covers, its ends counted in UTF-8 bytes: empty
/// when it starts at or past the end, and cut at the end of `s`.
pub open spec fn spec_extract(s: Seq<char>, sel: TextSelection) -> Seq<char> {
    if sel.start >= byte_len(s) {
        seq![]
    } else {
        s.subrange(
            char_index(s, sel.start as int),
            char_index(s, min_int(sel.end as int, byte_len(s) as int)),
        )
    }
}

/// The selection can be cut out of `s`: where it starts before the end, it
/// runs forward and both its start and its end (cut at the end of `s`) lie
/// between characters.
pub open spec fn extract_fits(s: Seq<char>, sel: TextSelection) -> bool {
    sel.start < byte_len(s) ==> {
        &&& sel.start <= sel.end
        &&& is_char_boundary_at(s, sel.start as int)
        &&& is_char_boundary_at(s, min_int(sel.end as int, byte_len(s) as int))
    }
}

impl TextSelection {
    /// Create a new text selection; the smaller end comes first.
    pub fn new(start: usize, end: usize) -> (r: Self)
        ensures
            r.start == min_int(start as int, end as int),
            r.end == if start <= end {
                end
            } else {
                start
            },
    {
        if start <= end {
            Self { start, end }
        } else {
            Self { start: end, end: start }
        }
    }

    /// Check if the selection is empty (cursor position)
    pub fn is_empty(&self) -> (b: bool)
        ensures
            b == (self.start == self.end),
    {
        self.start == self.end
    }

    /// Get the length of the selection
    pub fn len(&self) -> (n: usize)
        requires
            self.start <= self.end,
        ensures
            n == self.end - self.start,
    {
        self.end - self.start
    }

    /// Extract the selected text from content
    pub fn extract_text<'a>(&self, content: &'a str) -> (r: &'a str)
        requires
            extract_fits(content@, *self),
        ensures
            r@ == spec_extract(content@, *self),
    {
        let n = content.as_bytes().len();
        if self.start >= n {
            proof {
                reveal_strlit("");
            }
            return "";
        }
        let end = if self.end < n {
            self.end
        } else {
            n
        };
        let v = chars_of(content);
        let offs = byte_offsets(v.as_slice());
        let a = char_index_of(v.as_slice(), &offs, self.start);
        let b = char_index_of(v.as_slice(), &offs, end);
        proof {
            if b < a {
                lemma_byte_prefix_strict(v@, b as int, a as int);
            }
        }
        content.substring_char(a, b)
    }
}

// ---------------------------------------------------------------------------
// Specification of the shortcuts
// ---------------------------------------------------------------------------

/// Where absolute position `a` of `s` is shown; past the end, the end of the
/// last line.
pub open spec fn cursor_for(s: Seq<char>, a: int) -> CursorPosition {
    match spec_line_column(s, a) {
        Some(lc) => CursorPosition { line: lc.0 as usize, column: lc.1 as usize, absolute: a as usize },
        None => {
            let ls = lines(s);
            CursorPosition {
                line: sat_sub(ls.len() as int, 1) as usize,
                column: if ls.len() > 0 {
                    byte_len(ls.last()) as usize
                } else {
                    0
                },
                absolute: byte_len(s) as usize,
            }
        },
    }
}

pub open spec fn shortcut_view(
    content: Seq<char>,
    cursor: CursorPosition,
    success: bool,
    message: Seq<char>,
) -> ShortcutView {
    ShortcutView { content, cursor, success, message: Some(message) }
}

/// Wrapping the selection in `marker`, or, with an empty selection,
/// inserting the marker twice at the cursor and placing the cursor between.
pub open spec fn spec_wrap(
    s: Seq<char>,
    sel: TextSelection,
    cursor: CursorPosition,
    marker: Seq<char>,
    inserted: Seq<char>,
    applied: Seq<char>,
) -> ShortcutView {
    if sel.start == sel.end {
        let a = cursor.absolute as int;
        let k = char_index(s, a);
        let c = s.take(k) + marker + marker + s.skip(k);
        shortcut_view(c, cursor_for(c, a + byte_len(marker)), true, inserted)
    } else {
        let t = spec_extract(s, sel);
        let c = s.take(char_index(s, sel.start as int)) + marker + t + marker + s.skip(
            char_index(s, sel.end as int),
        );
        shortcut_view(
            c,
            cursor_for(c, sel.start + byte_len(marker) + byte_len(t) + byte_len(marker)),
            true,
            applied,
        )
    }
}

/// The character index of a boundary lies in the text, and its prefix has
/// exactly that many bytes.
proof fn lemma_boundary_index(s: Seq<char>, b: int)
    requires
        is_char_boundary_at(s, b),
    ensures
        0 <= char_index(s, b) <= s.len(),
        byte_len(s.take(char_index(s, b))) == b,
        b <= byte_len(s),
{
    let k = char_index(s, b);
    lemma_byte_len_bounds(s, k);
}

/// Wrapping only inserts markers: with an empty selection the marker goes
/// in twice at the cursor and the text around it is unchanged; otherwise
/// one marker goes before the selected text and one after it, and removing
/// the two gives back the original text. Either way the shortcut succeeds.
pub proof fn lemma_wrap_inserts_markers(
    s: Seq<char>,
    sel: TextSelection,
    cursor: CursorPosition,
    marker: Seq<char>,
    inserted: Seq<char>,
    applied: Seq<char>,
)
    requires
        wrap_fits(s, sel, cursor),
    ensures
        spec_wrap(s, sel, cursor, marker, inserted, applied).success,
        sel.start == sel.end ==> {
            let c = spec_wrap(s, sel, cursor, marker, inserted, applied).content;
            let k = char_index(s, cursor.absolute as int);
            &&& c.subrange(k, k + 2 * marker.len()) == marker + marker
            &&& c.take(k) + c.skip(k + 2 * marker.len()) == s
        },
        sel.start != sel.end && sel.start < byte_len(s) ==> {
            let c = spec_wrap(s, sel, cursor, marker, inserted, applied).content;
            let ks = char_index(s, sel.start as int);
            let ke = char_index(s, sel.end as int);
            let m = marker.len() as int;
            &&& ks <= ke
            &&& c.subrange(ks, ks + m) == marker
            &&& c.subrange(ks + m, ks + m + (ke - ks)) == s.subrange(ks, ke)
            &&& c.subrange(ks + m + (ke - ks), ks + 2 * m + (ke - ks)) == marker
            &&& c.take(ks) + c.subrange(ks + m, ks + m + (ke - ks)) + c.skip(ks + 2 * m + (ke - ks))
                == s
        },
{
    if sel.start == sel.end {
        lemma_boundary_index(s, cursor.absolute as int);
        let k = char_index(s, cursor.absolute as int);
        let c = s.take(k) + marker + marker + s.skip(k);
        assert(c.subrange(k, k + 2 * marker.len()) =~= marker + marker);
        assert(c.take(k) + c.skip(k + 2 * marker.len()) =~= s);
    } else if sel.start < byte_len(s) {
        lemma_boundary_index(s, sel.start as int);
        lemma_boundary_index(s, sel.end as int);
        let ks = char_index(s, sel.start as int);
        let ke = char_index(s, sel.end as int);
        if ke < ks {
            crate::text::lemma_byte_prefix_strict(s, ke, ks);
        }
        assert(min_int(sel.end as int, byte_len(s) as int) == sel.end);
        let t = spec_extract(s, sel);
        assert(t == s.subrange(ks, ke));
        let m = marker.len() as int;
        let c = s.take(ks) + marker + t + marker + s.skip(ke);
        assert(c.subrange(ks, ks + m) =~= marker);
        assert(c.subrange(ks + m, ks + m + (ke - ks)) =~= s.subrange(ks, ke));
        assert(c.subrange(ks + m + (ke - ks), ks + 2 * m + (ke - ks)) =~= marker);
        assert(c.take(ks) + c.subrange(ks + m, ks + m + (ke - ks)) + c.skip(ks + 2 * m + (ke - ks))
            =~= s);
    }
}

pub open spec fn spec_bold(s: Seq<char>, sel: TextSelection, cursor: CursorPosition) -> ShortcutView {
    spec_wrap(s, sel, cursor, "**"@, "Inserted bold markers"@, "Applied bold formatting"@)
}

pub open spec fn spec_italic(s: Seq<char>, sel: TextSelection, cursor: CursorPosition) -> ShortcutView {
    spec_wrap(s, sel, cursor, "*"@, "Inserted italic markers"@, "Applied italic formatting"@)
}

/// The wrapping shortcuts can cut `s` where they need to, between
/// characters: at the cursor for an empty selection, else at both ends of
/// the selection (byte positions, as `str` slicing takes them). The
/// content's length leaves room for the markers, as any `String` does.
pub open spec fn wrap_fits(s: Seq<char>, sel: TextSelection, cursor: CursorPosition) -> bool {
    &&& byte_len(s) + 4 <= usize::MAX
    &&& sel.start == sel.end ==> cursor.absolute <= byte_len(s) && is_char_boundary_at(
        s,
        cursor.absolute as int,
    )
    &&& sel.start != sel.end ==> {
        &&& is_char_boundary_at(s, sel.start as int)
        &&& is_char_boundary_at(s, sel.end as int)
        &&& sel.start < byte_len(s) ==> sel.start <= sel.end
    }
}

/// A list item: after leading whitespace, `- `, `* ` or `+ `, or an ASCII
/// digit followed somewhere by `. `.
pub open spec fn spec_is_list_line(line: Seq<char>) -> bool {
    let t = trim_start(line);
    ||| occurs_at(t, seq!['-', ' '], 0)
    ||| occurs_at(t, seq!['*', ' '], 0)
    ||| occurs_at(t, seq!['+', ' '], 0)
    ||| (t.len() > 0 && is_digit(t[0]) && contains_seq(t, seq!['.', ' ']))
}

/// A line whose text, after its leading whitespace, starts with an ASCII
/// digit and has `. ` somewhere after it (any numbered item, whatever the
/// number of digits) is a list item; so is one that starts with `- `, `* `
/// or `+ `. A line whose text starts with none of these is not.
pub proof fn lemma_list_line_markers(line: Seq<char>, p: int)
    ensures
        ({
            let t = trim_start(line);
            t.len() > 0 && '0' <= t[0] <= '9' && 0 <= p && p + 1 < t.len() && t[p] == '.' && t[p
                + 1] == ' ' ==> spec_is_list_line(line)
        }),
        ({
            let t = trim_start(line);
            t.len() >= 2 && (t[0] == '-' || t[0] == '*' || t[0] == '+') && t[1] == ' '
                ==> spec_is_list_line(line)
        }),
        ({
            let t = trim_start(line);
            (t.len() == 0 || !('0' <= t[0] <= '9')) && !(t.len() >= 2 && (t[0] == '-' || t[0] == '*'
                || t[0] == '+') && t[1] == ' ') ==> !spec_is_list_line(line)
        }),
{
    let t = trim_start(line);
    if t.len() > 0 && '0' <= t[0] <= '9' && 0 <= p && p + 1 < t.len() && t[p] == '.' && t[p + 1]
        == ' ' {
        assert(t.subrange(p, p + 2) =~= seq!['.', ' ']);
        assert(occurs_at(t, seq!['.', ' '], p));
    }
    if t.len() >= 2 && t[1] == ' ' {
        if t[0] == '-' {
            assert(t.subrange(0, 2) =~= seq!['-', ' ']);
        } else if t[0] == '*' {
            assert(t.subrange(0, 2) =~= seq!['*', ' ']);
        } else if t[0] == '+' {
            assert(t.subrange(0, 2) =~= seq!['+', ' ']);
        }
    }
    if t.len() >= 2 {
        assert(t.subrange(0, 2)[0] == t[0] && t.subrange(0, 2)[1] == t[1]);
    }
}

/// Indenting the cursor's line when it is a numbered item (any number of
/// digits, then `. `) succeeds and puts two spaces before that line.
pub proof fn lemma_indent_numbered_item(s: Seq<char>, cursor: CursorPosition, p: int)
    requires
        cursor.line < lines(s).len(),
        trim_start(lines(s)[cursor.line as int]).len() > 0,
        '0' <= trim_start(lines(s)[cursor.line as int])[0] <= '9',
        0 <= p && p + 1 < trim_start(lines(s)[cursor.line as int]).len(),
        trim_start(lines(s)[cursor.line as int])[p] == '.',
        trim_start(lines(s)[cursor.line as int])[p + 1] == ' ',
    ensures
        spec_indent(s, cursor).success,
        spec_indent(s, cursor).content == join(
            lines(s).update(cursor.line as int, "  "@ + lines(s)[cursor.line as int]),
            "\n"@,
        ),
{
    lemma_list_line_markers(lines(s)[cursor.line as int], p);
}

pub open spec fn spec_indent(s: Seq<char>, cursor: CursorPosition) -> ShortcutView {
    let ls = lines(s);
    let i = cursor.line as int;
    if i >= ls.len() {
        shortcut_view(s, cursor, false, "Invalid cursor position"@)
    } else if !spec_is_list_line(ls[i]) {
        shortcut_view(s, cursor, false, "Not a list item"@)
    } else {
        let c = join(ls.update(i, "  "@ + ls[i]), "\n"@);
        shortcut_view(c, cursor_for(c, cursor.absolute + 2), true, "Indented list item"@)
    }
}

/// The cursor can move past the added indentation.
pub open spec fn indent_fits(s: Seq<char>, cursor: CursorPosition) -> bool {
    cursor.line < lines(s).len() && spec_is_list_line(lines(s)[cursor.line as int])
        ==> cursor.absolute + 2 <= usize::MAX
}

/// How much indentation unindenting removes: one tab, else up to two
/// whitespace characters.
pub open spec fn unindent_count(l: Seq<char>) -> int {
    if l.len() > 0 && l[0] == '\t' {
        1
    } else {
        min_int(ws_prefix_len(l) as int, 2)
    }
}

/// Unindenting a line that indenting produced removes exactly the two
/// spaces indenting added.
pub proof fn lemma_unindent_undoes_indent(l: Seq<char>)
    ensures
        ws_prefix_len("  "@ + l) >= 2,
        unindent_count("  "@ + l) == 2,
        ("  "@ + l).skip(unindent_count("  "@ + l)) == l,
{
    reveal_strlit("  ");
    let t = "  "@ + l;
    assert(t[0] == ' ' && t[1] == ' ');
    assert(t.drop_first().drop_first() =~= l);
    assert(t.drop_first()[0] == ' ');
    assert(crate::text::is_ws(' '));
    assert(ws_prefix_len(t.drop_first()) == 1 + ws_prefix_len(t.drop_first().drop_first()));
    assert(ws_prefix_len(t) == 1 + ws_prefix_len(t.drop_first()));
    assert(t.skip(2) =~= l);
}

/// Unindenting the line that indenting changed gives the document back, for
/// a document whose lines `str::lines` keeps as they are (a document ending
/// with a newline, or with `\r\n` line ends, loses them to the line
/// splitting both shortcuts do).
pub proof fn lemma_unindent_restores_document(
    ls: Seq<Seq<char>>,
    cursor: CursorPosition,
    later: CursorPosition,
)
    requires
        crate::text::plain_lines(ls),
        cursor.line < ls.len(),
        spec_is_list_line(ls[cursor.line as int]),
        later.line == cursor.line,
    ensures
        spec_indent(join(ls, "\n"@), cursor).success,
        spec_unindent(spec_indent(join(ls, "\n"@), cursor).content, later).success,
        spec_unindent(spec_indent(join(ls, "\n"@), cursor).content, later).content == join(
            ls,
            "\n"@,
        ),
{
    reveal_strlit("\n");
    reveal_strlit("  ");
    assert("\n"@ =~= seq!['\n']);
    let i = cursor.line as int;
    crate::text::lemma_lines_of_join(ls);
    let l2 = "  "@ + ls[i];
    let ls2 = ls.update(i, l2);
    assert(crate::text::plain_lines(ls2)) by {
        assert forall|j: int| 0 <= j < ls2.len() implies !(#[trigger] ls2[j]).contains('\n') by {
            if j == i {
                if l2.contains('\n') {
                    let k = choose|k: int| 0 <= k < l2.len() && l2[k] == '\n';
                    if k >= 2 {
                        assert(ls[i][k - 2] == '\n');
                    }
                }
            }
        }
        assert forall|j: int| 0 <= j < ls2.len() && (#[trigger] ls2[j]).len() > 0 implies ls2[j].last()
            != '\r' by {
            if j == i && ls[i].len() > 0 {
                assert(l2.last() == ls[i].last());
            }
        }
    }
    crate::text::lemma_lines_of_join(ls2);
    lemma_unindent_undoes_indent(ls[i]);
    assert(ls2.update(i, ls[i]) =~= ls);
}

pub open spec fn spec_unindent(s: Seq<char>, cursor: CursorPosition) -> ShortcutView {
    let ls = lines(s);
    let i = cursor.line as int;
    if i >= ls.len() {
        shortcut_view(s, cursor, false, "Invalid cursor position"@)
    } else if ws_prefix_len(ls[i]) == 0 {
        shortcut_view(s, cursor, false, "No indentation to remove"@)
    } else {
        let r = unindent_count(ls[i]);
        let c = join(ls.update(i, ls[i].skip(r)), "\n"@);
        shortcut_view(c, cursor_for(c, sat_sub(cursor.absolute as int, r)), true, "Unindented list item"@)
    }
}

/// What `apply_shortcut` does with an action.
pub open spec fn spec_shortcut(
    action: ShortcutAction,
    s: Seq<char>,
    sel: TextSelection,
    cursor: CursorPosition,
) -> ShortcutView {
    match action {
        ShortcutAction::Bold => spec_bold(s, sel, cursor),
        ShortcutAction::Italic => spec_italic(s, sel, cursor),
        ShortcutAction::IndentList => spec_indent(s, cursor),
        ShortcutAction::UnindentList => spec_unindent(s, cursor),
    }
}

pub open spec fn shortcut_fits(
    action: ShortcutAction,
    s: Seq<char>,
    sel: TextSelection,
    cursor: CursorPosition,
) -> bool {
    match action {
        ShortcutAction::Bold | ShortcutAction::Italic => wrap_fits(s, sel, cursor),
        ShortcutAction::IndentList => indent_fits(s, cursor),
        ShortcutAction::UnindentList => true,
    }
}

// ---------------------------------------------------------------------------
// Building the new content
// ---------------------------------------------------------------------------

/// A marker of one or two stars has a byte per star.
proof fn lemma_ascii_marker(m: Seq<char>)
    requires
        m == seq!['*'] || m == seq!['*', '*'],
    ensures
        byte_len(m) == m.len(),
{
    if m.len() == 1 {
        lemma_byte_len_push(Seq::<char>::empty(), '*');
        assert(Seq::<char>::empty().push('*') =~= m);
    } else {
        lemma_byte_len_push(Seq::<char>::empty(), '*');
        lemma_byte_len_push(seq!['*'], '*');
        assert(Seq::<char>::empty().push('*') =~= seq!['*']);
        assert(seq!['*'].push('*') =~= m);
    }
}

/// The lines of `v`, as `spans` marks them, joined by `'\n'`, with line
/// `idx` replaced by `repl`.
fn join_replacing(v: &[char], spans: &Vec<(usize, usize)>, idx: usize, repl: &str) -> (r: String)
    requires
        spans_ok(v@, spans@),
        idx < spans@.len(),
    ensures
        r@ == join(lines(v@).update(idx as int, repl@), "\n"@),
{
    let ghost ls = lines(v@).update(idx as int, repl@);
    let mut s = String::new();
    let mut i: usize = 0;
    assert(s@ =~= join(ls.take(0), "\n"@));
    while i < spans.len()
        invariant
            spans_ok(v@, spans@),
            idx < spans@.len(),
            i <= spans@.len(),
            ls == lines(v@).update(idx as int, repl@),
            ls.len() == spans@.len(),
            s@ == join(ls.take(i as int), "\n"@),
        decreases spans@.len() - i,
    {
        let ghost before = s@;
        if i > 0 {
            push_str(&mut s, "\n");
        }
        if i == idx {
            push_str(&mut s, repl);
        } else {
            let (a, b) = spans[i];
            assert(v@.subrange(a as int, b as int) == lines(v@)[i as int]);
            push_chars(&mut s, v, a, b);
        }
        proof {
            assert(ls.take(i + 1).drop_last() =~= ls.take(i as int));
            assert(ls.take(i + 1).last() == ls[i as int]);
            if i == 0 {
                assert(s@ =~= join(ls.take(1), "\n"@));
            } else {
                assert(s@ =~= before + "\n"@ + ls[i as int]);
            }
        }
        i += 1;
    }
    assert(ls.take(i as int) =~= ls);
    s
}

fn failed(content: &str, cursor_position: CursorPosition, message: &str) -> (r: ShortcutResult)
    ensures
        r@ == shortcut_view(content@, cursor_position, false, message@),
{
    ShortcutResult {
        content: owned(content),
        cursor_position,
        success: false,
        message: Some(owned(message)),
    }
}

/// Keyboard shortcut handler for markdown formatting
pub struct KeyboardShortcutHandler;

impl KeyboardShortcutHandler {
    /// Create a new keyboard shortcut handler
    pub fn new() -> Self {
        Self
    }

    /// Apply a keyboard shortcut action to the content
    pub fn apply_shortcut(
        &self,
        action: ShortcutAction,
        content: &str,
        selection: TextSelection,
        cursor_position: CursorPosition,
    ) -> (r: ShortcutResult)
        requires
            shortcut_fits(action, content@, selection, cursor_position),
        ensures
            r@ == spec_shortcut(action, content@, selection, cursor_position),
    {
        match action {
            ShortcutAction::Bold => self.apply_bold(content, selection, cursor_position),
            ShortcutAction::Italic => self.apply_italic(content, selection, cursor_position),
            ShortcutAction::IndentList => self.apply_indent_list(content, cursor_position),
            ShortcutAction::UnindentList => self.apply_unindent_list(content, cursor_position),
        }
    }

    fn apply_wrap(
        &self,
        content: &str,
        selection: TextSelection,
        cursor_position: CursorPosition,
        marker: &str,
        inserted: &str,
        applied: &str,
    ) -> (r: ShortcutResult)
        requires
            wrap_fits(content@, selection, cursor_position),
            1 <= byte_len(marker@) <= 2,
        ensures
            r@ == spec_wrap(content@, selection, cursor_position, marker@, inserted@, applied@),
    {
        let total = content.as_bytes().len();
        let v = chars_of(content);
        let offs = byte_offsets(v.as_slice());
        let m = marker.as_bytes().len();
        proof {
            assert(v@.take(v@.len() as int) =~= v@);
            lemma_byte_len_bounds(marker@, 0);
        }
        if selection.is_empty() {
            let a = cursor_position.absolute;
            let k = char_index_of(v.as_slice(), &offs, a);
            proof {
                lemma_byte_len_bounds(v@, k as int);
            }
            let mut s = string_of(v.as_slice(), 0, k);
            push_str(&mut s, marker);
            push_str(&mut s, marker);
            push_chars(&mut s, v.as_slice(), k, v.len());
            let ghost c = content@.take(k as int) + marker@ + marker@ + content@.skip(k as int);
            assert(s@ =~= c);
            let new_cursor = self.calculate_cursor_position(s.as_str(), a + m);
            ShortcutResult {
                content: s,
                cursor_position: new_cursor,
                success: true,
                message: Some(owned(inserted)),
            }
        } else {
            let ks = char_index_of(v.as_slice(), &offs, selection.start);
            let ke = char_index_of(v.as_slice(), &offs, selection.end);
            proof {
                if selection.start < total {
                    assert(min_int(selection.end as int, total as int) == selection.end) by {
                        lemma_byte_len_bounds(v@, ke as int);
                    }
                }
            }
            let selected_text = selection.extract_text(content);
            let t = selected_text.as_bytes().len();
            proof {
                lemma_byte_len_bounds(v@, ks as int);
                lemma_byte_len_bounds(v@, ke as int);
                if selection.start >= total {
                    assert(selected_text@ =~= Seq::<char>::empty());
                }
                if selection.start < total {
                    if ke < ks {
                        lemma_byte_prefix_strict(v@, ke as int, ks as int);
                    }
                    lemma_byte_len_split(v@, ks as int, ke as int);
                    lemma_byte_len_bounds(v@, ke as int);
                }
            }
            let mut s = string_of(v.as_slice(), 0, ks);
            push_str(&mut s, marker);
            push_str(&mut s, selected_text);
            push_str(&mut s, marker);
            push_chars(&mut s, v.as_slice(), ke, v.len());
            let ghost c = content@.take(ks as int) + marker@ + selected_text@ + marker@
                + content@.skip(ke as int);
            assert(s@ =~= c);
            let new_cursor = self.calculate_cursor_position(s.as_str(), selection.start + m + t + m);
            ShortcutResult {
                content: s,
                cursor_position: new_cursor,
                success: true,
                message: Some(owned(applied)),
            }
        }
    }

    /// Apply bold formatting (wrap with `**`)
    pub fn apply_bold(
        &self,
        content: &str,
        selection: TextSelection,
        cursor_position: CursorPosition,
    ) -> (r: ShortcutResult)
        requires
            wrap_fits(content@, selection, cursor_position),
        ensures
            r@ == spec_bold(content@, selection, cursor_position),
    {
        proof {
            reveal_strlit("**");
            assert("**"@ =~= seq!['*', '*']);
            lemma_ascii_marker("**"@);
        }
        self.apply_wrap(
            content,
            selection,
            cursor_position,
            "**",
            "Inserted bold markers",
            "Applied bold formatting",
        )
    }

    /// Apply italic formatting (wrap with `*`)
    pub fn apply_italic(
        &self,
        content: &str,
        selection: TextSelection,
        cursor_position: CursorPosition,
    ) -> (r: ShortcutResult)
        requires
            wrap_fits(content@, selection, cursor_position),
        ensures
            r@ == spec_italic(content@, selection, cursor_position),
    {
        proof {
            reveal_strlit("*");
            assert("*"@ =~= seq!['*']);
            lemma_ascii_marker("*"@);
        }
        self.apply_wrap(
            content,
            selection,
            cursor_position,
            "*",
            "Inserted italic markers",
            "Applied italic formatting",
        )
    }

    /// Apply list indentation (two spaces at the start of the cursor's line)
    pub fn apply_indent_list(&self, content: &str, cursor_position: CursorPosition) -> (r:
        ShortcutResult)
        requires
            indent_fits(content@, cursor_position),
        ensures
            r@ == spec_indent(content@, cursor_position),
    {
        let v = chars_of(content);
        let spans = line_spans(v.as_slice());
        let line = cursor_position.line;
        if line >= spans.len() {
            return failed(content, cursor_position, "Invalid cursor position");
        }
        let (a, b) = spans[line];
        assert(v@.subrange(a as int, b as int) == lines(v@)[line as int]);
        let current_line = string_of(v.as_slice(), a, b);
        if !self.is_list_line(current_line.as_str()) {
            return failed(content, cursor_position, "Not a list item");
        }
        let mut indented = owned("  ");
        push_chars(&mut indented, v.as_slice(), a, b);
        let new_content = join_replacing(v.as_slice(), &spans, line, indented.as_str());
        let new_cursor = self.calculate_cursor_position(
            new_content.as_str(),
            cursor_position.absolute + 2,
        );
        ShortcutResult {
            content: new_content,
            cursor_position: new_cursor,
            success: true,
            message: Some(owned("Indented list item")),
        }
    }

    /// Apply list unindentation (one tab, or up to two whitespace characters)
    #[verifier::rlimit(40)]
    pub fn apply_unindent_list(&self, content: &str, cursor_position: CursorPosition) -> (r:
        ShortcutResult)
        ensures
            r@ == spec_unindent(content@, cursor_position),
    {
        let v = chars_of(content);
        let spans = line_spans(v.as_slice());
        let line = cursor_position.line;
        if line >= spans.len() {
            return failed(content, cursor_position, "Invalid cursor position");
        }
        let (a, b) = spans[line];
        let ghost l = lines(v@)[line as int];
        assert(v@.subrange(a as int, b as int) == l);
        let indent_len = ws_prefix_len_of(v.as_slice(), a, b);
        if indent_len == 0 {
            return failed(content, cursor_position, "No indentation to remove");
        }
        let to_remove: usize = if v[a] == '\t' {
            1
        } else if indent_len < 2 {
            indent_len
        } else {
            2
        };
        assert(l[0] == v@[a as int]);
        let rest = string_of(v.as_slice(), a + to_remove, b);
        assert(rest@ =~= l.skip(to_remove as int));
        let new_content = join_replacing(v.as_slice(), &spans, line, rest.as_str());
        let new_absolute = if cursor_position.absolute >= to_remove {
            cursor_position.absolute - to_remove
        } else {
            0
        };
        let new_cursor = self.calculate_cursor_position(new_content.as_str(), new_absolute);
        ShortcutResult {
            content: new_content,
            cursor_position: new_cursor,
            success: true,
            message: Some(owned("Unindented list item")),
        }
    }

    /// Check if a line is a list item
    pub fn is_list_line(&self, line: &str) -> (b: bool)
        ensures
            b == spec_is_list_line(line@),
    {
        let v = chars_of(line);
        let k = ws_prefix_len_of(v.as_slice(), 0, v.len());
        assert(v@.subrange(0, v@.len() as int) =~= v@);
        let t = chars_range(v.as_slice(), k, v.len());
        assert(t@ =~= trim_start(line@));
        let dash = vec!['-', ' '];
        let star = vec!['*', ' '];
        let plus = vec!['+', ' '];
        let dot = vec!['.', ' '];
        matches_at(t.as_slice(), 0, dash.as_slice()) || matches_at(t.as_slice(), 0, star.as_slice())
            || matches_at(t.as_slice(), 0, plus.as_slice()) || (t.len() > 0 && '0' <= t[0]
            && t[0] <= '9' && contains_chars(t.as_slice(), dot.as_slice()))
    }

    /// The cursor position of absolute position `absolute` in `content`.
    pub fn calculate_cursor_position(&self, content: &str, absolute: usize) -> (p: CursorPosition)
        ensures
            p == cursor_for(content@, absolute as int),
    {
        match CursorPosition::calculate_line_column(content, absolute) {
            Some(lc) => CursorPosition::new(lc.0, lc.1, absolute),
            None => {
                let total = content.as_bytes().len();
                let v = chars_of(content);
                let spans = line_spans(v.as_slice());
                let n = spans.len();
                if n > 0 {
                    let (a, b) = spans[n - 1];
                    assert(v@.subrange(a as int, b as int) == lines(v@)[n - 1]);
                    let tail = string_of(v.as_slice(), a, b);
                    CursorPosition::new(n - 1, tail.as_str().as_bytes().len(), total)
                } else {
                    CursorPosition::new(0, 0, total)
                }
            },
        }
    }
}

impl Default for KeyboardShortcutHandler {
    fn default() -> Self {
        Self::new()
    }
}

} // verus!
