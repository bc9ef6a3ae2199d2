//! Editor modes, cursor positions in line/column and absolute coordinates,
//! and content statistics.
use vstd::prelude::*;

use std::time::{Duration, SystemTime};

use uuid::Uuid;

use crate::clock::{as_secs, system_elapsed, system_now};
use crate::text::{
    byte_len, byte_line_offset, byte_offsets, chars_of, decimal, hex, is_whitespace_char, is_ws,
    lemma_byte_len_bounds, lemma_byte_len_concat, lemma_byte_len_push, lemma_byte_len_split, lemma_byte_line_offset_le_span, lemma_newline_index, lemma_span_bytes,
    line_offset, line_spans, lines, newline_index, owned, push_decimal, push_hex, push_str,
    spans_ok, strip_cr,
};

verus! {

broadcast use vstd::string::group_string_axioms;

/// Editor modes for different editing experiences
#[derive(Debug, Clone, Copy, PartialEq, Eq, Structural)]
pub enum EditorMode {
    /// Raw text editing mode - plain markdown text
    Raw,
    /// Live WYSIWYG mode - inline rendering with editing
    Live,
    /// Preview-only mode - read-only rendered view
    Preview,
}

impl EditorMode {
    /// The mode's name as it is displayed: `raw`, `live` or `preview`.
    pub fn as_str(&self) -> (s: &'static str)
        ensures
            s@ == mode_name(*self),
    {
        proof {
            reveal_strlit("raw");
            reveal_strlit("live");
            reveal_strlit("preview");
        }
        match self {
            EditorMode::Raw => "raw",
            EditorMode::Live => "live",
            EditorMode::Preview => "preview",
        }
    }
}

/// How a mode is displayed.
pub open spec fn mode_name(m: EditorMode) -> Seq<char> {
    match m {
        EditorMode::Raw => seq!['r', 'a', 'w'],
        EditorMode::Live => seq!['l', 'i', 'v', 'e'],
        EditorMode::Preview => seq!['p', 'r', 'e', 'v', 'i', 'e', 'w'],
    }
}

impl Default for EditorMode {
    fn default() -> (m: Self)
        ensures
            m == EditorMode::Raw,
    {
        EditorMode::Raw
    }
}

/// Cursor position in the editor with multiple coordinate systems
#[derive(Debug, Clone, Copy, PartialEq, Eq, Structural)]
pub struct CursorPosition {
    /// Line number (0-based)
    pub line: usize,
    /// Column number (0-based)
    pub column: usize,
    /// Absolute byte position from start of document
    pub absolute: usize,
}

/// Whether `(line, column, absolute)` lies within `s`. Columns and
/// absolute positions count UTF-8 bytes, as `str` lengths do.
pub open spec fn spec_valid_for(p: CursorPosition, s: Seq<char>) -> bool {
    &&& p.line < lines(s).len()
    &&& p.column <= byte_len(lines(s)[p.line as int])
    &&& p.absolute <= byte_len(s)
}

/// The absolute byte position of `(line, column)` in `s`.
pub open spec fn spec_absolute(s: Seq<char>, line: int, column: int) -> Option<int> {
    let ls = lines(s);
    if line < 0 || line >= ls.len() || column < 0 || column > byte_len(ls[line]) {
        None
    } else {
        Some(byte_line_offset(ls, line) + column)
    }
}

/// First line, from `i` on, whose end is not before byte `a`.
pub open spec fn line_reaching(ls: Seq<Seq<char>>, a: int, i: int) -> Option<int>
    decreases ls.len() - i,
{
    if i < 0 || i >= ls.len() {
        None
    } else if a <= byte_line_offset(ls, i) + byte_len(ls[i]) {
        Some(i)
    } else {
        line_reaching(ls, a, i + 1)
    }
}

/// The `(line, column)` of absolute byte position `a` in `s`.
pub open spec fn spec_line_column(s: Seq<char>, a: int) -> Option<(int, int)> {
    let ls = lines(s);
    if a < 0 || a > byte_len(s) {
        None
    } else {
        match line_reaching(ls, a, 0) {
            Some(i) => Some((i, a - byte_line_offset(ls, i))),
            None => if a == byte_len(s) && ls.len() > 0 {
                Some(((ls.len() - 1) as int, byte_len(ls.last()) as int))
            } else {
                None
            },
        }
    }
}

pub open spec fn opt_pair(o: Option<(usize, usize)>) -> Option<(int, int)> {
    match o {
        Some(p) => Some((p.0 as int, p.1 as int)),
        None => None,
    }
}

pub open spec fn opt_usize(o: Option<usize>) -> Option<int> {
    match o {
        Some(x) => Some(x as int),
        None => None,
    }
}

impl CursorPosition {
    /// Create a new cursor position
    pub fn new(line: usize, column: usize, absolute: usize) -> (p: Self)
        ensures
            p.line == line,
            p.column == column,
            p.absolute == absolute,
    {
        Self { line, column, absolute }
    }

    /// Create cursor position at document start
    pub fn start() -> (p: Self)
        ensures
            p == (CursorPosition { line: 0, column: 0, absolute: 0 }),
    {
        Self::new(0, 0, 0)
    }

    /// Check if this position is valid for the given content
    pub fn is_valid_for_content(&self, content: &str) -> (b: bool)
        ensures
            b == spec_valid_for(*self, content@),
    {
        let total = content.as_bytes().len();
        let v = chars_of(content);
        let offs = byte_offsets(v.as_slice());
        let spans = line_spans(v.as_slice());
        if self.line >= spans.len() {
            return false;
        }
        let (a, b) = spans[self.line];
        proof {
            lemma_span_bytes(v@, spans@, self.line as int);
            assert(offs@[a as int] == byte_len(v@.take(a as int)));
            assert(offs@[b as int] == byte_len(v@.take(b as int)));
            assert(v@.take(v@.len() as int) =~= v@);
        }
        if self.column > offs[b] - offs[a] {
            return false;
        }
        self.absolute <= total
    }

    /// Calculate absolute position from line and column, in bytes
    pub fn calculate_absolute(content: &str, line: usize, column: usize) -> (r: Option<usize>)
        ensures
            opt_usize(r) == spec_absolute(content@, line as int, column as int),
    {
        let total = content.as_bytes().len();
        let v = chars_of(content);
        let offs = byte_offsets(v.as_slice());
        let spans = line_spans(v.as_slice());
        let ghost ls = lines(v@);
        if line >= spans.len() {
            return None;
        }
        proof {
            assert(v@.take(v@.len() as int) =~= v@);
        }
        let mut absolute: usize = 0;
        let mut i: usize = 0;
        while i < line
            invariant
                spans_ok(v@, spans@),
                ls == lines(v@),
                offs@.len() == v@.len() + 1,
                forall|k: int| 0 <= k <= v@.len() ==> #[trigger] offs@[k] == byte_len(v@.take(k)),
                total == byte_len(v@),
                line < spans@.len(),
                i <= line,
                absolute == byte_line_offset(ls, i as int),
            decreases line - i,
        {
            let (a, b) = spans[i];
            proof {
                lemma_span_bytes(v@, spans@, i as int);
                lemma_span_bytes(v@, spans@, i + 1);
                assert(offs@[a as int] == byte_len(v@.take(a as int)));
                assert(offs@[b as int] == byte_len(v@.take(b as int)));
            }
            absolute = absolute + (offs[b] - offs[a]) + 1;
            i += 1;
        }
        let (a, b) = spans[line];
        proof {
            lemma_span_bytes(v@, spans@, line as int);
            assert(offs@[a as int] == byte_len(v@.take(a as int)));
            assert(offs@[b as int] == byte_len(v@.take(b as int)));
        }
        if column <= offs[b] - offs[a] {
            Some(absolute + column)
        } else {
            None
        }
    }

    /// Calculate line and column from absolute position, in bytes
    #[verifier::rlimit(50)]
    pub fn calculate_line_column(content: &str, absolute: usize) -> (r: Option<(usize, usize)>)
        ensures
            opt_pair(r) == spec_line_column(content@, absolute as int),
    {
        let total = content.as_bytes().len();
        if absolute > total {
            return None;
        }
        let v = chars_of(content);
        let offs = byte_offsets(v.as_slice());
        let spans = line_spans(v.as_slice());
        let ghost ls = lines(v@);
        proof {
            assert(v@.take(v@.len() as int) =~= v@);
        }
        let mut current_pos: usize = 0;
        let mut i: usize = 0;
        while i < spans.len()
            invariant
                spans_ok(v@, spans@),
                ls == lines(v@),
                v@ == content@,
                offs@.len() == v@.len() + 1,
                forall|k: int| 0 <= k <= v@.len() ==> #[trigger] offs@[k] == byte_len(v@.take(k)),
                total == byte_len(v@),
                absolute <= total,
                i <= spans@.len(),
                current_pos == byte_line_offset(ls, i as int),
                current_pos <= absolute,
                line_reaching(ls, absolute as int, 0) == line_reaching(ls, absolute as int, i as int),
            decreases spans@.len() - i,
        {
            let (a, b) = spans[i];
            proof {
                lemma_span_bytes(v@, spans@, i as int);
                assert(offs@[a as int] == byte_len(v@.take(a as int)));
                assert(offs@[b as int] == byte_len(v@.take(b as int)));
            }
            let line_end = current_pos + (offs[b] - offs[a]);
            if absolute <= line_end {
                proof {
                    assert(line_reaching(ls, absolute as int, i as int) == Some(i as int));
                }
                return Some((i, absolute - current_pos));
            }
            proof {
                assert(line_reaching(ls, absolute as int, i as int) == line_reaching(
                    ls,
                    absolute as int,
                    i + 1,
                ));
                assert(byte_line_offset(ls, i + 1) == byte_line_offset(ls, i as int) + byte_len(
                    ls[i as int],
                ) + 1);
            }
            current_pos = line_end + 1;
            i += 1;
        }
        if absolute == total && spans.len() > 0 {
            let (a, b) = spans[spans.len() - 1];
            proof {
                lemma_span_bytes(v@, spans@, spans@.len() - 1);
                assert(offs@[a as int] == byte_len(v@.take(a as int)));
                assert(offs@[b as int] == byte_len(v@.take(b as int)));
            }
            return Some((spans.len() - 1, offs[b] - offs[a]));
        }
        None
    }

    /// Update absolute position based on line and column
    pub fn update_absolute(&mut self, content: &str)
        ensures
            match spec_absolute(content@, old(self).line as int, old(self).column as int) {
                Some(a) => *final(self) == (CursorPosition { absolute: a as usize, ..*old(self) }),
                None => *final(self) == *old(self),
            },
    {
        if let Some(absolute) = Self::calculate_absolute(content, self.line, self.column) {
            self.absolute = absolute;
        }
    }

    /// Update line and column based on absolute position
    pub fn update_line_column(&mut self, content: &str)
        ensures
            match spec_line_column(content@, old(self).absolute as int) {
                Some((l, c)) => *final(self) == (CursorPosition {
                    line: l as usize,
                    column: c as usize,
                    ..*old(self)
                }),
                None => *final(self) == *old(self),
            },
    {
        if let Some((line, column)) = Self::calculate_line_column(content, self.absolute) {
            self.line = line;
            self.column = column;
        }
    }
}

impl Default for CursorPosition {
    fn default() -> (p: Self)
        ensures
            p == (CursorPosition { line: 0, column: 0, absolute: 0 }),
    {
        Self::start()
    }
}

/// Byte offsets of consecutive lines grow by the line length plus one.
proof fn lemma_byte_line_offset_mono(ls: Seq<Seq<char>>, i: int, j: int)
    requires
        0 <= i <= j <= ls.len(),
    ensures
        byte_line_offset(ls, i) <= byte_line_offset(ls, j),
        i < j ==> byte_line_offset(ls, i) + byte_len(ls[i]) < byte_line_offset(ls, j),
    decreases j - i,
{
    if i < j {
        lemma_byte_line_offset_mono(ls, i, j - 1);
        if i < j - 1 {
            assert(byte_line_offset(ls, j) == byte_line_offset(ls, j - 1) + byte_len(ls[j - 1]) + 1);
        }
    }
}

proof fn lemma_line_reaching_is(ls: Seq<Seq<char>>, a: int, i: int, l: int)
    requires
        0 <= i <= l < ls.len(),
        byte_line_offset(ls, l) <= a <= byte_line_offset(ls, l) + byte_len(ls[l]),
    ensures
        line_reaching(ls, a, i) == Some(l),
    decreases l - i,
{
    if i < l {
        lemma_byte_line_offset_mono(ls, i, l);
        lemma_line_reaching_is(ls, a, i + 1, l);
    }
}

/// Turning a valid `(line, column)` into an absolute position and back
/// gives the same `(line, column)`.
pub proof fn lemma_absolute_line_column_roundtrip(s: Seq<char>, line: int, column: int)
    requires
        spec_absolute(s, line, column) is Some,
    ensures
        spec_line_column(s, spec_absolute(s, line, column)->0) == Some((line, column)),
{
    let ls = lines(s);
    let a = spec_absolute(s, line, column)->0;
    lemma_line_reaching_is(ls, a, 0, line);
    lemma_byte_line_offset_bound(s, line);
}

/// What the line that byte `a` reaches, searching from line `i`, is: a
/// line from `i` on whose end is not before `a`, and past `i` only when the
/// line before ends before `a`.
proof fn lemma_line_reaching_props(ls: Seq<Seq<char>>, a: int, i: int)
    requires
        0 <= i,
    ensures
        line_reaching(ls, a, i) matches Some(l) ==> {
            &&& i <= l < ls.len()
            &&& a <= byte_line_offset(ls, l) + byte_len(ls[l])
            &&& l > i ==> a > byte_line_offset(ls, l - 1) + byte_len(ls[l - 1])
        },
        i < ls.len() && a <= byte_line_offset(ls, ls.len() - 1) + byte_len(ls.last())
            ==> line_reaching(ls, a, i) is Some,
    decreases ls.len() - i,
{
    if i < ls.len() {
        lemma_line_reaching_props(ls, a, i + 1);
        if a > byte_line_offset(ls, i) + byte_len(ls[i]) {
            if let Some(l) = line_reaching(ls, a, i + 1) {
                if l == i + 1 {
                    assert(ls[l - 1] == ls[i]);
                }
            }
        }
    }
}

/// In a text with no carriage return that does not end with a newline,
/// the last line ends at the text's last byte.
proof fn lemma_last_line_ends_text(s: Seq<char>)
    requires
        s.len() > 0,
        forall|j: int| 0 <= j < s.len() ==> s[j] != '\r',
        s.last() != '\n',
    ensures
        lines(s).len() > 0,
        byte_line_offset(lines(s), lines(s).len() - 1) + byte_len(lines(s).last()) == byte_len(s),
    decreases s.len(),
{
    lemma_newline_index(s);
    let k = newline_index(s);
    if k < s.len() {
        let head = s.take(k as int);
        let rest = s.skip(k as int + 1);
        assert(head.len() > 0 ==> head.last() == s[k - 1]);
        assert(strip_cr(head) == head);
        assert(lines(s) == seq![head] + lines(rest));
        assert(rest.len() > 0) by {
            if k + 1 == s.len() {
                assert(s.last() == s[k as int]);
            }
        }
        assert(rest.last() == s.last());
        assert forall|j: int| 0 <= j < rest.len() implies rest[j] != '\r' by {
            assert(rest[j] == s[k + 1 + j]);
        }
        lemma_last_line_ends_text(rest);
        let n = lines(s).len();
        lemma_byte_line_offset_cons(head, lines(rest), n - 1);
        assert(lines(s).last() == lines(rest).last());
        assert(s =~= head + (seq![s[k as int]] + rest));
        lemma_byte_len_concat(head, seq![s[k as int]] + rest);
        lemma_byte_len_concat(seq![s[k as int]], rest);
        lemma_byte_len_push(Seq::<char>::empty(), s[k as int]);
        assert(Seq::<char>::empty().push(s[k as int]) =~= seq![s[k as int]]);
    } else {
        assert(lines(s) == seq![s]);
    }
}

/// Turning an absolute position of a text with no carriage return, not
/// ending in a newline, into `(line, column)` and back gives the same
/// position; past the end there is no `(line, column)`.
pub proof fn lemma_line_column_absolute_roundtrip(s: Seq<char>, a: int)
    requires
        s.len() > 0,
        forall|j: int| 0 <= j < s.len() ==> s[j] != '\r',
        s.last() != '\n',
    ensures
        0 <= a <= byte_len(s) ==> (spec_line_column(s, a) matches Some((l, c)) && spec_absolute(
            s,
            l,
            c,
        ) == Some(a)),
        a > byte_len(s) ==> spec_line_column(s, a) is None,
{
    if 0 <= a <= byte_len(s) {
        let ls = lines(s);
        lemma_last_line_ends_text(s);
        lemma_line_reaching_props(ls, a, 0);
        let l = line_reaching(ls, a, 0)->0;
        if l > 0 {
            assert(byte_line_offset(ls, l) == byte_line_offset(ls, l - 1) + byte_len(ls[l - 1]) + 1);
        }
    }
}

proof fn lemma_byte_line_offset_cons(a: Seq<char>, l: Seq<Seq<char>>, i: int)
    requires
        1 <= i <= l.len() + 1,
    ensures
        byte_line_offset(seq![a] + l, i) == byte_len(a) + 1 + byte_line_offset(l, i - 1),
    decreases i,
{
    let c = seq![a] + l;
    if i > 1 {
        lemma_byte_line_offset_cons(a, l, i - 1);
        assert(c[i - 1] == l[i - 2]);
        assert(byte_line_offset(c, i) == byte_line_offset(c, i - 1) + byte_len(c[i - 1]) + 1);
        assert(byte_line_offset(l, i - 1) == byte_line_offset(l, i - 2) + byte_len(l[i - 2]) + 1);
    } else {
        assert(c[0] == a);
        assert(byte_line_offset(c, 1) == byte_line_offset(c, 0) + byte_len(c[0]) + 1);
    }
}

/// A line ends, in bytes, within the text.
pub proof fn lemma_byte_line_offset_bound(s: Seq<char>, i: int)
    requires
        0 <= i < lines(s).len(),
    ensures
        byte_line_offset(lines(s), i) + byte_len(lines(s)[i]) <= byte_len(s),
    decreases s.len(),
{
    lemma_newline_index(s);
    let k = newline_index(s);
    if k < s.len() {
        let head = s.take(k as int);
        let first = strip_cr(head);
        let rest = s.skip(k as int + 1);
        assert(lines(s) == seq![first] + lines(rest));
        assert(s =~= head + (seq![s[k as int]] + rest));
        lemma_byte_len_concat(head, seq![s[k as int]] + rest);
        lemma_byte_len_concat(seq![s[k as int]], rest);
        lemma_byte_len_bounds(seq![s[k as int]], 0);
        if head.len() > 0 && head.last() == '\r' {
            lemma_byte_len_bounds(head, head.len() - 1);
            assert(head.take(head.len() - 1) =~= first);
        }
        if i > 0 {
            lemma_byte_line_offset_cons(first, lines(rest), i);
            lemma_byte_line_offset_bound(rest, i - 1);
            assert(lines(s)[i] == lines(rest)[i - 1]);
        }
    } else {
        assert(lines(s) == seq![s]);
    }
}

proof fn lemma_line_offset_cons(a: Seq<char>, l: Seq<Seq<char>>, i: int)
    requires
        1 <= i <= l.len() + 1,
    ensures
        line_offset(seq![a] + l, i) == a.len() + 1 + line_offset(l, i - 1),
    decreases i,
{
    let c = seq![a] + l;
    if i > 1 {
        lemma_line_offset_cons(a, l, i - 1);
        assert(c[i - 1] == l[i - 2]);
        assert(line_offset(c, i) == line_offset(c, i - 1) + c[i - 1].len() + 1);
        assert(line_offset(l, i - 1) == line_offset(l, i - 2) + l[i - 2].len() + 1);
    } else {
        assert(c[0] == a);
        assert(line_offset(c, 1) == line_offset(c, 0) + c[0].len() + 1);
    }
}

/// A line ends within the text.
pub proof fn lemma_line_offset_bound(s: Seq<char>, i: int)
    requires
        0 <= i < lines(s).len(),
    ensures
        line_offset(lines(s), i) + lines(s)[i].len() <= s.len(),
    decreases s.len(),
{
    lemma_newline_index(s);
    let k = newline_index(s);
    if k < s.len() {
        let first = strip_cr(s.take(k as int));
        let rest = s.skip(k as int + 1);
        assert(lines(s) == seq![first] + lines(rest));
        if i > 0 {
            lemma_line_offset_cons(first, lines(rest), i);
            lemma_line_offset_bound(rest, i - 1);
            assert(lines(s)[i] == lines(rest)[i - 1]);
        }
    }
}

/// Content statistics for the editor
#[derive(Debug, Clone, Copy, PartialEq, Eq, Structural)]
pub struct ContentStats {
    pub lines: usize,
    pub characters: usize,
    pub words: usize,
}

/// Number of maximal runs of non-whitespace characters, as
/// `split_whitespace().count()` counts them.
pub open spec fn word_count(s: Seq<char>) -> nat
    decreases s.len(),
{
    if s.len() == 0 {
        0
    } else {
        word_count(s.drop_last()) + if !is_ws(s.last()) && (s.len() == 1 || is_ws(
            s[s.len() - 2],
        )) {
            1nat
        } else {
            0nat
        }
    }
}

/// Lines, size and words of `content`; the size counts UTF-8 bytes, as
/// `str::len` does.
pub fn content_stats(content: &str) -> (st: ContentStats)
    ensures
        st.lines == lines(content@).len(),
        st.characters == byte_len(content@),
        st.words == word_count(content@),
{
    let size = content.as_bytes().len();
    let v = chars_of(content);
    let spans = line_spans(v.as_slice());
    let mut words: usize = 0;
    let mut i: usize = 0;
    while i < v.len()
        invariant
            i <= v@.len(),
            words == word_count(v@.take(i as int)),
            words <= i,
        decreases v@.len() - i,
    {
        proof {
            assert(v@.take(i + 1).drop_last() =~= v@.take(i as int));
            assert(v@.take(i + 1).last() == v@[i as int]);
            if i > 0 {
                assert(v@.take(i + 1)[i - 1] == v@[i - 1]);
            }
        }
        if !is_whitespace_char(v[i]) && (i == 0 || is_whitespace_char(v[i - 1])) {
            words += 1;
        }
        i += 1;
    }
    proof {
        assert(v@.take(v@.len() as int) =~= v@);
    }
    ContentStats { lines: spans.len(), characters: size, words }
}


// ---------------------------------------------------------------------------
// Editor state
// ---------------------------------------------------------------------------

#[verifier::external_type_specification]
#[verifier::external_body]
pub struct ExUuid(uuid::Uuid);

/// A name for the hash that the standard library's default hasher gives
/// the characters of a string.
pub uninterp spec fn default_hash(s: Seq<char>) -> u64;

/// The standard library's default hash of `s` (`BuildHasher::hash_one` on
/// `BuildHasherDefault<DefaultHasher>`, which hashes as a fresh
/// `DefaultHasher` does): it depends on `s` alone.
#[verifier::external_body]
fn hash_of(s: &str) -> (h: u64)
    ensures
        h == default_hash(s@),
{
    std::hash::BuildHasher::hash_one(
        &std::hash::BuildHasherDefault::<std::hash::DefaultHasher>::default(),
        s,
    )
}

/// The content hash used for change detection: the default hash in
/// lower-case hexadecimal.
pub open spec fn content_hash(s: Seq<char>) -> Seq<char> {
    hex(default_hash(s) as nat)
}

/// Seconds of inactivity after which dirty content is auto-saved.
pub const AUTO_SAVE_DELAY_SECS: u64 = 2;

/// Editor state for a single editing session
#[derive(Debug)]
pub struct EditorState {
    /// Current editing mode
    pub current_mode: EditorMode,
    /// Current content being edited
    pub content: String,
    /// Current cursor position
    pub cursor_position: CursorPosition,
    /// Whether the content has unsaved changes
    pub is_dirty: bool,
    /// Whether auto-save is enabled
    pub auto_save_enabled: bool,
    /// Last time content was saved
    pub last_save_time: Option<SystemTime>,
    /// Last time content was modified
    pub last_edit_time: SystemTime,
    /// Session ID this state belongs to
    pub session_id: Uuid,
    /// Original content hash for change detection
    pub original_content_hash: String,
    /// Auto-save timer state
    pub auto_save_timer: Option<SystemTime>,
}

/// What an `EditorState` holds; of its times only whether they are set.
#[verifier::ext_equal]
pub struct StateView {
    pub mode: EditorMode,
    pub content: Seq<char>,
    pub cursor: CursorPosition,
    pub dirty: bool,
    pub auto_save: bool,
    pub saved_once: bool,
    pub session: Uuid,
    pub original_hash: Seq<char>,
    pub timer_running: bool,
}

impl View for EditorState {
    type V = StateView;

    open spec fn view(&self) -> StateView {
        StateView {
            mode: self.current_mode,
            content: self.content@,
            cursor: self.cursor_position,
            dirty: self.is_dirty,
            auto_save: self.auto_save_enabled,
            saved_once: self.last_save_time is Some,
            session: self.session_id,
            original_hash: self.original_content_hash@,
            timer_running: self.auto_save_timer is Some,
        }
    }
}

impl Clone for EditorState {
    fn clone(&self) -> (r: Self)
        ensures
            r@ == self@,
    {
        EditorState {
            current_mode: self.current_mode,
            content: self.content.clone(),
            cursor_position: self.cursor_position,
            is_dirty: self.is_dirty,
            auto_save_enabled: self.auto_save_enabled,
            last_save_time: self.last_save_time,
            last_edit_time: self.last_edit_time,
            session_id: self.session_id,
            original_content_hash: self.original_content_hash.clone(),
            auto_save_timer: self.auto_save_timer,
        }
    }
}

/// The message for a cursor position that does not fit the content.
pub open spec fn invalid_cursor_message(p: CursorPosition, len: nat) -> Seq<char> {
    "Invalid cursor position: line "@ + decimal(p.line as nat) + ", column "@ + decimal(
        p.column as nat,
    ) + " for content length "@ + decimal(len)
}

/// The cursor kept in step with new content: its absolute position is
/// recomputed from its line and column when they still fit.
pub open spec fn cursor_after_update(p: CursorPosition, s: Seq<char>) -> CursorPosition {
    match spec_absolute(s, p.line as int, p.column as int) {
        Some(a) => CursorPosition { absolute: a as usize, ..p },
        None => p,
    }
}

/// The state after its content is replaced by `c`: dirty when the hash of
/// `c` differs from the saved one, the auto-save timer running when
/// auto-save is on, and the cursor following its line and column.
pub open spec fn content_updated(s: StateView, c: Seq<char>) -> StateView {
    StateView {
        content: c,
        dirty: content_hash(c) != s.original_hash,
        timer_running: s.auto_save || s.timer_running,
        cursor: cursor_after_update(s.cursor, c),
        ..s
    }
}

/// The state after a save: clean, saved, the saved hash taken from the
/// content, and no auto-save pending.
pub open spec fn saved(s: StateView) -> StateView {
    StateView {
        dirty: false,
        saved_once: true,
        original_hash: content_hash(s.content),
        timer_running: false,
        ..s
    }
}

/// Saving and then putting back the same content leaves the state clean;
/// so does putting back the content a state was created or last saved
/// with.
pub proof fn lemma_same_content_stays_clean(s: StateView, c: Seq<char>)
    requires
        s.original_hash == content_hash(c),
    ensures
        !content_updated(s, c).dirty,
        !content_updated(saved(s), s.content).dirty,
        !saved(content_updated(s, c)).dirty,
{
}

/// Content with another hash than the saved one makes the state dirty, and
/// saving makes it clean again.
pub proof fn lemma_changed_content_is_dirty_until_saved(s: StateView, c: Seq<char>)
    requires
        content_hash(c) != s.original_hash,
    ensures
        content_updated(s, c).dirty,
        !saved(content_updated(s, c)).dirty,
        saved(content_updated(s, c)).original_hash == content_hash(c),
{
}

impl EditorState {
    /// Create a new editor state for a session: raw mode, cursor at the
    /// start, clean, auto-save on, saved now.
    pub fn new(session_id: Uuid, content: String) -> (st: Self)
        ensures
            st@ == (StateView {
                mode: EditorMode::Raw,
                content: content@,
                cursor: CursorPosition { line: 0, column: 0, absolute: 0 },
                dirty: false,
                auto_save: true,
                saved_once: true,
                session: session_id,
                original_hash: content_hash(content@),
                timer_running: false,
            }),
    {
        let content_hash = Self::calculate_content_hash(content.as_str());
        Self {
            current_mode: EditorMode::default(),
            cursor_position: CursorPosition::start(),
            is_dirty: false,
            auto_save_enabled: true,
            last_save_time: Some(system_now()),
            last_edit_time: system_now(),
            session_id,
            original_content_hash: content_hash,
            auto_save_timer: None,
            content,
        }
    }

    /// Update content: it is dirty when its hash differs from the saved
    /// one; the auto-save timer restarts when auto-save is on, and the
    /// cursor's absolute position follows its line and column.
    pub fn update_content(&mut self, new_content: String)
        ensures
            final(self)@ == content_updated(old(self)@, new_content@),
    {
        let content_hash = Self::calculate_content_hash(new_content.as_str());
        self.is_dirty = !crate::text::str_eq(content_hash.as_str(), self.original_content_hash.as_str());
        self.content = new_content;
        self.last_edit_time = system_now();
        if self.auto_save_enabled {
            self.auto_save_timer = Some(system_now());
        }
        self.cursor_position.update_absolute(self.content.as_str());
    }

    /// Update cursor position with validation
    pub fn update_cursor_position(&mut self, position: CursorPosition) -> (r: Result<(), String>)
        ensures
            spec_valid_for(position, old(self)@.content) ==> r is Ok && final(self)@ == (StateView {
                cursor: position,
                ..old(self)@
            }),
            !spec_valid_for(position, old(self)@.content) ==> final(self)@ == old(self)@ && (
            r matches Err(e) && e@ == invalid_cursor_message(position, byte_len(old(self)@.content))),
    {
        if !position.is_valid_for_content(self.content.as_str()) {
            let mut message = owned("Invalid cursor position: line ");
            push_decimal(&mut message, position.line as u64);
            push_str(&mut message, ", column ");
            push_decimal(&mut message, position.column as u64);
            push_str(&mut message, " for content length ");
            push_decimal(&mut message, self.content.as_str().as_bytes().len() as u64);
            return Err(message);
        }
        self.cursor_position = position;
        Ok(())
    }

    /// Switch editor mode
    pub fn switch_mode(&mut self, new_mode: EditorMode)
        ensures
            final(self)@ == (StateView { mode: new_mode, ..old(self)@ }),
    {
        if self.current_mode != new_mode {
            self.current_mode = new_mode;
        }
    }

    /// Mark content as saved: clean, saved now, the saved hash taken from
    /// the content, and no auto-save pending.
    pub fn mark_saved(&mut self)
        ensures
            final(self)@ == saved(old(self)@),
    {
        self.is_dirty = false;
        self.last_save_time = Some(system_now());
        self.original_content_hash = Self::calculate_content_hash(self.content.as_str());
        self.auto_save_timer = None;
    }

    /// Check if auto-save should trigger: the clock decides, but never for
    /// clean content, with auto-save off, or with no timer running.
    pub fn should_auto_save(&self) -> (b: bool)
        ensures
            b ==> self@.auto_save && self@.dirty && self@.timer_running,
    {
        if !self.auto_save_enabled || !self.is_dirty {
            return false;
        }
        let elapsed = match &self.auto_save_timer {
            Some(timer_start) => match system_elapsed(timer_start) {
                Some(d) => Some(as_secs(&d)),
                None => None,
            },
            None => None,
        };
        self.auto_save_due(elapsed)
    }

    /// The auto-save decision, given the whole seconds since the timer
    /// started (`None` when there is no timer or the clock went back): dirty
    /// content with auto-save on is due after two seconds.
    pub fn auto_save_due(&self, elapsed_secs: Option<u64>) -> (b: bool)
        ensures
            b == (self@.auto_save && self@.dirty && match elapsed_secs {
                Some(e) => e >= AUTO_SAVE_DELAY_SECS,
                None => false,
            }),
    {
        if !self.auto_save_enabled || !self.is_dirty {
            return false;
        }
        match elapsed_secs {
            Some(e) => e >= AUTO_SAVE_DELAY_SECS,
            None => false,
        }
    }

    /// Enable or disable auto-save; enabling with dirty content restarts
    /// the timer, disabling stops it.
    pub fn set_auto_save(&mut self, enabled: bool)
        ensures
            final(self)@ == (StateView {
                auto_save: enabled,
                timer_running: if !enabled {
                    false
                } else if old(self)@.dirty {
                    true
                } else {
                    old(self)@.timer_running
                },
                ..old(self)@
            }),
    {
        self.auto_save_enabled = enabled;
        if !enabled {
            self.auto_save_timer = None;
        } else if self.is_dirty {
            self.auto_save_timer = Some(system_now());
        }
    }

    /// Time since the last edit, when the clock has not gone back.
    pub fn time_since_last_edit(&self) -> Option<Duration> {
        system_elapsed(&self.last_edit_time)
    }

    /// Time since the last save, if there was one and the clock has not
    /// gone back.
    pub fn time_since_last_save(&self) -> (r: Option<Duration>)
        ensures
            !self@.saved_once ==> r is None,
    {
        match &self.last_save_time {
            Some(t) => system_elapsed(t),
            None => None,
        }
    }

    /// The hash of `content` used for change detection.
    pub fn calculate_content_hash(content: &str) -> (h: String)
        ensures
            h@ == content_hash(content@),
    {
        let mut h = String::new();
        push_hex(&mut h, hash_of(content));
        h
    }

    /// Get content statistics
    pub fn get_content_stats(&self) -> (st: ContentStats)
        ensures
            st.lines == lines(self@.content).len(),
            st.characters == byte_len(self@.content),
            st.words == word_count(self@.content),
    {
        content_stats(self.content.as_str())
    }
}

} // verus!
