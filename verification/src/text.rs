//! Text model shared by the editor: character sequences, whitespace,
//! `str::lines`-style line splitting, decimal numbers and HTML escaping.
//!
//! Every position in this crate counts characters (Unicode scalar values)
//! from the start of the text.
use vstd::prelude::*;
use vstd::std_specs::iter::IteratorSpec;

verus! {

/// The length of `s` in UTF-8 bytes, as `str::len` counts it.
pub open spec fn byte_len(s: Seq<char>) -> nat {
    vstd::utf8::encode_utf8(s).len()
}

/// The number of bytes of `c` in UTF-8.
pub open spec fn char_width(c: char) -> nat {
    if (c as u32) <= 0x7F {
        1
    } else if (c as u32) <= 0x7FF {
        2
    } else if (c as u32) <= 0xFFFF {
        3
    } else {
        4
    }
}

proof fn lemma_encode_char_len(c: char)
    ensures
        vstd::utf8::encode_scalar(c as u32).len() == char_width(c),
{
    vstd::utf8::char_is_scalar(c);
}

/// The bytes of a text are those of its first character and then of the
/// rest.
pub proof fn lemma_byte_len_first(s: Seq<char>)
    requires
        s.len() > 0,
    ensures
        byte_len(s) == char_width(s[0]) + byte_len(s.drop_first()),
{
    lemma_encode_char_len(s[0]);
}

/// Byte lengths add up over concatenation.
pub proof fn lemma_byte_len_concat(a: Seq<char>, b: Seq<char>)
    ensures
        byte_len(a + b) == byte_len(a) + byte_len(b),
    decreases a.len(),
{
    if a.len() == 0 {
        assert(a + b =~= b);
    } else {
        lemma_byte_len_first(a);
        lemma_byte_len_first(a + b);
        assert((a + b).drop_first() =~= a.drop_first() + b);
        lemma_byte_len_concat(a.drop_first(), b);
    }
}

/// Appending a character adds its width.
pub proof fn lemma_byte_len_push(s: Seq<char>, c: char)
    ensures
        byte_len(s.push(c)) == byte_len(s) + char_width(c),
{
    lemma_byte_len_concat(s, seq![c]);
    assert(s.push(c) =~= s + seq![c]);
    lemma_byte_len_first(seq![c]);
    assert(seq![c].drop_first() =~= Seq::<char>::empty());
}

/// A text has at least as many bytes as characters, and a prefix no more
/// bytes than the whole.
pub proof fn lemma_byte_len_bounds(s: Seq<char>, k: int)
    requires
        0 <= k <= s.len(),
    ensures
        byte_len(s) >= s.len(),
        byte_len(s.take(k)) <= byte_len(s),
        byte_len(s.take(k)) + byte_len(s.skip(k)) == byte_len(s),
    decreases s.len(),
{
    assert(s =~= s.take(k) + s.skip(k));
    lemma_byte_len_concat(s.take(k), s.skip(k));
    if s.len() > 0 {
        lemma_byte_len_first(s);
        lemma_byte_len_bounds(s.drop_first(), 0);
    }
}

/// Whether byte `b` of `s` lies between two characters (or at an end), as
/// `str::is_char_boundary` says.
pub open spec fn is_char_boundary_at(s: Seq<char>, b: int) -> bool {
    exists|k: int| 0 <= k <= s.len() && #[trigger] byte_len(s.take(k)) == b
}

/// The number of characters before byte `b` of `s`, where `b` is a
/// character boundary.
pub open spec fn char_index(s: Seq<char>, b: int) -> int {
    choose|k: int| 0 <= k <= s.len() && #[trigger] byte_len(s.take(k)) == b
}

/// Longer prefixes have more bytes.
pub proof fn lemma_byte_prefix_strict(s: Seq<char>, j: int, k: int)
    requires
        0 <= j < k <= s.len(),
    ensures
        byte_len(s.take(j)) < byte_len(s.take(k)),
{
    lemma_byte_len_split(s, j, k);
}

/// The byte offset of the prefix of `k` characters is a boundary, and the
/// characters before it are those `k`.
pub proof fn lemma_char_index(s: Seq<char>, k: int)
    requires
        0 <= k <= s.len(),
    ensures
        is_char_boundary_at(s, byte_len(s.take(k)) as int),
        char_index(s, byte_len(s.take(k)) as int) == k,
{
    let b = byte_len(s.take(k)) as int;
    assert(0 <= k <= s.len() && byte_len(s.take(k)) == b);
    let c = char_index(s, b);
    if c < k {
        lemma_byte_prefix_strict(s, c, k);
    } else if c > k {
        lemma_byte_prefix_strict(s, k, c);
    }
}

/// The position in `offs` (the byte offsets of `v`) of the byte offset `b`,
/// a character boundary of `v`: the number of characters before it.
pub fn char_index_of(v: &[char], offs: &Vec<usize>, b: usize) -> (k: usize)
    requires
        offs@.len() == v@.len() + 1,
        forall|k: int| 0 <= k <= v@.len() ==> #[trigger] offs@[k] == byte_len(v@.take(k)),
        is_char_boundary_at(v@, b as int),
    ensures
        k == char_index(v@, b as int),
        k <= v@.len(),
        offs@[k as int] == b,
{
    let ghost w = char_index(v@, b as int);
    proof {
        lemma_char_index(v@, w);
    }
    let mut i: usize = 0;
    while i < v.len() && offs[i] != b
        invariant
            i <= v@.len(),
            offs@.len() == v@.len() + 1,
            forall|k: int| 0 <= k <= v@.len() ==> #[trigger] offs@[k] == byte_len(v@.take(k)),
            0 <= w <= v@.len(),
            byte_len(v@.take(w)) == b,
            i <= w,
        decreases v@.len() - i,
    {
        proof {
            if i == w {
                assert(offs@[i as int] == b);
            }
        }
        i += 1;
    }
    proof {
        if offs@[i as int] != b {
            assert(i == v@.len());
            assert(offs@[w] == b);
        }
        lemma_char_index(v@, i as int);
    }
    i
}

/// The number of bytes of `c` in UTF-8 (`char::len_utf8`).
pub fn char_width_of(c: char) -> (w: usize)
    ensures
        w == char_width(c),
{
    let u = c as u32;
    if u <= 0x7F {
        1
    } else if u <= 0x7FF {
        2
    } else if u <= 0xFFFF {
        3
    } else {
        4
    }
}

/// The byte offset of each character of `v`, and of its end: entry `k` is
/// the number of bytes of `v[..k]`.
pub fn byte_offsets(v: &[char]) -> (p: Vec<usize>)
    requires
        byte_len(v@) <= usize::MAX,
    ensures
        p@.len() == v@.len() + 1,
        forall|k: int| 0 <= k <= v@.len() ==> #[trigger] p@[k] == byte_len(v@.take(k)),
{
    let mut p: Vec<usize> = Vec::new();
    let mut total: usize = 0;
    p.push(0);
    proof {
        assert(v@.take(0) =~= Seq::<char>::empty());
    }
    let mut i: usize = 0;
    while i < v.len()
        invariant
            i <= v@.len(),
            byte_len(v@) <= usize::MAX,
            p@.len() == i + 1,
            total == byte_len(v@.take(i as int)),
            forall|k: int| 0 <= k <= i ==> #[trigger] p@[k] == byte_len(v@.take(k)),
        decreases v@.len() - i,
    {
        proof {
            assert(v@.take(i + 1) =~= v@.take(i as int).push(v@[i as int]));
            lemma_byte_len_push(v@.take(i as int), v@[i as int]);
            lemma_byte_len_bounds(v@, i + 1);
        }
        total = total + char_width_of(v[i]);
        p.push(total);
        i += 1;
    }
    p
}

broadcast use vstd::string::group_string_axioms;

// ---------------------------------------------------------------------------
// Character classes
// ---------------------------------------------------------------------------

/// The Unicode `White_Space` property, which `char::is_whitespace` tests.
pub open spec fn is_ws(c: char) -> bool {
    let u = c as u32;
    ||| 0x09 <= u <= 0x0D
    ||| u == 0x20
    ||| u == 0x85
    ||| u == 0xA0
    ||| u == 0x1680
    ||| 0x2000 <= u <= 0x200A
    ||| u == 0x2028
    ||| u == 0x2029
    ||| u == 0x202F
    ||| u == 0x205F
    ||| u == 0x3000
}

/// Tests `is_ws`.
pub fn is_whitespace_char(c: char) -> (b: bool)
    ensures
        b == is_ws(c),
{
    let u = c as u32;
    (0x09 <= u && u <= 0x0D) || u == 0x20 || u == 0x85 || u == 0xA0 || u == 0x1680 || (0x2000
        <= u && u <= 0x200A) || u == 0x2028 || u == 0x2029 || u == 0x202F || u == 0x205F || u
        == 0x3000
}

/// An ASCII decimal digit.
pub open spec fn is_digit(c: char) -> bool {
    '0' <= c <= '9'
}

/// The value of an ASCII decimal digit.
pub open spec fn digit_value(c: char) -> nat {
    ((c as u32) - ('0' as u32)) as nat
}

/// The ASCII digit of `d`, for `d < 10`.
pub open spec fn digit_char(d: nat) -> char {
    if d == 0 {
        '0'
    } else if d == 1 {
        '1'
    } else if d == 2 {
        '2'
    } else if d == 3 {
        '3'
    } else if d == 4 {
        '4'
    } else if d == 5 {
        '5'
    } else if d == 6 {
        '6'
    } else if d == 7 {
        '7'
    } else if d == 8 {
        '8'
    } else {
        '9'
    }
}

// ---------------------------------------------------------------------------
// Leading whitespace (`str::trim_start`)
// ---------------------------------------------------------------------------

/// The number of whitespace characters at the start of `s`.
pub open spec fn ws_prefix_len(s: Seq<char>) -> nat
    decreases s.len(),
{
    if s.len() == 0 {
        0
    } else if is_ws(s[0]) {
        1 + ws_prefix_len(s.drop_first())
    } else {
        0
    }
}

/// `s` without its leading whitespace, as `str::trim_start` gives it.
pub open spec fn trim_start(s: Seq<char>) -> Seq<char> {
    s.skip(ws_prefix_len(s) as int)
}

pub proof fn lemma_ws_prefix_len_bound(s: Seq<char>)
    ensures
        ws_prefix_len(s) <= s.len(),
        forall|j: int| 0 <= j < ws_prefix_len(s) ==> is_ws(#[trigger] s[j]),
        ws_prefix_len(s) < s.len() ==> !is_ws(s[ws_prefix_len(s) as int]),
    decreases s.len(),
{
    if s.len() > 0 && is_ws(s[0]) {
        lemma_ws_prefix_len_bound(s.drop_first());
        assert forall|j: int| 0 <= j < ws_prefix_len(s) implies is_ws(#[trigger] s[j]) by {
            if j > 0 {
                assert(s[j] == s.drop_first()[j - 1]);
            }
        }
    }
}

/// `ws_prefix_len` of `s[lo..hi]`, computed by scanning.
pub fn ws_prefix_len_of(v: &[char], lo: usize, hi: usize) -> (n: usize)
    requires
        lo <= hi <= v@.len(),
    ensures
        n as nat == ws_prefix_len(v@.subrange(lo as int, hi as int)),
        n <= hi - lo,
{
    let ghost s = v@.subrange(lo as int, hi as int);
    let mut i = lo;
    while i < hi && is_whitespace_char(v[i])
        invariant
            lo <= i <= hi <= v@.len(),
            s == v@.subrange(lo as int, hi as int),
            ws_prefix_len(s) == (i - lo) + ws_prefix_len(v@.subrange(i as int, hi as int)),
        decreases hi - i,
    {
        assert(v@.subrange(i as int, hi as int).drop_first() =~= v@.subrange(i + 1, hi as int));
        i += 1;
    }
    proof {
        lemma_ws_prefix_len_bound(v@.subrange(i as int, hi as int));
    }
    i - lo
}

// ---------------------------------------------------------------------------
// Lines (`str::lines`)
// ---------------------------------------------------------------------------

/// Index of the first `'\n'` in `s`, or `s.len()` if there is none.
pub open spec fn newline_index(s: Seq<char>) -> nat
    decreases s.len(),
{
    if s.len() == 0 {
        0
    } else if s[0] == '\n' {
        0
    } else {
        1 + newline_index(s.drop_first())
    }
}

/// A line that was ended by `'\n'` loses one trailing `'\r'`.
pub open spec fn strip_cr(s: Seq<char>) -> Seq<char> {
    if s.len() > 0 && s.last() == '\r' {
        s.drop_last()
    } else {
        s
    }
}

/// The lines of `s`, as `str::lines` yields them: split at `'\n'`, a line
/// ended by `'\n'` loses one trailing `'\r'`, and a final `'\n'` starts no
/// further line.
pub open spec fn lines(s: Seq<char>) -> Seq<Seq<char>>
    decreases s.len(),
{
    if s.len() == 0 {
        seq![]
    } else {
        let k = newline_index(s);
        if k >= s.len() {
            seq![s]
        } else {
            seq![strip_cr(s.take(k as int))] + lines(s.skip(k as int + 1))
        }
    }
}

/// Number of lines, as `str::lines().count()` gives it.
pub open spec fn line_count(s: Seq<char>) -> nat {
    lines(s).len()
}

/// The offset at which line `i` of `s` starts when lines are assumed to be
/// separated by exactly one character (the `line.len() + 1` stepping that
/// the editor uses throughout).
pub open spec fn line_offset(ls: Seq<Seq<char>>, i: int) -> int
    decreases i,
{
    if i <= 0 {
        0
    } else {
        line_offset(ls, i - 1) + ls[i - 1].len() + 1
    }
}

/// Line offsets are not negative.
pub proof fn lemma_line_offset_nonneg(ls: Seq<Seq<char>>, i: int)
    ensures
        line_offset(ls, i) >= 0,
    decreases i,
{
    if i > 0 {
        lemma_line_offset_nonneg(ls, i - 1);
    }
}

pub proof fn lemma_newline_index(s: Seq<char>)
    ensures
        newline_index(s) <= s.len(),
        forall|j: int| 0 <= j < newline_index(s) ==> #[trigger] s[j] != '\n',
        newline_index(s) < s.len() ==> s[newline_index(s) as int] == '\n',
    decreases s.len(),
{
    if s.len() > 0 && s[0] != '\n' {
        lemma_newline_index(s.drop_first());
        assert forall|j: int| 0 <= j < newline_index(s) implies #[trigger] s[j] != '\n' by {
            if j > 0 {
                assert(s[j] == s.drop_first()[j - 1]);
            }
        }
    }
}

/// `newline_index` of `v[lo..hi]`, computed by scanning.
pub fn find_newline(v: &[char], lo: usize, hi: usize) -> (k: usize)
    requires
        lo <= hi <= v@.len(),
    ensures
        lo <= k <= hi,
        (k - lo) as nat == newline_index(v@.subrange(lo as int, hi as int)),
{
    let mut i = lo;
    while i < hi && v[i] != '\n'
        invariant
            lo <= i <= hi <= v@.len(),
            newline_index(v@.subrange(lo as int, hi as int)) == (i - lo) + newline_index(
                v@.subrange(i as int, hi as int),
            ),
        decreases hi - i,
    {
        assert(v@.subrange(i as int, hi as int).drop_first() =~= v@.subrange(i + 1, hi as int));
        i += 1;
    }
    i
}

/// Start and end (exclusive) of each line of `v`, in order.
pub fn line_spans(v: &[char]) -> (spans: Vec<(usize, usize)>)
    ensures
        spans@.len() == lines(v@).len(),
        forall|i: int|
            0 <= i < spans@.len() ==> {
                &&& (#[trigger] spans@[i]).0 <= spans@[i].1 <= v@.len()
                &&& v@.subrange(spans@[i].0 as int, spans@[i].1 as int) == lines(v@)[i]
            },
        forall|i: int| 0 < i < spans@.len() ==> spans@[i - 1].1 + 1 <= (#[trigger] spans@[i]).0,
{
    let n = v.len();
    let mut spans: Vec<(usize, usize)> = Vec::new();
    let mut pos: usize = 0;
    proof {
        assert(lines_of_spans(v@, spans@) =~= Seq::<Seq<char>>::empty());
        assert(v@.subrange(0, n as int) =~= v@);
        assert(Seq::<Seq<char>>::empty() + lines(v@) =~= lines(v@));
    }
    while pos < n
        invariant
            n == v@.len(),
            pos <= n,
            lines(v@) == lines_of_spans(v@, spans@) + lines(v@.subrange(pos as int, n as int)),
            forall|i: int|
                0 <= i < spans@.len() ==> (#[trigger] spans@[i]).0 <= spans@[i].1 <= v@.len(),
            forall|i: int|
                0 < i < spans@.len() ==> spans@[i - 1].1 + 1 <= (#[trigger] spans@[i]).0,
            spans@.len() > 0 && pos < n ==> spans@.last().1 + 1 <= pos,
        decreases n - pos,
    {
        let ghost rest = v@.subrange(pos as int, n as int);
        let k = find_newline(v, pos, n);
        proof {
            lemma_newline_index(rest);
        }
        if k >= n {
            spans.push((pos, n));
            proof {
                assert(lines(rest) == seq![rest]);
                assert(lines(v@.subrange(n as int, n as int)) =~= Seq::<Seq<char>>::empty());
                lemma_lines_of_spans_push(v@, spans@.drop_last(), (pos, n));
            }
            pos = n;
        } else {
            let end = if k > pos && v[k - 1] == '\r' {
                k - 1
            } else {
                k
            };
            spans.push((pos, end));
            proof {
                assert(rest.take((k - pos) as int) =~= v@.subrange(pos as int, k as int));
                assert(v@.subrange(pos as int, end as int) =~= strip_cr(
                    v@.subrange(pos as int, k as int),
                ));
                assert(rest.skip((k - pos) + 1) =~= v@.subrange(k + 1, n as int));
                lemma_lines_of_spans_push(v@, spans@.drop_last(), (pos, end));
                assert(spans@.drop_last().push((pos, end)) == spans@);
            }
            pos = k + 1;
        }
    }
    proof {
        assert(lines(v@.subrange(n as int, n as int)) =~= Seq::<Seq<char>>::empty());
        assert(lines_of_spans(v@, spans@) + Seq::<Seq<char>>::empty() =~= lines_of_spans(
            v@,
            spans@,
        ));
        assert forall|i: int| 0 <= i < spans@.len() implies v@.subrange(
            (#[trigger] spans@[i]).0 as int,
            spans@[i].1 as int,
        ) == lines(v@)[i] by {
            lemma_lines_of_spans_index(v@, spans@, i);
        }
    }
    spans
}

/// What `line_spans` promises of its result.
pub open spec fn spans_ok(v: Seq<char>, spans: Seq<(usize, usize)>) -> bool {
    &&& spans.len() == lines(v).len()
    &&& forall|i: int|
        0 <= i < spans.len() ==> {
            &&& (#[trigger] spans[i]).0 <= spans[i].1 <= v.len()
            &&& v.subrange(spans[i].0 as int, spans[i].1 as int) == lines(v)[i]
        }
    &&& forall|i: int| 0 < i < spans.len() ==> spans[i - 1].1 + 1 <= (#[trigger] spans[i]).0
}

/// Each line starts no later than its span.
pub proof fn lemma_line_offset_le_span(v: Seq<char>, spans: Seq<(usize, usize)>, i: int)
    requires
        spans_ok(v, spans),
        0 <= i < spans.len(),
    ensures
        0 <= line_offset(lines(v), i) <= spans[i].0,
        line_offset(lines(v), i) + lines(v)[i].len() <= spans[i].1,
    decreases i,
{
    assert(spans[i].0 <= spans[i].1);
    assert(v.subrange(spans[i].0 as int, spans[i].1 as int) == lines(v)[i]);
    if i > 0 {
        lemma_line_offset_le_span(v, spans, i - 1);
        assert(spans[i - 1].1 + 1 <= spans[i].0);
    }
}

/// Byte offset of line `i` when the lines `ls` are laid out one after the
/// other, separated by one byte (the `line.len() + 1` stepping over the
/// `str` lengths that the editor uses).
pub open spec fn byte_line_offset(ls: Seq<Seq<char>>, i: int) -> int
    decreases i,
{
    if i <= 0 {
        0
    } else {
        byte_line_offset(ls, i - 1) + byte_len(ls[i - 1]) + 1
    }
}

/// The bytes of `v[..b]` are those of `v[..a]` and then of `v[a..b]`,
/// which has at least one byte per character.
pub proof fn lemma_byte_len_split(v: Seq<char>, a: int, b: int)
    requires
        0 <= a <= b <= v.len(),
    ensures
        byte_len(v.take(b)) == byte_len(v.take(a)) + byte_len(v.subrange(a, b)),
        byte_len(v.subrange(a, b)) >= b - a,
        byte_len(v.take(b)) <= byte_len(v),
{
    assert(v.take(b) =~= v.take(a) + v.subrange(a, b));
    lemma_byte_len_concat(v.take(a), v.subrange(a, b));
    lemma_byte_len_bounds(v.subrange(a, b), 0);
    lemma_byte_len_bounds(v, b);
}

/// Each line starts, in bytes, no later than its span.
pub proof fn lemma_byte_line_offset_le_span(v: Seq<char>, spans: Seq<(usize, usize)>, i: int)
    requires
        spans_ok(v, spans),
        0 <= i < spans.len(),
    ensures
        0 <= byte_line_offset(lines(v), i) <= byte_len(v.take(spans[i].0 as int)),
        byte_line_offset(lines(v), i) + byte_len(lines(v)[i]) <= byte_len(v.take(spans[i].1 as int)),
    decreases i,
{
    assert(spans[i].0 <= spans[i].1);
    assert(v.subrange(spans[i].0 as int, spans[i].1 as int) == lines(v)[i]);
    lemma_byte_len_split(v, spans[i].0 as int, spans[i].1 as int);
    if i > 0 {
        lemma_byte_line_offset_le_span(v, spans, i - 1);
        assert(spans[i - 1].1 + 1 <= spans[i].0);
        lemma_byte_len_split(v, spans[i - 1].1 as int, spans[i].0 as int);
    }
}

/// The bytes of the line in span `i`: what lies between the byte offsets
/// of the span's ends.
pub proof fn lemma_span_bytes(v: Seq<char>, spans: Seq<(usize, usize)>, i: int)
    requires
        spans_ok(v, spans),
        0 <= i < spans.len(),
    ensures
        byte_len(v.take(spans[i].1 as int)) - byte_len(v.take(spans[i].0 as int)) == byte_len(
            lines(v)[i],
        ),
        byte_len(v.take(spans[i].0 as int)) <= byte_len(v.take(spans[i].1 as int)) <= byte_len(v),
        byte_line_offset(lines(v), i) <= byte_len(v.take(spans[i].0 as int)),
        byte_line_offset(lines(v), i) + byte_len(lines(v)[i]) <= byte_len(v.take(spans[i].1 as int)),
{
    lemma_byte_line_offset_le_span(v, spans, i);
    assert(v.subrange(spans[i].0 as int, spans[i].1 as int) == lines(v)[i]);
    lemma_byte_len_split(v, spans[i].0 as int, spans[i].1 as int);
}

/// The text of each span.
pub open spec fn lines_of_spans(v: Seq<char>, spans: Seq<(usize, usize)>) -> Seq<Seq<char>> {
    Seq::new(spans.len(), |i: int| v.subrange(spans[i].0 as int, spans[i].1 as int))
}

proof fn lemma_lines_of_spans_push(v: Seq<char>, spans: Seq<(usize, usize)>, sp: (usize, usize))
    ensures
        lines_of_spans(v, spans.push(sp)) =~= lines_of_spans(v, spans).push(
            v.subrange(sp.0 as int, sp.1 as int),
        ),
{
}

proof fn lemma_lines_of_spans_index(v: Seq<char>, spans: Seq<(usize, usize)>, i: int)
    requires
        0 <= i < spans.len(),
    ensures
        lines_of_spans(v, spans)[i] == v.subrange(spans[i].0 as int, spans[i].1 as int),
{
}

/// `cs` joined by `sep`.
pub open spec fn join(cs: Seq<Seq<char>>, sep: Seq<char>) -> Seq<char>
    decreases cs.len(),
{
    if cs.len() == 0 {
        seq![]
    } else if cs.len() == 1 {
        cs[0]
    } else {
        join(cs.drop_last(), sep) + sep + cs.last()
    }
}

/// Joining at least two pieces puts the first, then the separator, then
/// the rest joined.
pub proof fn lemma_join_first(cs: Seq<Seq<char>>, sep: Seq<char>)
    requires
        cs.len() >= 2,
    ensures
        join(cs, sep) == cs[0] + sep + join(cs.drop_first(), sep),
    decreases cs.len(),
{
    if cs.len() == 2 {
        assert(cs.drop_last().len() == 1);
        assert(cs.drop_first().len() == 1);
        assert(join(cs.drop_last(), sep) == cs[0]);
        assert(join(cs.drop_first(), sep) == cs[1]);
    } else {
        lemma_join_first(cs.drop_last(), sep);
        assert(cs.drop_last().drop_first() =~= cs.drop_first().drop_last());
        assert(cs.drop_first().last() == cs.last());
        assert(cs.drop_last()[0] == cs[0]);
    }
}

/// A piece without `'\n'`, then `'\n'`: the first newline is the one after
/// the piece.
proof fn lemma_newline_after(a: Seq<char>, b: Seq<char>)
    requires
        !a.contains('\n'),
    ensures
        newline_index(a + seq!['\n'] + b) == a.len(),
    decreases a.len(),
{
    if a.len() > 0 {
        assert(!a.drop_first().contains('\n')) by {
            if a.drop_first().contains('\n') {
                let j = choose|j: int| 0 <= j < a.drop_first().len() && a.drop_first()[j] == '\n';
                assert(a[j + 1] == '\n');
            }
        }
        lemma_newline_after(a.drop_first(), b);
        assert((a + seq!['\n'] + b).drop_first() =~= a.drop_first() + seq!['\n'] + b);
        assert(a[0] != '\n');
    }
}

/// A piece without `'\n'` has its first newline at its end.
proof fn lemma_no_newline(a: Seq<char>)
    requires
        !a.contains('\n'),
    ensures
        newline_index(a) == a.len(),
    decreases a.len(),
{
    if a.len() > 0 {
        assert(!a.drop_first().contains('\n')) by {
            if a.drop_first().contains('\n') {
                let j = choose|j: int| 0 <= j < a.drop_first().len() && a.drop_first()[j] == '\n';
                assert(a[j + 1] == '\n');
            }
        }
        lemma_no_newline(a.drop_first());
        assert(a[0] != '\n');
    }
}

/// Lines that `str::lines` keeps as they are: no `'\n'` in them, none
/// ending with `'\r'`, and the last one not empty.
pub open spec fn plain_lines(ls: Seq<Seq<char>>) -> bool {
    &&& forall|j: int| 0 <= j < ls.len() ==> !(#[trigger] ls[j]).contains('\n')
    &&& forall|j: int| 0 <= j < ls.len() && (#[trigger] ls[j]).len() > 0 ==> ls[j].last() != '\r'
    &&& ls.len() > 0 ==> ls.last().len() > 0
}

/// Splitting joined plain lines gives them back.
pub proof fn lemma_lines_of_join(ls: Seq<Seq<char>>)
    requires
        plain_lines(ls),
    ensures
        lines(join(ls, seq!['\n'])) == ls,
    decreases ls.len(),
{
    if ls.len() == 1 {
        lemma_no_newline(ls[0]);
        assert(lines(ls[0]) =~= seq![ls[0]]);
        assert(ls =~= seq![ls[0]]);
    } else if ls.len() >= 2 {
        let nl = seq!['\n'];
        lemma_join_first(ls, nl);
        let rest = join(ls.drop_first(), nl);
        let s = ls[0] + nl + rest;
        lemma_newline_after(ls[0], rest);
        assert(s.take(ls[0].len() as int) =~= ls[0]);
        assert(s.skip(ls[0].len() as int + 1) =~= rest);
        assert(plain_lines(ls.drop_first())) by {
            assert forall|j: int| 0 <= j < ls.drop_first().len() implies !(
            #[trigger] ls.drop_first()[j]).contains('\n') by {
                assert(ls.drop_first()[j] == ls[j + 1]);
            }
            assert forall|j: int|
                0 <= j < ls.drop_first().len() && (#[trigger] ls.drop_first()[j]).len()
                    > 0 implies ls.drop_first()[j].last() != '\r' by {
                assert(ls.drop_first()[j] == ls[j + 1]);
            }
        }
        lemma_lines_of_join(ls.drop_first());
        assert(strip_cr(ls[0]) == ls[0]);
        assert(lines(s) =~= seq![ls[0]] + ls.drop_first());
        assert(ls =~= seq![ls[0]] + ls.drop_first());
    }
}

// ---------------------------------------------------------------------------
// Keyed entries, in insertion order
// ---------------------------------------------------------------------------

/// Index of the first pair with key `k`.
pub open spec fn key_index<V>(a: Seq<(Seq<char>, V)>, k: Seq<char>) -> Option<int>
    decreases a.len(),
{
    if a.len() == 0 {
        None
    } else {
        match key_index(a.drop_last(), k) {
            Some(i) => Some(i),
            None => if a.last().0 == k {
                Some(a.len() - 1)
            } else {
                None
            },
        }
    }
}

/// Sets key `k` to `v`: in place if the key is there, at the end if not.
pub open spec fn with_entry<V>(a: Seq<(Seq<char>, V)>, k: Seq<char>, v: V) -> Seq<(Seq<char>, V)> {
    match key_index(a, k) {
        Some(i) => a.update(i, (k, v)),
        None => a.push((k, v)),
    }
}


/// `key_index` gives a position holding the key.
pub proof fn lemma_key_index_bound<V>(a: Seq<(Seq<char>, V)>, k: Seq<char>)
    ensures
        key_index(a, k) matches Some(i) ==> 0 <= i < a.len() && a[i].0 == k,
    decreases a.len(),
{
    if a.len() > 0 {
        lemma_key_index_bound(a.drop_last(), k);
    }
}

/// `key_index` finds the first pair with the key.
pub proof fn lemma_key_index_at<V>(a: Seq<(Seq<char>, V)>, k: Seq<char>, i: int)
    requires
        0 <= i < a.len(),
        key_index(a.take(i), k) is None,
        a[i].0 == k,
    ensures
        key_index(a, k) == Some(i),
    decreases a.len(),
{
    if a.len() == i + 1 {
        assert(a.take(i) =~= a.drop_last());
    } else {
        assert(a.drop_last().take(i) =~= a.take(i));
        lemma_key_index_at(a.drop_last(), k, i);
    }
}

/// `key_index` reads the keys alone.
pub proof fn lemma_key_index_same_keys<V>(a: Seq<(Seq<char>, V)>, b: Seq<(Seq<char>, V)>, k: Seq<char>)
    requires
        a.len() == b.len(),
        forall|j: int| 0 <= j < a.len() ==> a[j].0 == b[j].0,
    ensures
        key_index(a, k) == key_index(b, k),
    decreases a.len(),
{
    if a.len() > 0 {
        assert forall|j: int| 0 <= j < a.len() - 1 implies a.drop_last()[j].0 == b.drop_last()[j].0 by {
            assert(a.drop_last()[j] == a[j] && b.drop_last()[j] == b[j]);
        }
        lemma_key_index_same_keys(a.drop_last(), b.drop_last(), k);
    }
}

/// Reading a key after setting it gives the value set; reading another
/// key gives what it gave before, from the same position.
pub proof fn lemma_with_entry_read<V>(a: Seq<(Seq<char>, V)>, k: Seq<char>, v: V, k2: Seq<char>)
    ensures
        k2 == k ==> (key_index(with_entry(a, k, v), k) matches Some(i) && with_entry(a, k, v)[i]
            == (k, v)),
        k2 != k ==> key_index(with_entry(a, k, v), k2) == key_index(a, k2),
        k2 != k ==> (key_index(a, k2) matches Some(j) ==> with_entry(a, k, v)[j] == a[j]),
{
    lemma_key_index_bound(a, k);
    lemma_key_index_bound(a, k2);
    match key_index(a, k) {
        Some(i) => {
            let b = a.update(i, (k, v));
            lemma_key_index_same_keys(a, b, k2);
            lemma_key_index_same_keys(a, b, k);
        },
        None => {
            let b = a.push((k, v));
            assert(b.drop_last() =~= a);
        },
    }
}

// ---------------------------------------------------------------------------
// Characters and strings
// ---------------------------------------------------------------------------

/// The characters of `s`, in order.
pub fn chars_of(s: &str) -> (v: Vec<char>)
    ensures
        v@ == s@,
{
    let mut v: Vec<char> = Vec::new();
    for c in it: s.chars()
        invariant
            it.seq() == s@,
            v@ == it.seq().take(it.index() as int),
    {
        v.push(c);
    }
    v
}

/// Appends one character to a `String` (`String::push`).
#[verifier::external_body]
pub(crate) fn push_char(s: &mut String, c: char)
    ensures
        final(s)@ == old(s)@.push(c),
{
    s.push(c);
}

/// Appends the characters `v[lo..hi]` to `s`.
pub fn push_chars(s: &mut String, v: &[char], lo: usize, hi: usize)
    requires
        lo <= hi <= v@.len(),
    ensures
        final(s)@ == old(s)@ + v@.subrange(lo as int, hi as int),
{
    let mut i = lo;
    while i < hi
        invariant
            lo <= i <= hi <= v@.len(),
            s@ == old(s)@ + v@.subrange(lo as int, i as int),
        decreases hi - i,
    {
        push_char(s, v[i]);
        assert(v@.subrange(lo as int, i + 1) =~= v@.subrange(lo as int, i as int).push(v@[i as int]));
        i += 1;
    }
}

/// Appends `t` to `s`.
pub fn push_str(s: &mut String, t: &str)
    ensures
        final(s)@ == old(s)@ + t@,
{
    s.append(t);
}

/// The `String` holding the characters `v[lo..hi]`.
pub fn string_of(v: &[char], lo: usize, hi: usize) -> (r: String)
    requires
        lo <= hi <= v@.len(),
    ensures
        r@ == v@.subrange(lo as int, hi as int),
{
    let mut r = String::new();
    push_chars(&mut r, v, lo, hi);
    r
}

/// The characters `v[lo..hi]` as a vector.
pub fn chars_range(v: &[char], lo: usize, hi: usize) -> (r: Vec<char>)
    requires
        lo <= hi <= v@.len(),
    ensures
        r@ == v@.subrange(lo as int, hi as int),
{
    let mut r: Vec<char> = Vec::new();
    let mut i = lo;
    while i < hi
        invariant
            lo <= i <= hi <= v@.len(),
            r@ == v@.subrange(lo as int, i as int),
        decreases hi - i,
    {
        r.push(v[i]);
        assert(v@.subrange(lo as int, i + 1) =~= v@.subrange(lo as int, i as int).push(v@[i as int]));
        i += 1;
    }
    r
}

/// A `String` holding the characters of `s`.
pub fn owned(s: &str) -> (r: String)
    ensures
        r@ == s@,
{
    s.to_owned()
}

/// Whether `v[at..]` starts with `p`.
pub open spec fn has_prefix_at(v: Seq<char>, at: int, p: Seq<char>) -> bool {
    0 <= at && at + p.len() <= v.len() && v.subrange(at, at + p.len()) == p
}

/// Whether two character sequences are equal.
pub fn chars_eq(a: &[char], b: &[char]) -> (r: bool)
    ensures
        r == (a@ == b@),
{
    if a.len() != b.len() {
        return false;
    }
    let mut i: usize = 0;
    while i < a.len()
        invariant
            a@.len() == b@.len(),
            i <= a@.len(),
            forall|j: int| 0 <= j < i ==> a@[j] == b@[j],
        decreases a@.len() - i,
    {
        if a[i] != b[i] {
            return false;
        }
        i += 1;
    }
    assert(a@ =~= b@);
    true
}

/// Whether two strings hold the same characters.
pub fn str_eq(a: &str, b: &str) -> (r: bool)
    ensures
        r == (a@ == b@),
{
    let va = chars_of(a);
    let vb = chars_of(b);
    chars_eq(va.as_slice(), vb.as_slice())
}

/// Whether `p` occurs in `s` at position `i`.
pub open spec fn occurs_at(s: Seq<char>, p: Seq<char>, i: int) -> bool {
    0 <= i && i + p.len() <= s.len() && s.subrange(i, i + p.len()) == p
}

/// Whether `p` occurs anywhere in `s`, as `str::contains` tests it.
pub open spec fn contains_seq(s: Seq<char>, p: Seq<char>) -> bool {
    exists|i: int| occurs_at(s, p, i)
}

/// Whether `v[at..]` starts with `p`, computed.
pub fn matches_at(v: &[char], at: usize, p: &[char]) -> (r: bool)
    ensures
        r == occurs_at(v@, p@, at as int),
{
    if at > v.len() || p.len() > v.len() - at {
        return false;
    }
    let mut j: usize = 0;
    while j < p.len()
        invariant
            at + p@.len() <= v@.len(),
            v@.len() == v.len(),
            j <= p@.len(),
            forall|k: int| 0 <= k < j ==> v@[at + k] == p@[k],
        decreases p@.len() - j,
    {
        assert(at + j < v@.len());
        if v[at + j] != p[j] {
            assert(v@.subrange(at as int, at + p@.len())[j as int] != p@[j as int]);
            return false;
        }
        j += 1;
    }
    assert(v@.subrange(at as int, at + p@.len()) =~= p@);
    true
}

/// The first position at or after `from` where `p` occurs in `s`.
pub open spec fn first_at(s: Seq<char>, p: Seq<char>, from: int) -> Option<int>
    decreases s.len() - from,
{
    if from < 0 || from >= s.len() || from + p.len() > s.len() {
        None
    } else if occurs_at(s, p, from) {
        Some(from)
    } else {
        first_at(s, p, from + 1)
    }
}

/// A position `first_at` finds is an occurrence at or after `from`.
pub proof fn lemma_first_at_bounds(s: Seq<char>, p: Seq<char>, from: int)
    ensures
        first_at(s, p, from) matches Some(i) ==> from <= i && i + p.len() <= s.len() && occurs_at(
            s,
            p,
            i,
        ),
    decreases s.len() - from,
{
    if !(from < 0 || from >= s.len() || from + p.len() > s.len()) && !occurs_at(s, p, from) {
        lemma_first_at_bounds(s, p, from + 1);
    }
}

/// The first position at or after `from` where `p` occurs in `v`.
pub fn find_from(v: &[char], p: &[char], from: usize) -> (r: Option<usize>)
    ensures
        match r {
            Some(i) => first_at(v@, p@, from as int) == Some(i as int),
            None => first_at(v@, p@, from as int) is None,
        },
{
    if p.len() > v.len() {
        return None;
    }
    if from >= v.len() || from > v.len() - p.len() {
        return None;
    }
    let mut i = from;
    loop
        invariant
            from <= i <= v@.len() - p@.len(),
            i < v@.len(),
            p@.len() <= v@.len(),
            first_at(v@, p@, from as int) == first_at(v@, p@, i as int),
        decreases v@.len() - i,
    {
        if matches_at(v, i, p) {
            return Some(i);
        }
        if i == v.len() - p.len() || i + 1 == v.len() {
            assert(first_at(v@, p@, i + 1) is None);
            return None;
        }
        i += 1;
    }
}

/// Whether `p` occurs in `v`, as `str::contains` tests it.
pub fn contains_chars(v: &[char], p: &[char]) -> (r: bool)
    ensures
        r == contains_seq(v@, p@),
{
    let mut i: usize = 0;
    while i < v.len()
        invariant
            i <= v@.len(),
            forall|k: int| 0 <= k < i ==> !occurs_at(v@, p@, k),
        decreases v@.len() - i,
    {
        if matches_at(v, i, p) {
            return true;
        }
        i += 1;
    }
    if matches_at(v, i, p) {
        return true;
    }
    assert forall|k: int| !occurs_at(v@, p@, k) by {
        if 0 <= k && k + p@.len() <= v@.len() {
            assert(k <= i);
        }
    }
    false
}

/// Whether `s` contains the characters of `p`.
pub fn str_contains(s: &str, p: &str) -> (r: bool)
    ensures
        r == contains_seq(s@, p@),
{
    let vs = chars_of(s);
    let vp = chars_of(p);
    contains_chars(vs.as_slice(), vp.as_slice())
}

// ---------------------------------------------------------------------------
// Decimal numbers (the `Display` of unsigned integers)
// ---------------------------------------------------------------------------

/// The decimal digits of `n`, without leading zeros.
pub open spec fn decimal(n: nat) -> Seq<char>
    decreases n,
{
    if n < 10 {
        seq![digit_char(n)]
    } else {
        decimal(n / 10).push(digit_char(n % 10))
    }
}

fn digit(d: u64) -> (c: char)
    requires
        d < 10,
    ensures
        c == digit_char(d as nat),
{
    if d == 0 {
        '0'
    } else if d == 1 {
        '1'
    } else if d == 2 {
        '2'
    } else if d == 3 {
        '3'
    } else if d == 4 {
        '4'
    } else if d == 5 {
        '5'
    } else if d == 6 {
        '6'
    } else if d == 7 {
        '7'
    } else if d == 8 {
        '8'
    } else {
        '9'
    }
}

/// Appends the decimal digits of `n` to `s`.
pub fn push_decimal(s: &mut String, n: u64)
    ensures
        final(s)@ == old(s)@ + decimal(n as nat),
    decreases n,
{
    if n >= 10 {
        push_decimal(s, n / 10);
    }
    push_char(s, digit(n % 10));
    assert(s@ =~= old(s)@ + decimal(n as nat));
}

/// The lower-case hexadecimal digits.
pub open spec fn hex_digits() -> Seq<char> {
    seq!['0', '1', '2', '3', '4', '5', '6', '7', '8', '9', 'a', 'b', 'c', 'd', 'e', 'f']
}

/// The lower-case hexadecimal digits of `n`, without leading zeros, as
/// `format!("{:x}", n)` gives them.
pub open spec fn hex(n: nat) -> Seq<char>
    decreases n,
{
    if n < 16 {
        seq![hex_digits()[n as int]]
    } else {
        hex(n / 16).push(hex_digits()[(n % 16) as int])
    }
}

fn hex_digit(d: u64) -> (c: char)
    requires
        d < 16,
    ensures
        c == hex_digits()[d as int],
{
    if d < 10 {
        digit(d)
    } else if d == 10 {
        'a'
    } else if d == 11 {
        'b'
    } else if d == 12 {
        'c'
    } else if d == 13 {
        'd'
    } else if d == 14 {
        'e'
    } else {
        'f'
    }
}

/// Appends the hexadecimal digits of `n` to `s`.
pub fn push_hex(s: &mut String, n: u64)
    ensures
        final(s)@ == old(s)@ + hex(n as nat),
    decreases n,
{
    if n >= 16 {
        push_hex(s, n / 16);
    }
    push_char(s, hex_digit(n % 16));
    assert(s@ =~= old(s)@ + hex(n as nat));
}

/// The decimal digits of `n`, as `n.to_string()` gives them.
pub fn decimal_string(n: u64) -> (r: String)
    ensures
        r@ == decimal(n as nat),
{
    let mut s = String::new();
    push_decimal(&mut s, n);
    assert(s@ =~= decimal(n as nat));
    s
}

// ---------------------------------------------------------------------------
// `Debug` of strings
// ---------------------------------------------------------------------------

/// What `format!("{:?}", s)` writes for a string with characters `s`: the
/// characters in double quotes, each as `char::escape_debug` writes it.
pub uninterp spec fn str_debug(s: Seq<char>) -> Seq<char>;

/// `format!("{:?}", s)` for a string: the standard library's `Debug` of `str`.
#[verifier::external_body]
pub(crate) fn debug_quoted(s: &str) -> (r: String)
    ensures
        r@ == str_debug(s@),
{
    format!("{:?}", s)
}

// ---------------------------------------------------------------------------
// HTML escaping
// ---------------------------------------------------------------------------

/// How `html_escape` writes one character.
pub open spec fn escape_char(c: char) -> Seq<char> {
    if c == '&' {
        seq!['&', 'a', 'm', 'p', ';']
    } else if c == '<' {
        seq!['&', 'l', 't', ';']
    } else if c == '>' {
        seq!['&', 'g', 't', ';']
    } else if c == '"' {
        seq!['&', 'q', 'u', 'o', 't', ';']
    } else if c == '\'' {
        seq!['&', '#', 'x', '2', '7', ';']
    } else {
        seq![c]
    }
}

/// `s` with `& < > " '` written as HTML entities.
pub open spec fn escape(s: Seq<char>) -> Seq<char>
    decreases s.len(),
{
    if s.len() == 0 {
        seq![]
    } else {
        escape(s.drop_last()) + escape_char(s.last())
    }
}

/// Characters that an HTML text or attribute must not hold unescaped.
pub open spec fn is_html_special(c: char) -> bool {
    c == '<' || c == '>' || c == '"' || c == '\''
}

fn push_escaped_char(s: &mut String, c: char)
    ensures
        final(s)@ == old(s)@ + escape_char(c),
{
    let ghost s0 = s@;
    if c == '&' {
        push_char(s, '&');
        push_char(s, 'a');
        push_char(s, 'm');
        push_char(s, 'p');
        push_char(s, ';');
    } else if c == '<' {
        push_char(s, '&');
        push_char(s, 'l');
        push_char(s, 't');
        push_char(s, ';');
    } else if c == '>' {
        push_char(s, '&');
        push_char(s, 'g');
        push_char(s, 't');
        push_char(s, ';');
    } else if c == '"' {
        push_char(s, '&');
        push_char(s, 'q');
        push_char(s, 'u');
        push_char(s, 'o');
        push_char(s, 't');
        push_char(s, ';');
    } else if c == '\'' {
        push_char(s, '&');
        push_char(s, '#');
        push_char(s, 'x');
        push_char(s, '2');
        push_char(s, '7');
        push_char(s, ';');
    } else {
        push_char(s, c);
    }
    assert(s@ =~= s0 + escape_char(c));
}

/// Appends `escape(v[lo..hi])` to `s`.
pub fn push_escaped(s: &mut String, v: &[char], lo: usize, hi: usize)
    requires
        lo <= hi <= v@.len(),
    ensures
        final(s)@ == old(s)@ + escape(v@.subrange(lo as int, hi as int)),
{
    let mut i = lo;
    while i < hi
        invariant
            lo <= i <= hi <= v@.len(),
            s@ == old(s)@ + escape(v@.subrange(lo as int, i as int)),
        decreases hi - i,
    {
        push_escaped_char(s, v[i]);
        assert(v@.subrange(lo as int, i + 1).drop_last() =~= v@.subrange(lo as int, i as int));
        i += 1;
    }
}

/// The characters of `s` between byte offsets `a` and `b`, as
/// `&str[a..b]` gives them.
pub open spec fn byte_slice(s: Seq<char>, a: int, b: int) -> Seq<char> {
    s.subrange(char_index(s, a), char_index(s, b))
}

/// The characters of `s` from byte offset `a` on, as `&str[a..]` gives
/// them.
pub open spec fn byte_tail(s: Seq<char>, a: int) -> Seq<char> {
    s.skip(char_index(s, a))
}

/// `offs` holds the byte offset of every character of `v` and of its end.
pub open spec fn offsets_of(v: Seq<char>, offs: Seq<usize>) -> bool {
    &&& offs.len() == v.len() + 1
    &&& forall|k: int| 0 <= k <= v.len() ==> #[trigger] offs[k] == byte_len(v.take(k))
}

/// Appends `v[a..b]`, its ends byte offsets, HTML-escaped.
pub fn push_escaped_bytes(s: &mut String, v: &[char], offs: &Vec<usize>, a: usize, b: usize)
    requires
        offsets_of(v@, offs@),
        is_char_boundary_at(v@, a as int),
        is_char_boundary_at(v@, b as int),
        a <= b,
    ensures
        final(s)@ == old(s)@ + escape(byte_slice(v@, a as int, b as int)),
{
    let ca = char_index_of(v, offs, a);
    let cb = char_index_of(v, offs, b);
    proof {
        if cb < ca {
            lemma_byte_prefix_strict(v@, cb as int, ca as int);
        }
    }
    push_escaped(s, v, ca, cb);
}

/// Appends `v[a..]`, `a` a byte offset, HTML-escaped.
pub fn push_escaped_tail(s: &mut String, v: &[char], offs: &Vec<usize>, a: usize)
    requires
        offsets_of(v@, offs@),
        is_char_boundary_at(v@, a as int),
    ensures
        final(s)@ == old(s)@ + escape(byte_tail(v@, a as int)),
{
    let ca = char_index_of(v, offs, a);
    push_escaped(s, v, ca, v.len());
    assert(v@.subrange(ca as int, v@.len() as int) =~= v@.skip(ca as int));
}

/// Escapes `& < > " '` as HTML entities.
pub fn html_escape(text: &str) -> (r: String)
    ensures
        r@ == escape(text@),
{
    let v = chars_of(text);
    let mut r = String::new();
    push_escaped(&mut r, v.as_slice(), 0, v.len());
    assert(v@.subrange(0, v@.len() as int) =~= v@);
    r
}

/// Escaping leaves no `< > " '` behind, and an ampersand only where it
/// starts an entity.
pub proof fn lemma_escape_has_no_specials(s: Seq<char>)
    ensures
        forall|i: int| 0 <= i < escape(s).len() ==> !is_html_special(#[trigger] escape(s)[i]),
    decreases s.len(),
{
    if s.len() > 0 {
        lemma_escape_has_no_specials(s.drop_last());
        let a = escape(s.drop_last());
        let b = escape_char(s.last());
        assert forall|i: int| 0 <= i < escape(s).len() implies !is_html_special(
            #[trigger] escape(s)[i],
        ) by {
            if i < a.len() {
                assert(escape(s)[i] == a[i]);
            } else {
                assert(escape(s)[i] == b[i - a.len()]);
            }
        }
    }
}

/// Text without `& < > " '` is left as it is.
pub proof fn lemma_escape_plain(s: Seq<char>)
    requires
        forall|i: int| 0 <= i < s.len() ==> !is_html_special(#[trigger] s[i]) && s[i] != '&',
    ensures
        escape(s) == s,
    decreases s.len(),
{
    if s.len() > 0 {
        lemma_escape_plain(s.drop_last());
        assert(s.drop_last().push(s.last()) =~= s);
    }
}

/// Escaping distributes over concatenation.
pub proof fn lemma_escape_concat(a: Seq<char>, b: Seq<char>)
    ensures
        escape(a + b) == escape(a) + escape(b),
    decreases b.len(),
{
    if b.len() == 0 {
        assert(a + b =~= a);
        assert(escape(b) =~= Seq::<char>::empty());
        assert(escape(a) + escape(b) =~= escape(a));
    } else {
        lemma_escape_concat(a, b.drop_last());
        assert((a + b).drop_last() =~= a + b.drop_last());
        assert((a + b).last() == b.last());
        assert(escape(a + b) =~= escape(a) + escape(b));
    }
}

} // verus!
