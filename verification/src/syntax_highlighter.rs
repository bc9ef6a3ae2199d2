//! Basic syntax highlighting for raw markdown mode. Lines are laid out by
//! their UTF-8 byte lengths, and line-level tokens (headers, list markers,
//! quotes, rules, plain text) are placed in bytes; inline tokens count
//! characters within their line.
use vstd::prelude::*;

use crate::syntax_parser::{
    all_digits, dot_space, find_char, find_char_from, find_closing_marker,
    find_closing_marker_from, find_dot_space, find_seq, opt_int,
};
use crate::text::{
    byte_len, byte_line_offset, byte_offsets, chars_of, is_digit, lemma_byte_len_bounds,
    lemma_byte_len_split, lemma_span_bytes, line_spans, lines, occurs_at, spans_ok, string_of,
    trim_start, ws_prefix_len, ws_prefix_len_of,
};

verus! {

broadcast use vstd::string::group_string_axioms;

/// Syntax highlighting token types
#[derive(Debug, Clone, Copy, PartialEq, Eq, Structural)]
pub enum TokenType {
    /// Plain text
    Text,
    /// Header markers (# ## ###)
    Header,
    /// Bold markers (**)
    Bold,
    /// Italic markers (*)
    Italic,
    /// Code markers (`)
    Code,
    /// Link syntax
    Link,
    /// List markers (- * + 1.)
    ListMarker,
    /// Blockquote markers (>)
    Blockquote,
    /// Horizontal rule (---)
    HorizontalRule,
}

/// A highlighted token with position information
#[derive(Debug, PartialEq, Eq)]
pub struct HighlightToken {
    /// Type of token
    pub token_type: TokenType,
    /// Start position in the content
    pub start: usize,
    /// End position in the content
    pub end: usize,
    /// The actual text content
    pub text: String,
}

/// What a `HighlightToken` says.
pub struct TokenView {
    pub ty: TokenType,
    pub start: int,
    pub end: int,
    pub text: Seq<char>,
}

impl View for HighlightToken {
    type V = TokenView;

    open spec fn view(&self) -> TokenView {
        TokenView {
            ty: self.token_type,
            start: self.start as int,
            end: self.end as int,
            text: self.text@,
        }
    }
}

pub open spec fn tok(ty: TokenType, start: int, end: int, text: Seq<char>) -> TokenView {
    TokenView { ty, start, end, text }
}

pub open spec fn token_views(s: Seq<HighlightToken>) -> Seq<TokenView> {
    s.map_values(|t: HighlightToken| t@)
}

impl Clone for HighlightToken {
    fn clone(&self) -> (r: Self)
        ensures
            r@ == self@,
    {
        HighlightToken {
            token_type: self.token_type,
            start: self.start,
            end: self.end,
            text: self.text.clone(),
        }
    }
}

impl HighlightToken {
    /// Create a new highlight token
    pub fn new(token_type: TokenType, start: usize, end: usize, text: String) -> (t: Self)
        ensures
            t@ == tok(token_type, start as int, end as int, text@),
    {
        Self { token_type, start, end, text }
    }

    /// Get the length of the token
    pub fn len(&self) -> (n: usize)
        requires
            self.start <= self.end,
        ensures
            n == self.end - self.start,
    {
        self.end - self.start
    }

    /// Check if the token is empty
    pub fn is_empty(&self) -> (b: bool)
        ensures
            b == (self.start >= self.end),
    {
        self.start >= self.end
    }
}

/// Syntax highlighter for markdown in raw mode
pub struct SyntaxHighlighter {
    /// Whether to highlight inline code
    pub highlight_code: bool,
    /// Whether to highlight links
    pub highlight_links: bool,
    /// Whether to highlight headers
    pub highlight_headers: bool,
    /// Whether to highlight lists
    pub highlight_lists: bool,
}

// ---------------------------------------------------------------------------
// Specification of the highlighter
// ---------------------------------------------------------------------------

/// Length of the list marker at the start of `t`: `- `, `* ` or `+ `, or
/// the text before the first `. ` when it is all digits, with the `. `.
pub open spec fn list_marker_len(t: Seq<char>) -> Option<int> {
    if occurs_at(t, seq!['-', ' '], 0) || occurs_at(t, seq!['*', ' '], 0) || occurs_at(
        t,
        seq!['+', ' '],
        0,
    ) {
        Some(2)
    } else {
        match find_seq(t, dot_space(), 0) {
            Some(d) => if all_digits(t.take(d)) {
                Some(d + 2)
            } else {
                None
            },
            None => None,
        }
    }
}

/// End of the link `[text](url)` that starts at `c[pos]`: the index of its
/// `)`.
pub open spec fn link_end(c: Seq<char>, pos: int) -> Option<int> {
    match find_char(c, ']', pos + 1) {
        Some(b) => if b + 1 < c.len() && c[b + 1] == '(' {
            find_char(c, ')', b + 2)
        } else {
            None
        },
        None => None,
    }
}

/// The inline token that starts at `c[pos]`, with where the scan resumes.
pub open spec fn inline_token_at(h: SyntaxHighlighter, c: Seq<char>, off: int, pos: int) -> Option<
    (TokenView, int),
> {
    if h.highlight_code && c[pos] == '`' && find_char(c, '`', pos + 1) is Some {
        let e = find_char(c, '`', pos + 1)->0;
        Some((tok(TokenType::Code, off + pos, off + e + 1, c.subrange(pos, e + 1)), e + 1))
    } else if pos + 1 < c.len() && c[pos] == '*' && c[pos + 1] == '*' && find_closing_marker(
        c,
        '*',
        true,
        pos + 2,
    ) is Some {
        let e = find_closing_marker(c, '*', true, pos + 2)->0;
        Some((tok(TokenType::Bold, off + pos, off + e + 2, c.subrange(pos, e + 2)), e + 2))
    } else if c[pos] == '*' && find_char(c, '*', pos + 1) is Some {
        let e = find_char(c, '*', pos + 1)->0;
        Some((tok(TokenType::Italic, off + pos, off + e + 1, c.subrange(pos, e + 1)), e + 1))
    } else if h.highlight_links && c[pos] == '[' && link_end(c, pos) is Some {
        let e = link_end(c, pos)->0;
        Some((tok(TokenType::Link, off + pos, off + e + 1, c.subrange(pos, e + 1)), e + 1))
    } else {
        None
    }
}

pub proof fn lemma_find_char_bounds(s: Seq<char>, c: char, from: int)
    ensures
        find_char(s, c, from) matches Some(j) ==> from <= j < s.len() && s[j] == c,
    decreases s.len() - from,
{
    if 0 <= from < s.len() && s[from] != c {
        lemma_find_char_bounds(s, c, from + 1);
    }
}

pub proof fn lemma_find_closing_marker_bounds(s: Seq<char>, m: char, from: int)
    ensures
        find_closing_marker(s, m, true, from) matches Some(j) ==> from <= j && j + 1 < s.len(),
    decreases s.len() - from,
{
    if 0 <= from < s.len() && !(s[from] == m && from + 1 < s.len() && s[from + 1] == m) {
        lemma_find_closing_marker_bounds(s, m, from + 1);
    }
}

pub proof fn lemma_inline_token_at(h: SyntaxHighlighter, c: Seq<char>, off: int, pos: int)
    requires
        0 <= pos < c.len(),
    ensures
        inline_token_at(h, c, off, pos) matches Some(p) ==> pos < p.1 <= c.len() && p.0.start
            == off + pos && p.0.end == off + p.1 && p.0.text == c.subrange(pos, p.1),
{
    lemma_find_char_bounds(c, '`', pos + 1);
    lemma_find_char_bounds(c, '*', pos + 1);
    lemma_find_closing_marker_bounds(c, '*', pos + 2);
    lemma_find_char_bounds(c, ']', pos + 1);
    if let Some(b) = find_char(c, ']', pos + 1) {
        lemma_find_char_bounds(c, ')', b + 2);
    }
}

/// The inline tokens that a scan of `c` from `pos` finds.
pub open spec fn inline_from(h: SyntaxHighlighter, c: Seq<char>, off: int, pos: int) -> Seq<
    TokenView,
>
    decreases c.len() - pos,
{
    if pos < 0 || pos >= c.len() {
        seq![]
    } else {
        match inline_token_at(h, c, off, pos) {
            Some(p) => {
                proof {
                    lemma_inline_token_at(h, c, off, pos);
                }
                seq![p.0] + inline_from(h, c, off, p.1)
            },
            None => inline_from(h, c, off, pos + 1),
        }
    }
}

/// A marker token at the start of the trimmed line, then the rest of the
/// line as text, if any.
pub open spec fn marker_then_text(
    ty: TokenType,
    line: Seq<char>,
    off: int,
    t: Seq<char>,
    base: int,
    m: int,
) -> Seq<TokenView> {
    let mb = base + byte_len(t.take(m));
    let head = seq![tok(ty, base, mb, t.take(m))];
    if m < t.len() {
        head.push(tok(TokenType::Text, mb, off + byte_len(line), t.skip(m)))
    } else {
        head
    }
}

/// The tokens of one line that starts at byte `off`.
pub open spec fn spec_highlight_line(h: SyntaxHighlighter, line: Seq<char>, off: int) -> Seq<
    TokenView,
> {
    let t = trim_start(line);
    let base = off + byte_len(line.take(ws_prefix_len(line) as int));
    if h.highlight_headers && t.len() > 0 && t[0] == '#' {
        let he = match find_char(t, ' ', 0) {
            Some(j) => j,
            None => t.len() as int,
        };
        marker_then_text(TokenType::Header, line, off, t, base, he)
    } else if h.highlight_lists && list_marker_len(t) is Some {
        marker_then_text(TokenType::ListMarker, line, off, t, base, list_marker_len(t)->0)
    } else if t.len() > 0 && t[0] == '>' {
        let qe = if t.len() > 1 && t[1] == ' ' {
            2
        } else {
            1
        };
        marker_then_text(TokenType::Blockquote, line, off, t, base, qe)
    } else if t == seq!['-', '-', '-'] || t == seq!['*', '*', '*'] || t == seq!['_', '_', '_'] {
        seq![tok(TokenType::HorizontalRule, base, off + byte_len(line), t)]
    } else if inline_from(h, line, off, 0).len() > 0 {
        inline_from(h, line, off, 0)
    } else {
        seq![tok(TokenType::Text, off, off + byte_len(line), line)]
    }
}

proof fn lemma_find_char_first(s: Seq<char>, c: char, from: int)
    requires
        0 <= from,
    ensures
        find_char(s, c, from) matches Some(j) ==> from <= j < s.len() && s[j] == c && forall|k: int|
            from <= k < j ==> s[k] != c,
        find_char(s, c, from) is None ==> forall|k: int| from <= k < s.len() ==> s[k] != c,
    decreases s.len() - from,
{
    if from < s.len() && s[from] != c {
        lemma_find_char_first(s, c, from + 1);
    }
}

/// With headers highlighted, a line whose text (after its indentation)
/// starts with `#` gives a header token first: the text up to the first
/// space, or all of it when there is none (so every leading `#` is in it:
/// the token holds no space and ends at one or at the end).
/// The rest of the text, from that space on, follows as one text token
/// ending at the end of the line; nothing follows when there is no rest.
pub proof fn lemma_header_token(h: SyntaxHighlighter, line: Seq<char>, off: int)
    requires
        h.highlight_headers,
        trim_start(line).len() > 0,
        trim_start(line)[0] == '#',
    ensures
        ({
            let t = trim_start(line);
            let toks = spec_highlight_line(h, line, off);
            let m = toks[0].text.len() as int;
            &&& toks.len() >= 1
            &&& toks[0].ty == TokenType::Header
            &&& 1 <= m <= t.len()
            &&& toks[0].text == t.take(m)
            &&& forall|k: int| 0 <= k < m ==> t[k] != ' '
            &&& m < t.len() ==> t[m] == ' '
            &&& m < t.len() ==> toks.len() == 2 && toks[1].ty == TokenType::Text && toks[1].text
                == t.skip(m) && toks[1].start == toks[0].end && toks[1].end == off + byte_len(line)
            &&& m == t.len() ==> toks.len() == 1
        }),
{
    let t = trim_start(line);
    lemma_find_char_first(t, ' ', 0);
    let he = match find_char(t, ' ', 0) {
        Some(j) => j,
        None => t.len() as int,
    };
    assert(t[0] != ' ');
    assert(t.take(he).len() == he);
}

/// With lists highlighted, a line whose text (after its indentation) is
/// not a highlighted header and starts with `- `, `* ` or `+ ` gives the
/// two-character marker as a list-marker token at the start of the text,
/// then the rest of the line as one text token, if there is any.
pub proof fn lemma_bullet_marker_token(h: SyntaxHighlighter, line: Seq<char>, off: int)
    requires
        h.highlight_lists,
        trim_start(line).len() >= 2,
        trim_start(line)[0] == '-' || trim_start(line)[0] == '*' || trim_start(line)[0] == '+',
        trim_start(line)[1] == ' ',
    ensures
        ({
            let t = trim_start(line);
            let toks = spec_highlight_line(h, line, off);
            let base = off + byte_len(line.take(ws_prefix_len(line) as int));
            &&& toks.len() == if t.len() > 2 {
                2int
            } else {
                1int
            }
            &&& toks[0].ty == TokenType::ListMarker
            &&& toks[0].text == t.take(2)
            &&& toks[0].start == base
            &&& t.len() > 2 ==> toks[1].ty == TokenType::Text && toks[1].text == t.skip(2)
                && toks[1].start == toks[0].end && toks[1].end == off + byte_len(line)
        }),
{
    let t = trim_start(line);
    assert(t.subrange(0, 2) =~= seq![t[0], ' ']);
    assert(occurs_at(t, seq![t[0], ' '], 0));
    if t[0] == '-' {
        assert(seq![t[0], ' '] =~= seq!['-', ' ']);
    } else if t[0] == '*' {
        assert(seq![t[0], ' '] =~= seq!['*', ' ']);
    } else {
        assert(seq![t[0], ' '] =~= seq!['+', ' ']);
    }
    assert(t.take(2).len() == 2);
}

/// The tokens of the first `n` lines of `ls`, each line starting one byte
/// after the end of the one before.
pub open spec fn highlight_lines(h: SyntaxHighlighter, ls: Seq<Seq<char>>, n: int) -> Seq<
    TokenView,
>
    decreases n,
{
    if n <= 0 {
        seq![]
    } else {
        highlight_lines(h, ls, n - 1) + spec_highlight_line(h, ls[n - 1], byte_line_offset(ls, n - 1))
    }
}

/// The tokens of every line of `s`.
pub open spec fn spec_highlight(h: SyntaxHighlighter, s: Seq<char>) -> Seq<TokenView> {
    highlight_lines(h, lines(s), lines(s).len() as int)
}

// ---------------------------------------------------------------------------
// Implementation
// ---------------------------------------------------------------------------

/// `list_marker_len` of `v[lo..hi]`.
fn list_marker_len_of(v: &[char], lo: usize, hi: usize) -> (r: Option<usize>)
    requires
        lo <= hi <= v@.len(),
    ensures
        opt_int(r) == list_marker_len(v@.subrange(lo as int, hi as int)),
        r matches Some(m) ==> m <= hi - lo,
{
    let ghost t = v@.subrange(lo as int, hi as int);
    if hi - lo >= 2 && v[lo + 1] == ' ' && (v[lo] == '-' || v[lo] == '*' || v[lo] == '+') {
        assert(occurs_at(t, seq![v@[lo as int], ' '], 0)) by {
            assert(t.subrange(0, 2) =~= seq![v@[lo as int], ' ']);
        }
        return Some(2);
    }
    assert(!occurs_at(t, seq!['-', ' '], 0) && !occurs_at(t, seq!['*', ' '], 0) && !occurs_at(
        t,
        seq!['+', ' '],
        0,
    )) by {
        if hi - lo >= 2 {
            assert(t.subrange(0, 2)[0] == t[0] && t.subrange(0, 2)[1] == t[1]);
        }
    }
    match find_dot_space(v, lo, hi) {
        Some(d) => {
            let mut j: usize = 0;
            while j < d
                invariant
                    d + 2 <= hi - lo,
                    lo <= hi <= v@.len(),
                    find_seq(t, dot_space(), 0) == Some(d as int),
                    !occurs_at(t, seq!['-', ' '], 0),
                    !occurs_at(t, seq!['*', ' '], 0),
                    !occurs_at(t, seq!['+', ' '], 0),
                    t == v@.subrange(lo as int, hi as int),
                    j <= d,
                    forall|k: int| 0 <= k < j ==> is_digit(#[trigger] t[k]),
                decreases d - j,
            {
                assert(t[j as int] == v@[lo + j]);
                if !('0' <= v[lo + j] && v[lo + j] <= '9') {
                    assert(t.take(d as int)[j as int] == t[j as int]);
                    assert(!is_digit(t.take(d as int)[j as int]));
                    assert(!all_digits(t.take(d as int)));
                    return None;
                }
                j += 1;
            }
            assert(all_digits(t.take(d as int)));
            Some(d + 2)
        },
        None => None,
    }
}

impl SyntaxHighlighter {
    /// Create a new syntax highlighter with every kind of highlighting on
    pub fn new() -> (h: Self)
        ensures
            h.highlight_code && h.highlight_links && h.highlight_headers && h.highlight_lists,
    {
        Self {
            highlight_code: true,
            highlight_links: true,
            highlight_headers: true,
            highlight_lists: true,
        }
    }

    /// Highlight markdown content, line by line
    pub fn highlight(&self, content: &str) -> (r: Vec<HighlightToken>)
        ensures
            token_views(r@) == spec_highlight(*self, content@),
    {
        let total = content.as_bytes().len();
        let v = chars_of(content);
        let offs = byte_offsets(v.as_slice());
        let spans = line_spans(v.as_slice());
        let ghost ls = lines(v@);
        proof {
            assert(v@.take(v@.len() as int) =~= v@);
        }
        let mut tokens: Vec<HighlightToken> = Vec::new();
        let mut offset: usize = 0;
        let mut i: usize = 0;
        assert(token_views(tokens@) =~= highlight_lines(*self, ls, 0));
        while i < spans.len()
            invariant
                spans_ok(v@, spans@),
                ls == lines(v@),
                v@ == content@,
                i <= spans@.len(),
                offs@.len() == v@.len() + 1,
                forall|k: int| 0 <= k <= v@.len() ==> #[trigger] offs@[k] == byte_len(v@.take(k)),
                total == byte_len(v@),
                i < spans@.len() ==> offset == byte_line_offset(ls, i as int),
                token_views(tokens@) == highlight_lines(*self, ls, i as int),
            decreases spans@.len() - i,
        {
            let (a, b) = spans[i];
            proof {
                lemma_span_bytes(v@, spans@, i as int);
                assert(v@.subrange(a as int, b as int) == ls[i as int]);
                assert(offs@[a as int] == byte_len(v@.take(a as int)));
                assert(offs@[b as int] == byte_len(v@.take(b as int)));
            }
            let line = string_of(v.as_slice(), a, b);
            let mut line_tokens = self.highlight_line(line.as_str(), offset);
            let ghost before = tokens@;
            let mut k: usize = 0;
            let cnt = line_tokens.len();
            let ghost lt = line_tokens@;
            assert(line_tokens@ =~= lt.skip(0));
            while k < cnt
                invariant
                    cnt == lt.len(),
                    line_tokens@ == lt.skip(k as int),
                    k <= lt.len(),
                    token_views(tokens@) == token_views(before) + token_views(lt.take(k as int)),
                decreases lt.len() - k,
            {
                let t = line_tokens.remove(0);
                let ghost mid = tokens@;
                tokens.push(t);
                proof {
                    assert(token_views(tokens@) =~= token_views(mid).push(t@));
                    assert(token_views(lt.take(k + 1)) =~= token_views(lt.take(k as int)).push(
                        lt[k as int]@,
                    ));
                    assert(line_tokens@ =~= lt.skip(k + 1));
                }
                k += 1;
            }
            assert(lt.take(k as int) =~= lt);
            if i + 1 < spans.len() {
                proof {
                    lemma_span_bytes(v@, spans@, i + 1);
                }
                offset = offset + (offs[b] - offs[a]) + 1;
            }
            i += 1;
        }
        tokens
    }

    /// Highlight a line of markdown text that starts at `line_offset`
    #[verifier::rlimit(50)]
    pub fn highlight_line(&self, line: &str, line_offset: usize) -> (r: Vec<HighlightToken>)
        requires
            line_offset + byte_len(line@) <= usize::MAX,
        ensures
            token_views(r@) == spec_highlight_line(*self, line@, line_offset as int),
    {
        let nb = line.as_bytes().len();
        let v = chars_of(line);
        let offs = byte_offsets(v.as_slice());
        let n = v.len();
        let k = ws_prefix_len_of(v.as_slice(), 0, n);
        assert(v@.subrange(0, n as int) =~= v@);
        let ghost t = trim_start(line@);
        assert(t =~= v@.subrange(k as int, n as int));
        proof {
            assert(v@.take(n as int) =~= v@);
            assert(offs@[n as int] == byte_len(v@.take(n as int)));
            assert(offs@[k as int] == byte_len(v@.take(k as int)));
            lemma_byte_len_bounds(v@, k as int);
        }
        let base = line_offset + offs[k];
        let mut tokens: Vec<HighlightToken> = Vec::new();
        if self.highlight_headers && k < n && v[k] == '#' {
            let he = match find_char_from(v.as_slice(), k, n, ' ', 0) {
                Some(j) => j,
                None => n - k,
            };
            self.push_marker_then_text(&mut tokens, &v, &offs, line_offset, k, he, TokenType::Header);
            return tokens;
        }
        if self.highlight_lists {
            match list_marker_len_of(v.as_slice(), k, n) {
                Some(m) => {
                    self.push_marker_then_text(
                        &mut tokens,
                        &v,
                        &offs,
                        line_offset,
                        k,
                        m,
                        TokenType::ListMarker,
                    );
                    return tokens;
                },
                None => {},
            }
        }
        if k < n && v[k] == '>' {
            let qe: usize = if n - k > 1 && v[k + 1] == ' ' {
                2
            } else {
                1
            };
            self.push_marker_then_text(&mut tokens, &v, &offs, line_offset, k, qe, TokenType::Blockquote);
            return tokens;
        }
        if n - k == 3 && v[k] == v[k + 1] && v[k + 1] == v[k + 2] && (v[k] == '-' || v[k] == '*'
            || v[k] == '_') {
            assert(t =~= seq![v@[k as int], v@[k as int], v@[k as int]]);
            tokens.push(
                HighlightToken::new(
                    TokenType::HorizontalRule,
                    base,
                    line_offset + nb,
                    string_of(v.as_slice(), k, n),
                ),
            );
            assert(token_views(tokens@) =~= spec_highlight_line(*self, line@, line_offset as int));
            return tokens;
        }
        assert(!(t == seq!['-', '-', '-'] || t == seq!['*', '*', '*'] || t == seq![
            '_',
            '_',
            '_',
        ])) by {
            if t.len() == 3 {
                assert(t[0] == v@[k as int] && t[1] == v@[k + 1] && t[2] == v@[k + 2]);
            }
        }
        proof {
            lemma_byte_len_bounds(v@, 0);
        }
        let inline = self.inline_tokens_of(&v, line_offset);
        if inline.len() > 0 {
            return inline;
        }
        tokens.push(
            HighlightToken::new(TokenType::Text, line_offset, line_offset + nb, string_of(v.as_slice(), 0, n)),
        );
        assert(token_views(tokens@) =~= spec_highlight_line(*self, line@, line_offset as int));
        tokens
    }

    /// Pushes a marker token of length `m` at the start of the trimmed line
    /// (which starts at `k`), then the rest of the line as text, if any.
    fn push_marker_then_text(
        &self,
        tokens: &mut Vec<HighlightToken>,
        v: &Vec<char>,
        offs: &Vec<usize>,
        off: usize,
        k: usize,
        m: usize,
        ty: TokenType,
    )
        requires
            old(tokens)@.len() == 0,
            k + m <= v@.len(),
            off + byte_len(v@) <= usize::MAX,
            offs@.len() == v@.len() + 1,
            forall|j: int| 0 <= j <= v@.len() ==> #[trigger] offs@[j] == byte_len(v@.take(j)),
        ensures
            token_views(final(tokens)@) == marker_then_text(
                ty,
                v@,
                off as int,
                v@.skip(k as int),
                off + byte_len(v@.take(k as int)),
                m as int,
            ),
    {
        let n = v.len();
        proof {
            assert(v@.take(n as int) =~= v@);
            assert(offs@[n as int] == byte_len(v@.take(n as int)));
            assert(offs@[k as int] == byte_len(v@.take(k as int)));
            assert(offs@[k + m] == byte_len(v@.take(k + m)));
            lemma_byte_len_split(v@, k as int, k + m);
            lemma_byte_len_split(v@, k + m, n as int);
        }
        let base = off + offs[k];
        let mb = off + offs[k + m];
        tokens.push(HighlightToken::new(ty, base, mb, string_of(v.as_slice(), k, k + m)));
        if k + m < n {
            tokens.push(
                HighlightToken::new(
                    TokenType::Text,
                    mb,
                    off + offs[n],
                    string_of(v.as_slice(), k + m, n),
                ),
            );
        }
        proof {
            let t = v@.skip(k as int);
            assert(t.take(m as int) =~= v@.subrange(k as int, k + m));
            assert(t.skip(m as int) =~= v@.subrange(k + m, n as int));
            assert(token_views(tokens@) =~= marker_then_text(
                ty,
                v@,
                off as int,
                t,
                off + byte_len(v@.take(k as int)),
                m as int,
            ));
        }
    }

    /// Detect list marker at the start of a line
    pub fn detect_list_marker(&self, line: &str, offset: usize) -> (r: Option<HighlightToken>)
        requires
            offset + line@.len() <= usize::MAX,
        ensures
            match list_marker_len(line@) {
                Some(m) => r matches Some(t) && t@ == tok(
                    TokenType::ListMarker,
                    offset as int,
                    offset + m,
                    line@.take(m),
                ),
                None => r is None,
            },
    {
        let v = chars_of(line);
        assert(v@.subrange(0, v@.len() as int) =~= v@);
        match list_marker_len_of(v.as_slice(), 0, v.len()) {
            Some(m) => {
                assert(v@.subrange(0, m as int) =~= line@.take(m as int));
                Some(
                    HighlightToken::new(
                        TokenType::ListMarker,
                        offset,
                        offset + m,
                        string_of(v.as_slice(), 0, m),
                    ),
                )
            },
            None => None,
        }
    }

    /// Highlight inline elements like bold, italic, code and links
    pub fn highlight_inline_elements(&self, line: &str, line_offset: usize) -> (r: Vec<
        HighlightToken,
    >)
        requires
            line_offset + line@.len() <= usize::MAX,
        ensures
            token_views(r@) == inline_from(*self, line@, line_offset as int, 0),
    {
        let v = chars_of(line);
        self.inline_tokens_of(&v, line_offset)
    }

    /// The inline token that starts at `v[pos]`, with where the scan
    /// resumes.
    fn inline_token_of(&self, v: &Vec<char>, off: usize, pos: usize) -> (r: Option<
        (HighlightToken, usize),
    >)
        requires
            pos < v@.len(),
            off + v@.len() <= usize::MAX,
        ensures
            match inline_token_at(*self, v@, off as int, pos as int) {
                Some(p) => r matches Some(q) && q.0@ == p.0 && q.1 == p.1,
                None => r is None,
            },
    {
        let n = v.len();
        proof {
            lemma_inline_token_at(*self, v@, off as int, pos as int);
            lemma_find_char_bounds(v@, '`', pos + 1);
            lemma_find_char_bounds(v@, '*', pos + 1);
            lemma_find_closing_marker_bounds(v@, '*', pos + 2);
        }
        assert(v@.subrange(0, n as int) =~= v@);
        if self.highlight_code && v[pos] == '`' {
            match find_char_from(v.as_slice(), 0, n, '`', pos + 1) {
                Some(e) => {
                    let t = HighlightToken::new(
                        TokenType::Code,
                        off + pos,
                        off + e + 1,
                        string_of(v.as_slice(), pos, e + 1),
                    );
                    return Some((t, e + 1));
                },
                None => {},
            }
        }
        if pos + 1 < n && v[pos] == '*' && v[pos + 1] == '*' {
            match find_closing_marker_from(v.as_slice(), 0, n, '*', true, pos + 2) {
                Some(e) => {
                    let t = HighlightToken::new(
                        TokenType::Bold,
                        off + pos,
                        off + e + 2,
                        string_of(v.as_slice(), pos, e + 2),
                    );
                    return Some((t, e + 2));
                },
                None => {},
            }
        }
        if v[pos] == '*' {
            match find_char_from(v.as_slice(), 0, n, '*', pos + 1) {
                Some(e) => {
                    let t = HighlightToken::new(
                        TokenType::Italic,
                        off + pos,
                        off + e + 1,
                        string_of(v.as_slice(), pos, e + 1),
                    );
                    return Some((t, e + 1));
                },
                None => {},
            }
        }
        if self.highlight_links && v[pos] == '[' {
            proof {
                lemma_find_char_bounds(v@, ']', pos + 1);
            }
            match find_char_from(v.as_slice(), 0, n, ']', pos + 1) {
                Some(b) => {
                    if b + 1 < n && v[b + 1] == '(' {
                        proof {
                            lemma_find_char_bounds(v@, ')', b + 2);
                        }
                        match find_char_from(v.as_slice(), 0, n, ')', b + 2) {
                            Some(e) => {
                                let t = HighlightToken::new(
                                    TokenType::Link,
                                    off + pos,
                                    off + e + 1,
                                    string_of(v.as_slice(), pos, e + 1),
                                );
                                return Some((t, e + 1));
                            },
                            None => {},
                        }
                    }
                },
                None => {},
            }
        }
        None
    }

    /// The inline tokens of the line `v` that starts at `off`.
    fn inline_tokens_of(&self, v: &Vec<char>, off: usize) -> (r: Vec<HighlightToken>)
        requires
            off + v@.len() <= usize::MAX,
        ensures
            token_views(r@) == inline_from(*self, v@, off as int, 0),
    {
        let n = v.len();
        let mut tokens: Vec<HighlightToken> = Vec::new();
        let mut pos: usize = 0;
        while pos < n
            invariant
                n == v@.len(),
                off + n <= usize::MAX,
                pos <= n,
                inline_from(*self, v@, off as int, 0) == token_views(tokens@) + inline_from(
                    *self,
                    v@,
                    off as int,
                    pos as int,
                ),
            decreases n - pos,
        {
            proof {
                lemma_inline_token_at(*self, v@, off as int, pos as int);
            }
            match self.inline_token_of(v, off, pos) {
                Some((t, next)) => {
                    let ghost before = tokens@;
                    tokens.push(t);
                    proof {
                        assert(token_views(tokens@) =~= token_views(before).push(t@));
                        assert(token_views(before) + inline_from(*self, v@, off as int, pos as int)
                            =~= token_views(tokens@) + inline_from(*self, v@, off as int, next as int));
                    }
                    pos = next;
                },
                None => {
                    pos += 1;
                },
            }
        }
        assert(token_views(tokens@) + inline_from(*self, v@, off as int, pos as int) =~= token_views(
            tokens@,
        ));
        tokens
    }
}

impl Default for SyntaxHighlighter {
    fn default() -> (h: Self)
        ensures
            h.highlight_code && h.highlight_links && h.highlight_headers && h.highlight_lists,
    {
        Self::new()
    }
}

} // verus!
