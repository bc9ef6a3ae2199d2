//! The rendered markdown page: the document's HTML placed in the page
//! template, and what the live view shows of it (its title and word
//! count).
use vstd::prelude::*;

use std::path::PathBuf;

use crate::renderer::{markdown_html, to_html};
use crate::routing::Method;
use crate::text::{
    chars_of, contains_seq, find_from, first_at, is_whitespace_char, is_ws, lemma_first_at_bounds,
    matches_at, occurs_at, owned, push_char, push_chars, push_str, str_contains, ws_prefix_len,
};

verus! {

broadcast use vstd::string::group_string_axioms;

// ---------------------------------------------------------------------------
// Replacing text (`str::replace`)
// ---------------------------------------------------------------------------

/// `s` with each occurrence of `from`, found left to right without
/// overlaps, replaced by `to`, as `str::replace` does for a non-empty
/// pattern.
pub open spec fn replace_all(s: Seq<char>, from: Seq<char>, to: Seq<char>) -> Seq<char>
    decreases s.len(),
{
    if s.len() == 0 || from.len() == 0 {
        s
    } else if s.len() >= from.len() && s.take(from.len() as int) == from {
        to + replace_all(s.skip(from.len() as int), from, to)
    } else {
        seq![s[0]] + replace_all(s.skip(1), from, to)
    }
}

/// `s` with each occurrence of `from` replaced by `to`.
pub fn replace_str(s: &str, from: &str, to: &str) -> (r: String)
    requires
        from@.len() > 0,
    ensures
        r@ == replace_all(s@, from@, to@),
{
    let v = chars_of(s);
    let p = chars_of(from);
    let mut out = String::new();
    let mut i: usize = 0;
    assert(v@.skip(0) =~= v@);
    while i < v.len()
        invariant
            v@ == s@,
            p@ == from@,
            p@.len() > 0,
            i <= v@.len(),
            out@ + replace_all(v@.skip(i as int), p@, to@) == replace_all(v@, p@, to@),
        decreases v@.len() - i,
    {
        let ghost rest = v@.skip(i as int);
        if matches_at(v.as_slice(), i, p.as_slice()) {
            proof {
                assert(rest.take(p@.len() as int) =~= v@.subrange(i as int, i + p@.len()));
                assert(rest.skip(p@.len() as int) =~= v@.skip(i + p@.len()));
                assert(out@ + to@ + replace_all(v@.skip(i + p@.len()), p@, to@) =~= out@
                    + replace_all(rest, p@, to@));
            }
            push_str(&mut out, to);
            i = i + p.len();
        } else {
            proof {
                if rest.len() >= p@.len() {
                    assert(rest.take(p@.len() as int) =~= v@.subrange(i as int, i + p@.len()));
                }
                assert(rest.skip(1) =~= v@.skip(i + 1));
                assert(out@.push(v@[i as int]) + replace_all(v@.skip(i + 1), p@, to@) =~= out@
                    + replace_all(rest, p@, to@));
            }
            push_char(&mut out, v[i]);
            i = i + 1;
        }
    }
    assert(v@.skip(i as int) =~= Seq::<char>::empty());
    out
}

// ---------------------------------------------------------------------------
// The page
// ---------------------------------------------------------------------------

/// The script tag the page needs for mermaid diagrams, when the HTML has a
/// mermaid code block.
pub open spec fn mermaid_assets(html: Seq<char>) -> Seq<char> {
    if contains_seq(html, "class=\"language-mermaid\""@) {
        "<script src=\"/mermaid.min.js\"></script>"@
    } else {
        ""@
    }
}

/// The page: the template with its content marker replaced by the HTML,
/// then its assets marker by the mermaid script where needed.
pub open spec fn spec_page(template: Seq<char>, html: Seq<char>) -> Seq<char> {
    replace_all(
        replace_all(template, "{CONTENT}"@, html),
        "<!-- {MERMAID_ASSETS} -->"@,
        mermaid_assets(html),
    )
}

/// Place rendered HTML in the page template.
pub fn page_from_template(template: &str, html: &str) -> (r: String)
    ensures
        r@ == spec_page(template@, html@),
{
    proof {
        reveal_strlit("{CONTENT}");
        reveal_strlit("<!-- {MERMAID_ASSETS} -->");
    }
    let has_mermaid = str_contains(html, "class=\"language-mermaid\"");
    let assets = if has_mermaid {
        "<script src=\"/mermaid.min.js\"></script>"
    } else {
        ""
    };
    let with_content = replace_str(template, "{CONTENT}", html);
    replace_str(with_content.as_str(), "<!-- {MERMAID_ASSETS} -->", assets)
}

// ---------------------------------------------------------------------------
// Title and word count
// ---------------------------------------------------------------------------

/// The number of whitespace characters at the end of `s`.
pub open spec fn ws_suffix_len(s: Seq<char>) -> nat
    decreases s.len(),
{
    if s.len() == 0 {
        0
    } else if is_ws(s.last()) {
        1 + ws_suffix_len(s.drop_last())
    } else {
        0
    }
}

/// `s` without whitespace at either end, as `str::trim` gives it.
pub open spec fn trim(s: Seq<char>) -> Seq<char> {
    let t = s.skip(ws_prefix_len(s) as int);
    t.take(t.len() - ws_suffix_len(t))
}

/// `s` without its `<` and `>` characters.
pub open spec fn strip_angles(s: Seq<char>) -> Seq<char>
    decreases s.len(),
{
    if s.len() == 0 {
        s
    } else if s.last() == '<' || s.last() == '>' {
        strip_angles(s.drop_last())
    } else {
        strip_angles(s.drop_last()).push(s.last())
    }
}

/// The title of rendered HTML: the text of its first `<h1>` up to the next
/// `</h1>`, without angle brackets and trimmed.
pub open spec fn spec_title(h: Seq<char>) -> Option<Seq<char>> {
    match first_at(h, "<h1"@, 0) {
        Some(start) => match first_at(h, ">"@, start) {
            Some(gt) => match first_at(h, "</h1>"@, gt + 1) {
                Some(end) => Some(trim(strip_angles(h.subrange(gt + 1, end)))),
                None => None,
            },
            None => None,
        },
        None => None,
    }
}

/// `v[lo..hi]` without angle brackets.
fn strip_angles_of(v: &[char], lo: usize, hi: usize) -> (r: Vec<char>)
    requires
        lo <= hi <= v@.len(),
    ensures
        r@ == strip_angles(v@.subrange(lo as int, hi as int)),
{
    let mut r: Vec<char> = Vec::new();
    let mut i = lo;
    while i < hi
        invariant
            lo <= i <= hi <= v@.len(),
            r@ == strip_angles(v@.subrange(lo as int, i as int)),
        decreases hi - i,
    {
        assert(v@.subrange(lo as int, i + 1).drop_last() =~= v@.subrange(lo as int, i as int));
        if v[i] != '<' && v[i] != '>' {
            r.push(v[i]);
        }
        i += 1;
    }
    r
}

/// `v` trimmed, as a string.
pub(crate) fn trimmed(v: &[char]) -> (r: String)
    ensures
        r@ == trim(v@),
{
    let mut lo: usize = 0;
    assert(v@.skip(0) =~= v@);
    while lo < v.len() && is_whitespace_char(v[lo])
        invariant
            lo <= v@.len(),
            ws_prefix_len(v@) == lo + ws_prefix_len(v@.skip(lo as int)),
        decreases v@.len() - lo,
    {
        assert(v@.skip(lo as int).drop_first() =~= v@.skip(lo + 1));
        lo += 1;
    }
    proof {
        if lo < v@.len() {
            assert(v@.skip(lo as int)[0] == v@[lo as int]);
        }
    }
    let ghost t = v@.skip(lo as int);
    let mut hi: usize = v.len();
    assert(t.take(hi - lo) =~= t);
    while hi > lo && is_whitespace_char(v[hi - 1])
        invariant
            lo <= hi <= v@.len(),
            t == v@.skip(lo as int),
            ws_suffix_len(t) == (v@.len() - hi) + ws_suffix_len(t.take(hi - lo)),
        decreases hi - lo,
    {
        assert(t.take(hi - lo).drop_last() =~= t.take(hi - 1 - lo));
        hi -= 1;
    }
    proof {
        if hi > lo {
            assert(t.take(hi - lo).last() == v@[hi - 1]);
        }
        assert(t.take(t.len() - ws_suffix_len(t)) =~= v@.subrange(lo as int, hi as int));
    }
    let mut r = String::new();
    push_chars(&mut r, v, lo, hi);
    r
}

/// Extract the title from rendered HTML: the text of its first heading of
/// the first level.
pub fn extract_title_from_content(html: &str) -> (r: Option<String>)
    ensures
        match r {
            Some(t) => spec_title(html@) == Some(t@),
            None => spec_title(html@) is None,
        },
{
    let v = chars_of(html);
    let open = chars_of("<h1");
    let gt = chars_of(">");
    let close = chars_of("</h1>");
    let n = v.len();
    proof {
        reveal_strlit(">");
    }
    match find_from(v.as_slice(), open.as_slice(), 0) {
        Some(start) => match find_from(v.as_slice(), gt.as_slice(), start) {
            Some(g) => {
                proof {
                    lemma_first_at_bounds(v@, gt@, start as int);
                }
                match find_from(v.as_slice(), close.as_slice(), g + 1) {
                    Some(end) => {
                        proof {
                            lemma_first_at_bounds(v@, close@, g + 1);
                        }
                        let inner = strip_angles_of(v.as_slice(), g + 1, end);
                        Some(trimmed(inner.as_slice()))
                    },
                    None => None,
                }
            },
            None => None,
        },
        None => None,
    }
}

/// What the word count reads of a character of HTML: a tag's `<` as a
/// space, its `>` as nothing.
pub open spec fn word_piece(c: char) -> Seq<char> {
    if c == '<' {
        seq![' ']
    } else if c == '>' {
        seq![]
    } else {
        seq![c]
    }
}

/// The text the word count reads of HTML.
pub open spec fn word_text(s: Seq<char>) -> Seq<char>
    decreases s.len(),
{
    if s.len() == 0 {
        seq![]
    } else {
        word_text(s.drop_last()) + word_piece(s.last())
    }
}

/// The number of words of `t`: maximal runs of non-whitespace, as
/// `str::split_whitespace` finds them.
pub open spec fn words(t: Seq<char>) -> nat
    decreases t.len(),
{
    if t.len() == 0 {
        0
    } else {
        words(t.drop_last()) + if !is_ws(t.last()) && (t.len() == 1 || is_ws(t[t.len() - 2])) {
            1nat
        } else {
            0nat
        }
    }
}

/// Count words in HTML content (approximate): tags split words and are not
/// counted.
pub fn count_words(html: &str) -> (n: usize)
    ensures
        n == words(word_text(html@)),
{
    let v = chars_of(html);
    let mut count: usize = 0;
    let mut prev_ws = true;
    let mut i: usize = 0;
    while i < v.len()
        invariant
            i <= v@.len(),
            count <= i,
            count == words(word_text(v@.take(i as int))),
            prev_ws == (word_text(v@.take(i as int)).len() == 0 || is_ws(
                word_text(v@.take(i as int)).last(),
            )),
        decreases v@.len() - i,
    {
        let ghost t = word_text(v@.take(i as int));
        let c = v[i];
        assert(v@.take(i + 1).drop_last() =~= v@.take(i as int));
        assert(v@.take(i + 1).last() == c);
        if c != '>' {
            let tc = if c == '<' {
                ' '
            } else {
                c
            };
            let ws = is_whitespace_char(tc);
            proof {
                let t2 = t.push(tc);
                assert(word_text(v@.take(i + 1)) =~= t2);
                assert(t2.drop_last() =~= t);
                if t.len() > 0 {
                    assert(t2[t2.len() - 2] == t.last());
                }
            }
            if !ws && prev_ws {
                count += 1;
            }
            prev_ws = ws;
        } else {
            assert(word_text(v@.take(i + 1)) =~= t);
        }
        i += 1;
    }
    assert(v@.take(i as int) =~= v@);
    count
}

// ---------------------------------------------------------------------------
// The handler
// ---------------------------------------------------------------------------

/// Markdown handler for serving rendered markdown content with live reload
pub struct MarkdownHandler {
    path_pattern: String,
    markdown_file: PathBuf,
    base_dir: PathBuf,
    template: String,
}

impl MarkdownHandler {
    pub closed spec fn pattern(&self) -> Seq<char> {
        self.path_pattern@
    }

    pub closed spec fn spec_template(&self) -> Seq<char> {
        self.template@
    }

    /// The file the page shows.
    pub closed spec fn file(&self) -> PathBuf {
        self.markdown_file
    }

    /// The directory relative links are resolved from.
    pub closed spec fn base(&self) -> PathBuf {
        self.base_dir
    }

    /// A handler serving `markdown_file` on `path_pattern`, resolving
    /// relative links from `base_dir`, with the page `template`.
    pub fn new(path_pattern: String, markdown_file: PathBuf, base_dir: PathBuf, template: String) -> (h:
        Self)
        ensures
            h.pattern() == path_pattern@,
            h.spec_template() == template@,
            h.file() == markdown_file,
            h.base() == base_dir,
    {
        Self { path_pattern, markdown_file, base_dir, template }
    }

    /// The route pattern the page is served on.
    pub fn path_pattern(&self) -> (p: &str)
        ensures
            p@ == self.pattern(),
    {
        self.path_pattern.as_str()
    }

    /// The file the page shows.
    pub fn markdown_file(&self) -> (f: &PathBuf)
        ensures
            *f == self.file(),
    {
        &self.markdown_file
    }

    /// Get the base directory for resolving relative paths
    pub fn base_dir(&self) -> (b: &PathBuf)
        ensures
            *b == self.base(),
    {
        &self.base_dir
    }

    /// The request method the handler answers.
    pub fn method(&self) -> (m: Method)
        ensures
            m == Method::Get,
    {
        Method::Get
    }

    /// Where this handler stands among the handlers of a route.
    pub fn priority(&self) -> (p: i32)
        ensures
            p == 10,
    {
        10
    }

    /// The page for markdown `content`: rendered with GFM and placed in the
    /// template.
    pub fn render_markdown_fallback(&self, content: &str) -> (r: String)
        ensures
            r@ == spec_page(self.spec_template(), markdown_html(content@, true)),
    {
        let html_body = to_html(content, true);
        page_from_template(self.template.as_str(), html_body.as_str())
    }

    /// The rendered content alone, without the page around it.
    pub fn extract_content_only(&self, content: &str) -> (r: String)
        ensures
            r@ == markdown_html(content@, true),
    {
        to_html(content, true)
    }
}

} // verus!
