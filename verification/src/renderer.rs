//! Content renderers: markdown to HTML with GitHub-flavoured extensions, and
//! the step after it that turns mermaid code blocks into diagram containers.
use vstd::prelude::*;

use crate::text::{
    chars_of, contains_seq, find_from, first_at, hex, lemma_first_at_bounds, owned, push_chars,
    push_hex, push_str, str_contains, str_eq, string_of,
};

verus! {

broadcast use vstd::string::group_string_axioms;

// ---------------------------------------------------------------------------
// The markdown crate
// ---------------------------------------------------------------------------

/// The HTML that the markdown crate renders for `content` with the GFM
/// constructs on, raw HTML passed through, and GFM's tag filter on exactly
/// when `tagfilter` holds.
pub uninterp spec fn markdown_html(content: Seq<char>, tagfilter: bool) -> Seq<char>;

/// Renders `content` with `markdown::to_html_with_options`: GFM parsing,
/// `allow_dangerous_html` on, and `gfm_tagfilter` set to `tagfilter`. The
/// crate documents that this call never fails while MDX is off, as it is
/// here; nothing more of the HTML is stated than its name.
#[verifier::external_body]
pub(crate) fn to_html(content: &str, tagfilter: bool) -> (r: String)
    ensures
        r@ == markdown_html(content@, tagfilter),
{
    let mut options = markdown::Options::gfm();
    options.compile.allow_dangerous_html = true;
    options.compile.gfm_tagfilter = tagfilter;
    markdown::to_html_with_options(content, &options).unwrap_or_default()
}

/// The text that `html_escape::decode_html_entities` gives for `s`.
pub uninterp spec fn decoded_entities(s: Seq<char>) -> Seq<char>;

/// Decodes the character references in `s` with
/// `html_escape::decode_html_entities`. Its source hands the text back
/// unchanged when no `&` occurs in it; that, and the name of the result, is
/// all this states.
#[verifier::external_body]
fn decode_entities(s: &str) -> (r: String)
    ensures
        r@ == decoded_entities(s@),
        !s@.contains('&') ==> r@ == s@,
{
    html_escape::decode_html_entities(s).into_owned()
}

/// The UTF-8 length of `s`, as `str::len` gives it, in lower-case
/// hexadecimal.
pub open spec fn length_hash(s: Seq<char>) -> Seq<char> {
    hex((vstd::utf8::encode_utf8(s).len() as usize) as nat)
}

/// `format!("{:x}", s.len())`: the byte length of `s` in hexadecimal.
fn length_hash_of(s: &str) -> (r: String)
    ensures
        r@ == length_hash(s@),
{
    let mut r = String::new();
    let n = s.len();
    push_hex(&mut r, n as u64);
    r
}

// ---------------------------------------------------------------------------
// Markdown renderer
// ---------------------------------------------------------------------------

/// What the markdown renderer gives for a document.
pub struct MarkdownRender {
    /// The rendered HTML
    pub html: String,
    /// The renderer's name
    pub renderer_name: String,
    /// The renderer's version
    pub renderer_version: String,
    /// The byte length of the source, in hexadecimal
    pub content_hash: String,
    /// Whether the HTML holds a table
    pub has_tables: bool,
    /// Whether the HTML holds a code block
    pub has_code_blocks: bool,
    /// Whether the HTML holds a mermaid code block
    pub has_mermaid_blocks: bool,
}

/// Markdown content renderer implementation
pub struct MarkdownRenderer {
    name: String,
    version: String,
}

impl MarkdownRenderer {
    pub closed spec fn spec_name(&self) -> Seq<char> {
        self.name@
    }

    pub closed spec fn spec_version(&self) -> Seq<char> {
        self.version@
    }

    /// Create a new markdown renderer
    pub fn new() -> (r: Self)
        ensures
            r.spec_name() == "markdown-renderer"@,
            r.spec_version() == "0.1.0"@,
    {
        Self { name: owned("markdown-renderer"), version: owned("0.1.0") }
    }

    /// The renderer's name.
    pub fn name(&self) -> (s: &str)
        ensures
            s@ == self.spec_name(),
    {
        self.name.as_str()
    }

    /// The renderer's version.
    pub fn version(&self) -> (s: &str)
        ensures
            s@ == self.spec_version(),
    {
        self.version.as_str()
    }

    /// Whether this renderer takes content of the given type.
    pub fn can_render(&self, content_type: &str) -> (b: bool)
        ensures
            b == (content_type@ == "text/markdown"@ || content_type@ == "text/x-markdown"@),
    {
        str_eq(content_type, "text/markdown") || str_eq(content_type, "text/x-markdown")
    }

    /// The file extensions this renderer takes.
    pub fn supported_extensions(&self) -> (v: Vec<&'static str>)
        ensures
            v@.len() == 2,
            v@[0]@ == "md"@,
            v@[1]@ == "markdown"@,
    {
        vec!["md", "markdown"]
    }

    /// Where this renderer stands in the pipeline: higher runs first.
    pub fn priority(&self) -> (p: u32)
        ensures
            p == 200,
    {
        200
    }

    /// The features this renderer advertises.
    pub fn features(&self) -> (v: Vec<&'static str>)
        ensures
            v@.len() == 4,
            v@[0]@ == "gfm"@,
            v@[1]@ == "tables"@,
            v@[2]@ == "code_blocks"@,
            v@[3]@ == "mermaid"@,
    {
        vec!["gfm", "tables", "code_blocks", "mermaid"]
    }

    /// Convert markdown content to HTML, and tell which features it used.
    pub fn markdown_to_html(&self, content: &str) -> (r: MarkdownRender)
        ensures
            r.html@ == markdown_html(content@, true),
            r.renderer_name@ == self.spec_name(),
            r.renderer_version@ == self.spec_version(),
            r.content_hash@ == length_hash(content@),
            r.has_tables == contains_seq(r.html@, "<table>"@),
            r.has_code_blocks == contains_seq(r.html@, "<pre><code"@),
            r.has_mermaid_blocks == contains_seq(r.html@, "class=\"language-mermaid\""@),
    {
        let html_body = to_html(content, true);
        let has_tables = str_contains(html_body.as_str(), "<table>");
        let has_code_blocks = str_contains(html_body.as_str(), "<pre><code");
        let has_mermaid_blocks = str_contains(html_body.as_str(), "class=\"language-mermaid\"");
        MarkdownRender {
            html: html_body,
            renderer_name: owned(self.name.as_str()),
            renderer_version: owned(self.version.as_str()),
            content_hash: length_hash_of(content),
            has_tables,
            has_code_blocks,
            has_mermaid_blocks,
        }
    }
}

// ---------------------------------------------------------------------------
// Mermaid renderer
// ---------------------------------------------------------------------------

/// The opening of a mermaid code block in rendered HTML.
pub open spec fn mermaid_open() -> Seq<char> {
    "<pre><code class=\"language-mermaid\">"@
}

/// The closing of a code block in rendered HTML.
pub open spec fn code_close() -> Seq<char> {
    "</code></pre>"@
}

/// The next mermaid block at or after `pos`: where it opens and where its
/// first closing starts.
pub open spec fn next_block(s: Seq<char>, pos: int) -> Option<(int, int)> {
    match first_at(s, mermaid_open(), pos) {
        Some(i) => match first_at(s, code_close(), i + mermaid_open().len()) {
            Some(j) => Some((i, j)),
            None => None,
        },
        None => None,
    }
}

/// `s[pos..]` with each mermaid code block, up to its first closing,
/// replaced by a mermaid container of its decoded code.
pub open spec fn mermaid_from(s: Seq<char>, pos: int) -> Seq<char>
    decreases s.len() - pos,
{
    match next_block(s, pos) {
        Some((i, j)) => if pos <= i && i + mermaid_open().len() <= j && j + code_close().len()
            <= s.len() && pos < j + code_close().len() {
            s.subrange(pos, i) + "<div class=\"mermaid\">"@ + decoded_entities(
                s.subrange(i + mermaid_open().len(), j),
            ) + "</div>"@ + mermaid_from(s, j + code_close().len())
        } else {
            s.subrange(pos, s.len() as int)
        },
        None => if 0 <= pos <= s.len() {
            s.subrange(pos, s.len() as int)
        } else {
            seq![]
        },
    }
}

/// The number of mermaid code blocks in `s[pos..]`.
pub open spec fn mermaid_count_from(s: Seq<char>, pos: int) -> nat
    decreases s.len() - pos,
{
    match next_block(s, pos) {
        Some((i, j)) => if pos <= i && i + mermaid_open().len() <= j && j + code_close().len()
            <= s.len() && pos < j + code_close().len() {
            mermaid_count_from(s, j + code_close().len()) + 1
        } else {
            0
        },
        None => 0,
    }
}

/// The bounds that `mermaid_from` tests hold of every block found.
proof fn lemma_next_block(s: Seq<char>, pos: int)
    requires
        0 <= pos,
    ensures
        next_block(s, pos) matches Some((i, j)) ==> pos <= i && i + mermaid_open().len() <= j
            && j + code_close().len() <= s.len() && pos < j + code_close().len(),
{
    reveal_strlit("</code></pre>");
    lemma_first_at_bounds(s, mermaid_open(), pos);
    if let Some(i) = first_at(s, mermaid_open(), pos) {
        lemma_first_at_bounds(s, code_close(), i + mermaid_open().len());
    }
}

/// HTML without a mermaid code block comes out of the mermaid renderer as
/// it went in, with no diagram counted.
pub proof fn lemma_no_mermaid_block_unchanged(s: Seq<char>)
    requires
        !contains_seq(s, mermaid_open()),
    ensures
        mermaid_from(s, 0) == s,
        mermaid_count_from(s, 0) == 0,
{
    lemma_first_at_bounds(s, mermaid_open(), 0);
    assert(first_at(s, mermaid_open(), 0) is None) by {
        if let Some(i) = first_at(s, mermaid_open(), 0) {
            assert(crate::text::occurs_at(s, mermaid_open(), i));
        }
    }
    assert(s.subrange(0, s.len() as int) =~= s);
}

/// A mermaid asset: the script the page loads to draw diagrams.
pub struct MermaidAsset {
    /// Where the script is served
    pub url: String,
    /// Whether the page needs it before showing
    pub is_critical: bool,
}

/// What the mermaid renderer gives for a page.
pub struct MermaidRender {
    /// The HTML with mermaid blocks turned into containers
    pub html: String,
    /// The renderer's name
    pub renderer_name: String,
    /// The renderer's version
    pub renderer_version: String,
    /// The byte length of the input, in hexadecimal
    pub content_hash: String,
    /// The number of diagrams found
    pub diagram_count: usize,
    /// Whether the page now holds interactive content
    pub interactive: bool,
    /// The assets the page needs
    pub assets: Vec<MermaidAsset>,
}

/// Mermaid diagram renderer implementation
pub struct MermaidRenderer {
    name: String,
    version: String,
}

impl MermaidRenderer {
    pub closed spec fn spec_name(&self) -> Seq<char> {
        self.name@
    }

    pub closed spec fn spec_version(&self) -> Seq<char> {
        self.version@
    }

    /// Create a new mermaid renderer
    pub fn new() -> (r: Self)
        ensures
            r.spec_name() == "mermaid-renderer"@,
            r.spec_version() == "0.1.0"@,
    {
        Self { name: owned("mermaid-renderer"), version: owned("0.1.0") }
    }

    /// The renderer's name.
    pub fn name(&self) -> (s: &str)
        ensures
            s@ == self.spec_name(),
    {
        self.name.as_str()
    }

    /// The renderer's version.
    pub fn version(&self) -> (s: &str)
        ensures
            s@ == self.spec_version(),
    {
        self.version.as_str()
    }

    /// Whether this renderer takes content of the given type: it works on
    /// rendered HTML.
    pub fn can_render(&self, content_type: &str) -> (b: bool)
        ensures
            b == (content_type@ == "text/html"@ || content_type@ == "application/html"@),
    {
        str_eq(content_type, "text/html") || str_eq(content_type, "application/html")
    }

    /// The file extensions this renderer takes.
    pub fn supported_extensions(&self) -> (v: Vec<&'static str>)
        ensures
            v@.len() == 2,
            v@[0]@ == "html"@,
            v@[1]@ == "htm"@,
    {
        vec!["html", "htm"]
    }

    /// Where this renderer stands in the pipeline: after markdown.
    pub fn priority(&self) -> (p: u32)
        ensures
            p == 150,
    {
        150
    }

    /// The features this renderer advertises.
    pub fn features(&self) -> (v: Vec<&'static str>)
        ensures
            v@.len() == 2,
            v@[0]@ == "mermaid_diagrams"@,
            v@[1]@ == "interactive_content"@,
    {
        vec!["mermaid_diagrams", "interactive_content"]
    }

    /// Turn each mermaid code block into a container Mermaid.js draws, with
    /// its code decoded; where there is one, the page needs the mermaid
    /// script and holds interactive content.
    pub fn process_mermaid(&self, content: &str) -> (r: MermaidRender)
        ensures
            r.html@ == mermaid_from(content@, 0),
            r.diagram_count == mermaid_count_from(content@, 0),
            r.renderer_name@ == self.spec_name(),
            r.renderer_version@ == self.spec_version(),
            r.content_hash@ == length_hash(content@),
            r.interactive == (r.diagram_count > 0),
            r.interactive ==> r.assets@.len() == 1 && r.assets@[0].url@ == "/mermaid.min.js"@
                && r.assets@[0].is_critical,
            !r.interactive ==> r.assets@.len() == 0,
    {
        let v = chars_of(content);
        let open = chars_of("<pre><code class=\"language-mermaid\">");
        let close = chars_of("</code></pre>");
        let mut out = String::new();
        let mut pos: usize = 0;
        let mut count: usize = 0;
        let n = v.len();
        loop
            invariant_except_break
                out@ + mermaid_from(v@, pos as int) == mermaid_from(v@, 0),
                count + mermaid_count_from(v@, pos as int) == mermaid_count_from(v@, 0),
            invariant
                v@ == content@,
                n == v@.len(),
                open@ == mermaid_open(),
                close@ == code_close(),
                pos <= v@.len(),
                count <= pos,
            ensures
                out@ == mermaid_from(v@, 0),
                count == mermaid_count_from(v@, 0),
            decreases v@.len() - pos,
        {
            proof {
                lemma_next_block(v@, pos as int);
                lemma_first_at_bounds(v@, open@, pos as int);
            }
            let found = match find_from(v.as_slice(), open.as_slice(), pos) {
                Some(i) => match find_from(v.as_slice(), close.as_slice(), i + open.len()) {
                    Some(j) => Some((i, j)),
                    None => None,
                },
                None => None,
            };
            match found {
                Some((i, j)) => {
                    assert(next_block(v@, pos as int) == Some((i as int, j as int)));
                    push_chars(&mut out, v.as_slice(), pos, i);
                    push_str(&mut out, "<div class=\"mermaid\">");
                    let code = string_of(v.as_slice(), i + open.len(), j);
                    let decoded = decode_entities(code.as_str());
                    push_str(&mut out, decoded.as_str());
                    push_str(&mut out, "</div>");
                    count = count + 1;
                    pos = j + close.len();
                },
                None => {
                    assert(next_block(v@, pos as int) is None);
                    push_chars(&mut out, v.as_slice(), pos, v.len());
                    break ;
                },
            }
        }
        let interactive = count > 0;
        let mut assets: Vec<MermaidAsset> = Vec::new();
        if interactive {
            assets.push(MermaidAsset { url: owned("/mermaid.min.js"), is_critical: true });
        }
        MermaidRender {
            html: out,
            renderer_name: owned(self.name.as_str()),
            renderer_version: owned(self.version.as_str()),
            content_hash: length_hash_of(content),
            diagram_count: count,
            interactive,
            assets,
        }
    }
}

} // verus!
