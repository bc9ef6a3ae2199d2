//! Serving the Mermaid.js library: the script with its version tag, or a
//! bare "not modified" answer to a client that already holds that version.
use vstd::prelude::*;

use crate::markdown_page::{trim, trimmed};
use crate::routing::Method;
use crate::server::HttpResponse;
use crate::text::{chars_of, str_eq};

verus! {

broadcast use vstd::string::group_string_axioms;

/// Index of the first `,` in `s`, or `s.len()` if there is none.
pub open spec fn comma_index(s: Seq<char>) -> nat
    decreases s.len(),
{
    if s.len() == 0 {
        0
    } else if s[0] == ',' {
        0
    } else {
        1 + comma_index(s.drop_first())
    }
}

/// Whether one of the comma-separated entries of the `If-None-Match`
/// value `s`, trimmed, is `etag`.
pub open spec fn etag_listed(s: Seq<char>, etag: Seq<char>) -> bool
    decreases s.len(),
{
    let k = comma_index(s);
    if k >= s.len() {
        trim(s) == etag
    } else {
        trim(s.take(k as int)) == etag || etag_listed(s.skip(k as int + 1), etag)
    }
}

proof fn lemma_comma_index(s: Seq<char>)
    ensures
        comma_index(s) <= s.len(),
        comma_index(s) < s.len() ==> s[comma_index(s) as int] == ',',
    decreases s.len(),
{
    if s.len() > 0 && s[0] != ',' {
        lemma_comma_index(s.drop_first());
    }
}

/// `comma_index` of `v[lo..]`, found by scanning.
fn find_comma(v: &[char], lo: usize) -> (k: usize)
    requires
        lo <= v@.len(),
    ensures
        lo <= k <= v@.len(),
        (k - lo) as nat == comma_index(v@.skip(lo as int)),
{
    let mut i = lo;
    while i < v.len() && v[i] != ','
        invariant
            lo <= i <= v@.len(),
            comma_index(v@.skip(lo as int)) == (i - lo) + comma_index(v@.skip(i as int)),
        decreases v@.len() - i,
    {
        assert(v@.skip(i as int).drop_first() =~= v@.skip(i + 1));
        i += 1;
    }
    i
}

/// What a request for the script is answered with: "not modified" with the
/// version tag when the client's `If-None-Match` lists it, else the script.
pub open spec fn mermaid_response(
    if_none_match: Option<Seq<char>>,
    etag: Seq<char>,
    script: Seq<char>,
) -> crate::server::ResponseView {
    if if_none_match matches Some(h) && etag_listed(h, etag) {
        crate::server::ResponseView {
            status: 304,
            headers: seq![("etag"@, etag), ("cache-control"@, "public, no-cache"@)],
            body: seq![],
        }
    } else {
        crate::server::ResponseView {
            status: 200,
            headers: seq![
                ("content-type"@, "application/javascript"@),
                ("etag"@, etag),
                ("cache-control"@, "public, no-cache"@),
            ],
            body: vstd::utf8::encode_utf8(script),
        }
    }
}

/// Mermaid.js handler: the script and its version tag are handed in.
pub struct MermaidHandler {
    path_pattern: String,
    mermaid_js: String,
    etag: String,
}

impl MermaidHandler {
    pub closed spec fn pattern(&self) -> Seq<char> {
        self.path_pattern@
    }

    pub closed spec fn script(&self) -> Seq<char> {
        self.mermaid_js@
    }

    pub closed spec fn tag(&self) -> Seq<char> {
        self.etag@
    }

    /// A handler serving `mermaid_js` on `path_pattern` under the version
    /// tag `etag` (a quoted version, such as `"0.1.0"`).
    pub fn new(path_pattern: String, mermaid_js: String, etag: String) -> (h: Self)
        ensures
            h.pattern() == path_pattern@,
            h.script() == mermaid_js@,
            h.tag() == etag@,
    {
        Self { path_pattern, mermaid_js, etag }
    }

    /// The path the script is served on.
    pub fn path_pattern(&self) -> (p: &str)
        ensures
            p@ == self.pattern(),
    {
        self.path_pattern.as_str()
    }

    /// The request method the handler answers.
    pub fn method(&self) -> (m: Method)
        ensures
            m == Method::Get,
    {
        Method::Get
    }

    /// Where this handler stands among the handlers of a route: before the
    /// general ones.
    pub fn priority(&self) -> (p: i32)
        ensures
            p == 5,
    {
        5
    }

    /// Whether the `If-None-Match` value lists the current version.
    pub fn is_etag_match(&self, if_none_match: &str) -> (b: bool)
        ensures
            b == etag_listed(if_none_match@, self.tag()),
    {
        let v = chars_of(if_none_match);
        let mut lo: usize = 0;
        assert(v@.skip(0) =~= v@);
        while lo <= v.len()
            invariant
                v@ == if_none_match@,
                lo <= v@.len() + 1,
                lo <= v@.len() ==> etag_listed(v@, self.tag()) == etag_listed(
                    v@.skip(lo as int),
                    self.tag(),
                ),
                lo > v@.len() ==> !etag_listed(v@, self.tag()),
            decreases v@.len() + 1 - lo,
        {
            let k = find_comma(v.as_slice(), lo);
            let ghost rest = v@.skip(lo as int);
            proof {
                lemma_comma_index(rest);
                assert(rest.take((k - lo) as int) =~= v@.subrange(lo as int, k as int));
                if k >= v.len() {
                    assert(rest =~= v@.subrange(lo as int, k as int));
                    assert(etag_listed(rest, self.tag()) == (trim(rest) == self.tag()));
                } else {
                    assert(rest.skip((k - lo) + 1) =~= v@.skip(k + 1));
                    assert(etag_listed(rest, self.tag()) == (trim(rest.take((k - lo) as int))
                        == self.tag() || etag_listed(v@.skip(k + 1), self.tag())));
                }
            }
            let piece = chars_range_of(&v, lo, k);
            let t = trimmed(piece.as_slice());
            if str_eq(t.as_str(), self.etag.as_str()) {
                return true;
            }
            if k >= v.len() {
                return false;
            }
            lo = k + 1;
        }
        false
    }

    /// Answer a request for the script, given its `If-None-Match` header.
    pub fn handle(&self, if_none_match: Option<&str>) -> (r: HttpResponse)
        ensures
            r@ == mermaid_response(
                match if_none_match {
                    Some(h) => Some(h@),
                    None => None,
                },
                self.tag(),
                self.script(),
            ),
    {
        let matched = match if_none_match {
            Some(h) => self.is_etag_match(h),
            None => false,
        };
        if matched {
            let r = HttpResponse::new(304).with_header("etag", self.etag.as_str()).with_header(
                "cache-control",
                "public, no-cache",
            );
            assert(r@.headers =~= seq![("etag"@, self.tag()), ("cache-control"@, "public, no-cache"@)]);
            r
        } else {
            let r = HttpResponse::new(200).with_header("content-type", "application/javascript").with_header(
                "etag",
                self.etag.as_str(),
            ).with_header("cache-control", "public, no-cache").with_body(
                self.mermaid_js.as_str().as_bytes_vec(),
            );
            assert(r@.headers =~= seq![
                ("content-type"@, "application/javascript"@),
                ("etag"@, self.tag()),
                ("cache-control"@, "public, no-cache"@),
            ]);
            r
        }
    }
}

/// The characters `v[lo..hi]`.
fn chars_range_of(v: &Vec<char>, lo: usize, hi: usize) -> (r: Vec<char>)
    requires
        lo <= hi <= v@.len(),
    ensures
        r@ == v@.subrange(lo as int, hi as int),
{
    crate::text::chars_range(v.as_slice(), lo, hi)
}

} // verus!
