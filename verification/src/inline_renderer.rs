//! Inline renderer for converting markdown syntax to HTML with cursor-aware
//! editing.
use vstd::prelude::*;

use crate::editor_state::CursorPosition;
use crate::syntax_parser::{
    clone_opt_string, opt_string_view, sort_elements, sort_by_start, views, ElementKind, ElementView,
    SyntaxElement, SyntaxElementType,
};
use crate::text::{
    byte_len, byte_offsets, byte_slice, byte_tail, chars_eq, chars_of, decimal, escape, html_escape,
    is_char_boundary_at, join, key_index, lemma_key_index_at, matches_at, occurs_at, offsets_of,
    owned, push_decimal, push_escaped, push_escaped_bytes, push_escaped_tail, push_str, with_entry,
};

verus! {

broadcast use vstd::string::group_string_axioms;

/// Rendered HTML element with metadata for editing
#[derive(Debug, PartialEq, Eq)]
pub struct RenderedElement {
    /// HTML content of the element
    pub html: String,
    /// CSS classes applied to the element
    pub css_classes: Vec<String>,
    /// Data attributes for the element, each key once, in insertion order
    pub data_attributes: Vec<(String, String)>,
    /// Whether this element is currently being edited
    pub is_editing: bool,
    /// Raw markdown content for editing mode
    pub raw_content: String,
    /// Position range in the original document
    pub position_range: (usize, usize),
}

/// What a `RenderedElement` says.
#[verifier::ext_equal]
pub struct RenderedView {
    pub html: Seq<char>,
    pub classes: Seq<Seq<char>>,
    pub attrs: Seq<(Seq<char>, Seq<char>)>,
    pub editing: bool,
    pub raw: Seq<char>,
    pub range: (usize, usize),
}

pub open spec fn strings_view(s: Seq<String>) -> Seq<Seq<char>> {
    s.map_values(|x: String| x@)
}

pub open spec fn pairs_view(s: Seq<(String, String)>) -> Seq<(Seq<char>, Seq<char>)> {
    s.map_values(|p: (String, String)| (p.0@, p.1@))
}

impl View for RenderedElement {
    type V = RenderedView;

    open spec fn view(&self) -> RenderedView {
        RenderedView {
            html: self.html@,
            classes: strings_view(self.css_classes@),
            attrs: pairs_view(self.data_attributes@),
            editing: self.is_editing,
            raw: self.raw_content@,
            range: self.position_range,
        }
    }
}

pub fn clone_strings(v: &Vec<String>) -> (r: Vec<String>)
    ensures
        strings_view(r@) == strings_view(v@),
{
    let mut r: Vec<String> = Vec::new();
    let mut i: usize = 0;
    while i < v.len()
        invariant
            i <= v@.len(),
            r@.len() == i,
            strings_view(r@) == strings_view(v@.take(i as int)),
        decreases v@.len() - i,
    {
        let ghost old_r = r@;
        r.push(v[i].clone());
        proof {
            assert forall|j: int| 0 <= j < i + 1 implies #[trigger] strings_view(r@)[j] == strings_view(
                v@.take(i + 1),
            )[j] by {
                if j < i {
                    assert(strings_view(old_r)[j] == strings_view(v@.take(i as int))[j]);
                    assert(r@[j] == old_r[j]);
                    assert(v@.take(i as int)[j] == v@[j]);
                }
                assert(v@.take(i + 1)[j] == v@[j]);
                assert(r@[j]@ == v@[j]@);
            }
            assert(strings_view(r@) =~= strings_view(v@.take(i + 1)));
        }
        i += 1;
    }
    proof {
        assert(v@.take(v@.len() as int) =~= v@);
    }
    r
}

pub fn clone_pairs(v: &Vec<(String, String)>) -> (r: Vec<(String, String)>)
    ensures
        pairs_view(r@) == pairs_view(v@),
{
    let mut r: Vec<(String, String)> = Vec::new();
    let mut i: usize = 0;
    while i < v.len()
        invariant
            i <= v@.len(),
            r@.len() == i,
            pairs_view(r@) == pairs_view(v@.take(i as int)),
        decreases v@.len() - i,
    {
        let ghost old_r = r@;
        r.push((v[i].0.clone(), v[i].1.clone()));
        proof {
            assert forall|j: int| 0 <= j < i + 1 implies #[trigger] pairs_view(r@)[j] == pairs_view(
                v@.take(i + 1),
            )[j] by {
                if j < i {
                    assert(pairs_view(old_r)[j] == pairs_view(v@.take(i as int))[j]);
                    assert(r@[j] == old_r[j]);
                    assert(v@.take(i as int)[j] == v@[j]);
                }
                assert(v@.take(i + 1)[j] == v@[j]);
                assert((r@[j].0@, r@[j].1@) == (v@[j].0@, v@[j].1@));
            }
            assert(pairs_view(r@) =~= pairs_view(v@.take(i + 1)));
        }
        i += 1;
    }
    proof {
        assert(v@.take(v@.len() as int) =~= v@);
    }
    r
}

impl Clone for RenderedElement {
    fn clone(&self) -> (r: Self)
        ensures
            r@ == self@,
    {
        RenderedElement {
            html: self.html.clone(),
            css_classes: clone_strings(&self.css_classes),
            data_attributes: clone_pairs(&self.data_attributes),
            is_editing: self.is_editing,
            raw_content: self.raw_content.clone(),
            position_range: self.position_range,
        }
    }
}

/// Adds `c` unless it is there already.
pub open spec fn with_class(cs: Seq<Seq<char>>, c: Seq<char>) -> Seq<Seq<char>> {
    if cs.contains(c) {
        cs
    } else {
        cs.push(c)
    }
}

/// `cs` without any `c`.
pub open spec fn without_class(cs: Seq<Seq<char>>, c: Seq<char>) -> Seq<Seq<char>>
    decreases cs.len(),
{
    if cs.len() == 0 {
        cs
    } else if cs.last() == c {
        without_class(cs.drop_last(), c)
    } else {
        without_class(cs.drop_last(), c).push(cs.last())
    }
}

/// The classes after `set_editing`.
pub open spec fn editing_classes(cs: Seq<Seq<char>>, editing: bool) -> Seq<Seq<char>> {
    if editing {
        with_class(cs, "editing"@)
    } else {
        without_class(cs, "editing"@)
    }
}

/// The ` data-k="v"` attributes, in order.
pub open spec fn data_attrs(a: Seq<(Seq<char>, Seq<char>)>) -> Seq<char>
    decreases a.len(),
{
    if a.len() == 0 {
        seq![]
    } else {
        data_attrs(a.drop_last()) + " data-"@ + a.last().0 + "=\""@ + a.last().1 + "\""@
    }
}

/// The ` class="..."` attribute, if there are classes.
pub open spec fn class_attr(cs: Seq<Seq<char>>) -> Seq<char> {
    if cs.len() == 0 {
        seq![]
    } else {
        " class=\""@ + join(cs, " "@) + "\""@
    }
}

/// The header tag for the level digit `d`; `h1` when `d` is no level.
pub open spec fn header_tag(d: char) -> Seq<char> {
    if d == '2' {
        "h2"@
    } else if d == '3' {
        "h3"@
    } else if d == '4' {
        "h4"@
    } else if d == '5' {
        "h5"@
    } else if d == '6' {
        "h6"@
    } else {
        "h1"@
    }
}

/// The tag name that the HTML of an element starts with: for a header,
/// the level that follows `<h` (`h1` when none does).
pub open spec fn tag_name(html: Seq<char>) -> Seq<char> {
    if occurs_at(html, "<h"@, 0) {
        if html.len() > 2 {
            header_tag(html[2])
        } else {
            "h1"@
        }
    } else if occurs_at(html, "<strong>"@, 0) {
        "strong"@
    } else if occurs_at(html, "<em>"@, 0) {
        "em"@
    } else if occurs_at(html, "<code>"@, 0) {
        "code"@
    } else if occurs_at(html, "<a "@, 0) {
        "a"@
    } else if occurs_at(html, "<li>"@, 0) {
        "li"@
    } else {
        "span"@
    }
}

/// The complete HTML of an element.
pub open spec fn spec_to_html(r: RenderedView) -> Seq<char> {
    let tag = tag_name(r.html);
    let open = "<"@ + tag + class_attr(r.classes) + data_attrs(r.attrs);
    if r.editing {
        open + " contenteditable=\"true\">"@ + escape(r.raw) + "</"@ + tag + ">"@
    } else {
        open + ">"@ + r.html + "</"@ + tag + ">"@
    }
}

/// Whether `v` holds `c`.
fn contains_string(v: &Vec<String>, c: &str) -> (b: bool)
    ensures
        b == strings_view(v@).contains(c@),
{
    let cv = chars_of(c);
    let mut i: usize = 0;
    while i < v.len()
        invariant
            i <= v@.len(),
            cv@ == c@,
            forall|j: int| 0 <= j < i ==> strings_view(v@)[j] != c@,
        decreases v@.len() - i,
    {
        let x = chars_of(v[i].as_str());
        if chars_eq(x.as_slice(), cv.as_slice()) {
            proof {
                assert(strings_view(v@)[i as int] == c@);
            }
            return true;
        }
        i += 1;
    }
    false
}

impl RenderedElement {
    /// Create a new rendered element
    pub fn new(
        html: String,
        css_classes: Vec<String>,
        raw_content: String,
        position_range: (usize, usize),
    ) -> (r: Self)
        ensures
            r@ == (RenderedView {
                html: html@,
                classes: strings_view(css_classes@),
                attrs: seq![],
                editing: false,
                raw: raw_content@,
                range: position_range,
            }),
    {
        let r = Self {
            html,
            css_classes,
            data_attributes: Vec::new(),
            is_editing: false,
            raw_content,
            position_range,
        };
        assert(pairs_view(r.data_attributes@) =~= Seq::<(Seq<char>, Seq<char>)>::empty());
        r
    }

    /// Add a CSS class to the element
    pub fn add_class(&mut self, class: &str)
        ensures
            final(self)@ == (RenderedView {
                classes: with_class(old(self)@.classes, class@),
                ..old(self)@
            }),
    {
        if !contains_string(&self.css_classes, class) {
            let c = owned(class);
            self.css_classes.push(c);
            assert(strings_view(self.css_classes@) =~= strings_view(old(self).css_classes@).push(
                class@,
            ));
        }
    }

    /// Add a data attribute to the element
    pub fn add_data_attribute(&mut self, key: &str, value: &str)
        ensures
            final(self)@ == (RenderedView {
                attrs: with_entry(old(self)@.attrs, key@, value@),
                ..old(self)@
            }),
    {
        let kv = chars_of(key);
        let mut i: usize = 0;
        let ghost a = pairs_view(self.data_attributes@);
        while i < self.data_attributes.len()
            invariant
                i <= self.data_attributes@.len(),
                a == pairs_view(self.data_attributes@),
                *self == *old(self),
                kv@ == key@,
                key_index(a.take(i as int), key@) is None,
            decreases self.data_attributes@.len() - i,
        {
            proof {
                assert(a.take(i + 1).drop_last() =~= a.take(i as int));
            }
            let k = chars_of(self.data_attributes[i].0.as_str());
            if chars_eq(k.as_slice(), kv.as_slice()) {
                proof {
                    lemma_key_index_at(a, key@, i as int);
                }
                let ghost before = self.data_attributes@;
                self.data_attributes.set(i, (owned(key), owned(value)));
                proof {
                    assert(pairs_view(self.data_attributes@) =~= a.update(
                        i as int,
                        (key@, value@),
                    ));
                }
                return;
            }
            i += 1;
        }
        proof {
            assert(a.take(i as int) =~= a);
        }
        self.data_attributes.push((owned(key), owned(value)));
        assert(pairs_view(self.data_attributes@) =~= a.push((key@, value@)));
    }

    /// Set editing state
    pub fn set_editing(&mut self, editing: bool)
        ensures
            final(self)@ == (RenderedView {
                editing,
                classes: editing_classes(old(self)@.classes, editing),
                ..old(self)@
            }),
    {
        self.is_editing = editing;
        if editing {
            self.add_class("editing");
        } else {
            let ev = chars_of("editing");
            let mut kept: Vec<String> = Vec::new();
            let mut i: usize = 0;
            let ghost cs = strings_view(self.css_classes@);
            while i < self.css_classes.len()
                invariant
                    i <= self.css_classes@.len(),
                    cs == strings_view(self.css_classes@),
                    ev@ == "editing"@,
                    strings_view(kept@) == without_class(cs.take(i as int), "editing"@),
                decreases self.css_classes@.len() - i,
            {
                proof {
                    assert(cs.take(i + 1).drop_last() =~= cs.take(i as int));
                    assert(cs.take(i + 1).last() == cs[i as int]);
                }
                let c = chars_of(self.css_classes[i].as_str());
                if !chars_eq(c.as_slice(), ev.as_slice()) {
                    kept.push(self.css_classes[i].clone());
                    proof {
                        assert(strings_view(kept@) =~= without_class(cs.take(i as int), "editing"@).push(
                            cs[i as int],
                        ));
                    }
                }
                i += 1;
            }
            proof {
                assert(cs.take(i as int) =~= cs);
            }
            self.css_classes = kept;
        }
    }

    /// Generate complete HTML with attributes
    pub fn to_html(&self) -> (h: String)
        ensures
            h@ == spec_to_html(self@),
    {
        let tag = self.extract_tag_name();
        let mut classes = String::new();
        if self.css_classes.len() > 0 {
            push_str(&mut classes, " class=\"");
            push_join(&mut classes, &self.css_classes, " ");
            push_str(&mut classes, "\"");
        }
        let mut data_attrs_s = String::new();
        push_data_attrs(&mut data_attrs_s, &self.data_attributes);
        let mut r = String::new();
        push_str(&mut r, "<");
        push_str(&mut r, tag);
        push_str(&mut r, classes.as_str());
        push_str(&mut r, data_attrs_s.as_str());
        if self.is_editing {
            push_str(&mut r, " contenteditable=\"true\">");
            let raw = html_escape(self.raw_content.as_str());
            push_str(&mut r, raw.as_str());
        } else {
            push_str(&mut r, ">");
            push_str(&mut r, self.html.as_str());
        }
        push_str(&mut r, "</");
        push_str(&mut r, tag);
        push_str(&mut r, ">");
        proof {
            if self.css_classes@.len() > 0 {
                assert(classes@ =~= class_attr(self@.classes));
            } else {
                assert(classes@ =~= class_attr(self@.classes));
            }
        }
        assert(r@ =~= spec_to_html(self@));
        r
    }

    /// Extract tag name from HTML content
    pub fn extract_tag_name(&self) -> (t: &'static str)
        ensures
            t@ == tag_name(self.html@),
    {
        let h = chars_of(self.html.as_str());
        if matches_at(h.as_slice(), 0, chars_of("<h").as_slice()) {
            if h.len() > 2 {
                let d = h[2];
                if d == '2' {
                    "h2"
                } else if d == '3' {
                    "h3"
                } else if d == '4' {
                    "h4"
                } else if d == '5' {
                    "h5"
                } else if d == '6' {
                    "h6"
                } else {
                    "h1"
                }
            } else {
                "h1"
            }
        } else if matches_at(h.as_slice(), 0, chars_of("<strong>").as_slice()) {
            "strong"
        } else if matches_at(h.as_slice(), 0, chars_of("<em>").as_slice()) {
            "em"
        } else if matches_at(h.as_slice(), 0, chars_of("<code>").as_slice()) {
            "code"
        } else if matches_at(h.as_slice(), 0, chars_of("<a ").as_slice()) {
            "a"
        } else if matches_at(h.as_slice(), 0, chars_of("<li>").as_slice()) {
            "li"
        } else {
            "span"
        }
    }
}

/// Appends `cs` joined by `sep`.
fn push_join(s: &mut String, cs: &Vec<String>, sep: &str)
    ensures
        final(s)@ == old(s)@ + join(strings_view(cs@), sep@),
{
    let ghost v = strings_view(cs@);
    let mut i: usize = 0;
    assert(join(v.take(0), sep@) =~= Seq::<char>::empty());
    while i < cs.len()
        invariant
            i <= cs@.len(),
            v == strings_view(cs@),
            s@ == old(s)@ + join(v.take(i as int), sep@),
        decreases cs@.len() - i,
    {
        proof {
            assert(v.take(i + 1).drop_last() =~= v.take(i as int));
            assert(v.take(i + 1).last() == v[i as int]);
        }
        if i > 0 {
            push_str(s, sep);
        }
        push_str(s, cs[i].as_str());
        proof {
            if i == 0 {
                assert(v.take(1)[0] == v[0]);
            }
            assert(s@ =~= old(s)@ + join(v.take(i + 1), sep@));
        }
        i += 1;
    }
    proof {
        assert(v.take(i as int) =~= v);
    }
}

/// Appends the ` data-k="v"` attributes.
fn push_data_attrs(s: &mut String, a: &Vec<(String, String)>)
    ensures
        final(s)@ == old(s)@ + data_attrs(pairs_view(a@)),
{
    let ghost v = pairs_view(a@);
    let mut i: usize = 0;
    assert(data_attrs(v.take(0)) =~= Seq::<char>::empty());
    while i < a.len()
        invariant
            i <= a@.len(),
            v == pairs_view(a@),
            s@ == old(s)@ + data_attrs(v.take(i as int)),
        decreases a@.len() - i,
    {
        proof {
            assert(v.take(i + 1).drop_last() =~= v.take(i as int));
            assert(v.take(i + 1).last() == v[i as int]);
        }
        push_str(s, " data-");
        push_str(s, a[i].0.as_str());
        push_str(s, "=\"");
        push_str(s, a[i].1.as_str());
        push_str(s, "\"");
        proof {
            assert(s@ =~= old(s)@ + data_attrs(v.take(i + 1)));
        }
        i += 1;
    }
    proof {
        assert(v.take(i as int) =~= v);
    }
}

// ---------------------------------------------------------------------------
// Rendering syntax elements
// ---------------------------------------------------------------------------

/// `prefix-base`.
pub open spec fn css(prefix: Seq<char>, base: Seq<char>) -> Seq<char> {
    prefix + "-"@ + base
}

/// `<tag>escaped content</tag>`.
pub open spec fn wrap_tag(tag: Seq<char>, content: Seq<char>) -> Seq<char> {
    "<"@ + tag + ">"@ + escape(content) + "</"@ + tag + ">"@
}

/// The rendering of a list item.
pub open spec fn list_item_view(
    e: ElementView,
    p: Seq<char>,
    level: u8,
    item_type: Seq<char>,
    number: Option<u32>,
) -> RenderedView {
    let base = seq![css(p, "list-item"@), css(p, "list-item-"@ + item_type)];
    let classes = if level > 0 {
        base.push(css(p, "level-"@ + decimal(level as nat)))
    } else {
        base
    };
    let attrs = with_entry(with_entry(seq![], "level"@, decimal(level as nat)), "type"@, item_type);
    RenderedView {
        html: wrap_tag("li"@, e.rendered),
        classes,
        attrs: match number {
            Some(n) => with_entry(attrs, "number"@, decimal(n as nat)),
            None => attrs,
        },
        editing: false,
        raw: e.raw,
        range: (e.start as usize, e.end as usize),
    }
}

/// How an element renders with class prefix `p`.
pub open spec fn spec_render_element(e: ElementView, p: Seq<char>) -> RenderedView {
    let plain = RenderedView {
        html: seq![],
        classes: seq![],
        attrs: seq![],
        editing: false,
        raw: e.raw,
        range: (e.start as usize, e.end as usize),
    };
    match e.kind {
        ElementKind::Header { level } => RenderedView {
            html: wrap_tag("h"@ + decimal(level as nat), e.rendered),
            classes: seq![css(p, "header"@), css(p, "header-"@ + decimal(level as nat))],
            attrs: with_entry(seq![], "level"@, decimal(level as nat)),
            ..plain
        },
        ElementKind::Bold => RenderedView {
            html: wrap_tag("strong"@, e.rendered),
            classes: seq![css(p, "bold"@)],
            ..plain
        },
        ElementKind::Italic => RenderedView {
            html: wrap_tag("em"@, e.rendered),
            classes: seq![css(p, "italic"@)],
            ..plain
        },
        ElementKind::InlineCode => RenderedView {
            html: wrap_tag("code"@, e.rendered),
            classes: seq![css(p, "code"@), css(p, "inline-code"@)],
            ..plain
        },
        ElementKind::CodeBlock { language } => RenderedView {
            html: "<pre><code class=\""@ + css(p, "code-block"@) + match language {
                Some(l) => " language-"@ + l,
                None => seq![],
            } + "\">"@ + escape(e.rendered) + "</code></pre>"@,
            classes: match language {
                Some(l) => seq![css(p, "code-block"@), "language-"@ + l],
                None => seq![css(p, "code-block"@)],
            },
            attrs: match language {
                Some(l) => with_entry(seq![], "language"@, l),
                None => seq![],
            },
            ..plain
        },
        ElementKind::Link { url, title } => RenderedView {
            html: "<a href=\""@ + escape(url) + "\""@ + match title {
                Some(t) => " title=\""@ + escape(t) + "\""@,
                None => seq![],
            } + ">"@ + escape(e.rendered) + "</a>"@,
            classes: seq![css(p, "link"@)],
            attrs: match title {
                Some(t) => with_entry(with_entry(seq![], "url"@, url), "title"@, t),
                None => with_entry(seq![], "url"@, url),
            },
            ..plain
        },
        ElementKind::UnorderedListItem { level } => list_item_view(
            e,
            p,
            level,
            "unordered"@,
            None,
        ),
        ElementKind::OrderedListItem { level, number } => list_item_view(
            e,
            p,
            level,
            "ordered"@,
            Some(number),
        ),
    }
}

/// Every element shows its rendered text, escaped, between its tags, never
/// its raw markdown: a list item's HTML is `<li>`, the escaped rendered
/// text (without the `- ` or `1. ` marker), and `</li>`; and the HTML of
/// any element does not change with its raw text.
pub proof fn lemma_rendered_text_not_raw(e: ElementView, p: Seq<char>, other_raw: Seq<char>)
    ensures
        (e.kind is UnorderedListItem || e.kind is OrderedListItem) ==> spec_render_element(e, p).html
            == "<li>"@ + escape(e.rendered) + "</li>"@,
        e.kind is Bold ==> spec_render_element(e, p).html == "<strong>"@ + escape(e.rendered)
            + "</strong>"@,
        e.kind is Italic ==> spec_render_element(e, p).html == "<em>"@ + escape(e.rendered) + "</em>"@,
        spec_render_element(ElementView { raw: other_raw, ..e }, p).html == spec_render_element(
            e,
            p,
        ).html,
        spec_render_element(e, p).raw == e.raw,
{
    reveal_strlit("<");
    reveal_strlit(">");
    reveal_strlit("</");
    reveal_strlit("li");
    reveal_strlit("<li>");
    reveal_strlit("</li>");
    reveal_strlit("strong");
    reveal_strlit("<strong>");
    reveal_strlit("</strong>");
    reveal_strlit("em");
    reveal_strlit("<em>");
    reveal_strlit("</em>");
    let r = escape(e.rendered);
    assert("<"@ + "li"@ + ">"@ + r + "</"@ + "li"@ + ">"@ =~= "<li>"@ + r + "</li>"@);
    assert("<"@ + "strong"@ + ">"@ + r + "</"@ + "strong"@ + ">"@ =~= "<strong>"@ + r
        + "</strong>"@);
    assert("<"@ + "em"@ + ">"@ + r + "</"@ + "em"@ + ">"@ =~= "<em>"@ + r + "</em>"@);
}

/// The rendering of an element in editing state.
pub open spec fn as_editing(r: RenderedView) -> RenderedView {
    RenderedView { editing: true, classes: editing_classes(r.classes, true), ..r }
}

/// How an element renders when the cursor may be on it.
pub open spec fn spec_render_with_cursor(e: ElementView, p: Seq<char>, cursor: int) -> RenderedView {
    let r = spec_render_element(e, p);
    if e.start <= cursor < e.end {
        let ed = as_editing(r);
        RenderedView { classes: with_class(ed.classes, "cursor-active"@), ..ed }
    } else {
        r
    }
}

/// How an element renders inside a document.
pub open spec fn doc_render(e: ElementView, p: Seq<char>, cursor: int) -> RenderedView {
    let r = spec_render_element(e, p);
    if e.start <= cursor < e.end {
        as_editing(r)
    } else {
        r
    }
}

/// The document from position `last` on, with elements `es` to place.
pub open spec fn doc_from(
    c: Seq<char>,
    es: Seq<ElementView>,
    p: Seq<char>,
    cursor: int,
    last: int,
) -> Seq<char>
    decreases es.len(),
{
    if es.len() == 0 {
        if last < byte_len(c) {
            escape(byte_tail(c, last))
        } else {
            seq![]
        }
    } else {
        doc_piece(c, es[0], p, cursor, last) + doc_from(c, es.drop_first(), p, cursor, es[0].end as int)
    }
}

/// The text before an element, then the element.
#[verifier::opaque]
pub open spec fn doc_piece(c: Seq<char>, e: ElementView, p: Seq<char>, cursor: int, last: int) -> Seq<
    char,
> {
    (if e.start > last {
        escape(byte_slice(c, last, e.start as int))
    } else {
        seq![]
    }) + spec_to_html(doc_render(e, p, cursor))
}

/// The document `c` is cut, from `last` on with the elements `es` to
/// place, only between characters: before each element that starts after
/// `last`, and after the last element when text remains (byte offsets, as
/// `&str` slicing takes them).
pub open spec fn doc_ok(c: Seq<char>, es: Seq<ElementView>, last: int) -> bool
    decreases es.len(),
{
    if es.len() == 0 {
        last < byte_len(c) ==> is_char_boundary_at(c, last)
    } else {
        &&& es[0].start > last ==> is_char_boundary_at(c, last) && is_char_boundary_at(
            c,
            es[0].start as int,
        )
        &&& doc_ok(c, es.drop_first(), es[0].end as int)
    }
}

/// The rendered document.
pub open spec fn spec_render_document(
    c: Seq<char>,
    es: Seq<ElementView>,
    p: Seq<char>,
    cursor: int,
) -> Seq<char> {
    if es.len() == 0 {
        escape(c)
    } else {
        doc_from(c, sort_by_start(es), p, cursor, 0)
    }
}

/// Trait for rendering markdown syntax elements to HTML with cursor awareness
pub trait InlineRenderer {
    /// Render a syntax element to HTML
    fn render_element(&self, element: &SyntaxElement) -> RenderedElement;

    /// Render multiple elements with cursor awareness
    fn render_elements_with_cursor(
        &self,
        elements: &[SyntaxElement],
        cursor_position: &CursorPosition,
    ) -> Vec<RenderedElement>;

    /// Extract raw content from a rendered element for editing
    fn extract_raw_content(&self, rendered: &RenderedElement) -> String;

    /// Check if cursor is within an element for editing activation
    fn is_cursor_in_element(&self, element: &SyntaxElement, cursor_position: &CursorPosition) -> bool;

    /// Render document content with inline elements
    fn render_document(
        &self,
        content: &str,
        elements: &[SyntaxElement],
        cursor_position: &CursorPosition,
    ) -> String
        requires
            doc_ok(content@, sort_by_start(views(elements@)), 0),
    ;
}

/// Default implementation of the inline renderer
#[derive(Debug)]
pub struct MarkdownInlineRenderer {
    /// CSS class prefix for generated elements
    pub class_prefix: String,
}

impl Default for MarkdownInlineRenderer {
    fn default() -> (r: Self)
        ensures
            r.class_prefix@ == Seq::<char>::empty(),
    {
        MarkdownInlineRenderer { class_prefix: String::new() }
    }
}

pub open spec fn rendered_views(s: Seq<RenderedElement>) -> Seq<RenderedView> {
    s.map_values(|r: RenderedElement| r@)
}

impl MarkdownInlineRenderer {
    /// Create a new markdown inline renderer
    pub fn new() -> (r: Self)
        ensures
            r.class_prefix@ == "md"@,
    {
        Self { class_prefix: owned("md") }
    }

    /// Create renderer with custom class prefix
    pub fn with_class_prefix(class_prefix: String) -> (r: Self)
        ensures
            r.class_prefix == class_prefix,
    {
        Self { class_prefix }
    }

    /// Generate CSS class name with prefix
    fn css_class(&self, base: &str) -> (r: String)
        ensures
            r@ == css(self.class_prefix@, base@),
    {
        let mut r = String::new();
        push_str(&mut r, self.class_prefix.as_str());
        push_str(&mut r, "-");
        push_str(&mut r, base);
        assert(r@ =~= css(self.class_prefix@, base@));
        r
    }

    /// `<tag>escaped content</tag>`
    fn wrap_tag(tag: &str, content: &str) -> (r: String)
        ensures
            r@ == wrap_tag(tag@, content@),
    {
        let mut r = String::new();
        push_str(&mut r, "<");
        push_str(&mut r, tag);
        push_str(&mut r, ">");
        let e = html_escape(content);
        push_str(&mut r, e.as_str());
        push_str(&mut r, "</");
        push_str(&mut r, tag);
        push_str(&mut r, ">");
        assert(r@ =~= wrap_tag(tag@, content@));
        r
    }

    /// `base` followed by the decimal digits of `n`.
    fn with_number(base: &str, n: u64) -> (r: String)
        ensures
            r@ == base@ + decimal(n as nat),
    {
        let mut r = owned(base);
        push_decimal(&mut r, n);
        r
    }

    /// Render a list item element
    fn render_list_item(
        &self,
        element: &SyntaxElement,
        level: u8,
        item_type: &str,
        number: Option<u32>,
    ) -> (r: RenderedElement)
        ensures
            r@ == list_item_view(element@, self.class_prefix@, level, item_type@, number),
    {
        let html = Self::wrap_tag("li", element.rendered_content.as_str());
        let mut css_classes: Vec<String> = Vec::new();
        css_classes.push(self.css_class("list-item"));
        let mut t = owned("list-item-");
        push_str(&mut t, item_type);
        css_classes.push(self.css_class(t.as_str()));
        if level > 0 {
            let l = Self::with_number("level-", level as u64);
            css_classes.push(self.css_class(l.as_str()));
        }
        let mut element_r = RenderedElement::new(
            html,
            css_classes,
            element.raw_content.clone(),
            (element.range.start, element.range.end),
        );
        let level_s = Self::with_number("", level as u64);
        element_r.add_data_attribute("level", level_s.as_str());
        element_r.add_data_attribute("type", item_type);
        if let Some(num) = number {
            let num_s = Self::with_number("", num as u64);
            element_r.add_data_attribute("number", num_s.as_str());
        }
        proof {
            let p = self.class_prefix@;
            assert(strings_view(css_classes@) =~= if level > 0 {
                seq![css(p, "list-item"@), css(p, "list-item-"@ + item_type@)].push(
                    css(p, "level-"@ + decimal(level as nat)),
                )
            } else {
                seq![css(p, "list-item"@), css(p, "list-item-"@ + item_type@)]
            });
            reveal_strlit("");
            assert(""@ + decimal(level as nat) =~= decimal(level as nat));
            if let Some(num) = number {
                assert(""@ + decimal(num as nat) =~= decimal(num as nat));
            }
        }
        element_r
    }
}

impl InlineRenderer for MarkdownInlineRenderer {
    fn render_element(&self, element: &SyntaxElement) -> (r: RenderedElement)
        ensures
            r@ == spec_render_element(element@, self.class_prefix@),
    {
        let range = (element.range.start, element.range.end);
        let raw = element.raw_content.clone();
        let content = element.rendered_content.as_str();
        let ghost p = self.class_prefix@;
        match &element.element_type {
            SyntaxElementType::Header { level } => {
                let tag = Self::with_number("h", *level as u64);
                let html = Self::wrap_tag(tag.as_str(), content);
                let mut css_classes: Vec<String> = Vec::new();
                css_classes.push(self.css_class("header"));
                let h = Self::with_number("header-", *level as u64);
                css_classes.push(self.css_class(h.as_str()));
                let mut r = RenderedElement::new(html, css_classes, raw, range);
                let level_s = Self::with_number("", *level as u64);
                r.add_data_attribute("level", level_s.as_str());
                proof {
                    reveal_strlit("");
                    assert(""@ + decimal(*level as nat) =~= decimal(*level as nat));
                    assert(strings_view(css_classes@) =~= seq![
                        css(p, "header"@),
                        css(p, "header-"@ + decimal(*level as nat)),
                    ]);
                }
                r
            },
            SyntaxElementType::Bold => {
                let html = Self::wrap_tag("strong", content);
                let mut css_classes: Vec<String> = Vec::new();
                css_classes.push(self.css_class("bold"));
                assert(strings_view(css_classes@) =~= seq![css(p, "bold"@)]);
                RenderedElement::new(html, css_classes, raw, range)
            },
            SyntaxElementType::Italic => {
                let html = Self::wrap_tag("em", content);
                let mut css_classes: Vec<String> = Vec::new();
                css_classes.push(self.css_class("italic"));
                assert(strings_view(css_classes@) =~= seq![css(p, "italic"@)]);
                RenderedElement::new(html, css_classes, raw, range)
            },
            SyntaxElementType::InlineCode => {
                let html = Self::wrap_tag("code", content);
                let mut css_classes: Vec<String> = Vec::new();
                css_classes.push(self.css_class("code"));
                css_classes.push(self.css_class("inline-code"));
                assert(strings_view(css_classes@) =~= seq![css(p, "code"@), css(p, "inline-code"@)]);
                RenderedElement::new(html, css_classes, raw, range)
            },
            SyntaxElementType::CodeBlock { language } => {
                let block = self.css_class("code-block");
                let mut html = owned("<pre><code class=\"");
                push_str(&mut html, block.as_str());
                if let Some(l) = language {
                    push_str(&mut html, " language-");
                    push_str(&mut html, l.as_str());
                }
                push_str(&mut html, "\">");
                let e = html_escape(content);
                push_str(&mut html, e.as_str());
                push_str(&mut html, "</code></pre>");
                let mut css_classes: Vec<String> = Vec::new();
                css_classes.push(self.css_class("code-block"));
                if let Some(l) = language {
                    let mut c = owned("language-");
                    push_str(&mut c, l.as_str());
                    css_classes.push(c);
                }
                let mut r = RenderedElement::new(html, css_classes, raw, range);
                if let Some(l) = language {
                    r.add_data_attribute("language", l.as_str());
                }
                proof {
                    match language {
                        Some(l) => {
                            assert(strings_view(css_classes@) =~= seq![
                                css(p, "code-block"@),
                                "language-"@ + l@,
                            ]);
                        },
                        None => {
                            assert(strings_view(css_classes@) =~= seq![css(p, "code-block"@)]);
                        },
                    }
                }
                assert(r@ =~= spec_render_element(element@, p));
                r
            },
            SyntaxElementType::Link { url, title } => {
                let mut html = owned("<a href=\"");
                let eu = html_escape(url.as_str());
                push_str(&mut html, eu.as_str());
                push_str(&mut html, "\"");
                if let Some(t) = title {
                    push_str(&mut html, " title=\"");
                    let et = html_escape(t.as_str());
                    push_str(&mut html, et.as_str());
                    push_str(&mut html, "\"");
                }
                push_str(&mut html, ">");
                let e = html_escape(content);
                push_str(&mut html, e.as_str());
                push_str(&mut html, "</a>");
                let mut css_classes: Vec<String> = Vec::new();
                css_classes.push(self.css_class("link"));
                assert(strings_view(css_classes@) =~= seq![css(p, "link"@)]);
                let mut r = RenderedElement::new(html, css_classes, raw, range);
                r.add_data_attribute("url", url.as_str());
                if let Some(t) = title {
                    r.add_data_attribute("title", t.as_str());
                }
                assert(r@ =~= spec_render_element(element@, p));
                r
            },
            SyntaxElementType::UnorderedListItem { level } => {
                self.render_list_item(element, *level, "unordered", None)
            },
            SyntaxElementType::OrderedListItem { level, number } => {
                self.render_list_item(element, *level, "ordered", Some(*number))
            },
        }
    }

    fn render_elements_with_cursor(
        &self,
        elements: &[SyntaxElement],
        cursor_position: &CursorPosition,
    ) -> (r: Vec<RenderedElement>)
        ensures
            r@.len() == elements@.len(),
            forall|i: int|
                0 <= i < elements@.len() ==> (#[trigger] r@[i])@ == spec_render_with_cursor(
                    elements@[i]@,
                    self.class_prefix@,
                    cursor_position.absolute as int,
                ),
    {
        let mut r: Vec<RenderedElement> = Vec::new();
        let mut i: usize = 0;
        while i < elements.len()
            invariant
                i <= elements@.len(),
                r@.len() == i,
                forall|j: int|
                    0 <= j < i ==> (#[trigger] r@[j])@ == spec_render_with_cursor(
                        elements@[j]@,
                        self.class_prefix@,
                        cursor_position.absolute as int,
                    ),
            decreases elements@.len() - i,
        {
            let mut rendered = self.render_element(&elements[i]);
            if self.is_cursor_in_element(&elements[i], cursor_position) {
                rendered.set_editing(true);
                rendered.add_class("cursor-active");
            }
            r.push(rendered);
            i += 1;
        }
        r
    }

    fn extract_raw_content(&self, rendered: &RenderedElement) -> (r: String)
        ensures
            r@ == rendered.raw_content@,
    {
        rendered.raw_content.clone()
    }

    fn is_cursor_in_element(&self, element: &SyntaxElement, cursor_position: &CursorPosition) -> (b:
        bool)
        ensures
            b == (element.range.start <= cursor_position.absolute < element.range.end),
    {
        element.contains_cursor(cursor_position.absolute)
    }

    fn render_document(
        &self,
        content: &str,
        elements: &[SyntaxElement],
        cursor_position: &CursorPosition,
    ) -> (r: String)
        ensures
            r@ == spec_render_document(
                content@,
                views(elements@),
                self.class_prefix@,
                cursor_position.absolute as int,
            ),
    {
        if elements.len() == 0 {
            proof {
                assert(views(elements@).len() == 0);
            }
            return html_escape(content);
        }
        let v = chars_of(content);
        let n = content.as_bytes().len();
        let offs = byte_offsets(v.as_slice());
        let sorted = sort_elements(clone_elements(elements));
        let ghost es = views(sorted@);
        let ghost c = v@;
        let ghost p = self.class_prefix@;
        let ghost cur = cursor_position.absolute as int;
        let mut result = String::new();
        let mut last_pos: usize = 0;
        let mut i: usize = 0;
        assert(es.skip(0) =~= es);
        while i < sorted.len()
            invariant
                n == byte_len(c),
                offsets_of(v@, offs@),
                c == content@,
                v@ == c,
                p == self.class_prefix@,
                cur == cursor_position.absolute as int,
                es == views(sorted@),
                i <= sorted@.len(),
                result@ + doc_from(c, es.skip(i as int), p, cur, last_pos as int) == doc_from(
                    c,
                    es,
                    p,
                    cur,
                    0,
                ),
                doc_ok(c, es.skip(i as int), last_pos as int),
            decreases sorted@.len() - i,
        {
            let element = &sorted[i];
            proof {
                assert(es.skip(i as int)[0] == element@);
                assert(es.skip(i as int).drop_first() =~= es.skip(i + 1));
            }
            let ghost before = result@;
            self.push_piece(&mut result, v.as_slice(), &offs, last_pos, element, cursor_position);
            proof {
                assert(doc_from(c, es.skip(i as int), p, cur, last_pos as int) == doc_piece(
                    c,
                    element@,
                    p,
                    cur,
                    last_pos as int,
                ) + doc_from(c, es.skip(i + 1), p, cur, element@.end as int));
                assert(result@ + doc_from(c, es.skip(i + 1), p, cur, element@.end as int) =~= before
                    + doc_from(c, es.skip(i as int), p, cur, last_pos as int));
            }
            last_pos = element.range.end;
            i += 1;
        }
        if last_pos < n {
            push_escaped_tail(&mut result, v.as_slice(), &offs, last_pos);
        }
        proof {
            assert(es.skip(i as int).len() == 0);
        }
        result
    }
}

impl MarkdownInlineRenderer {
    /// Appends the text before `element` and the element itself.
    fn push_piece(
        &self,
        result: &mut String,
        v: &[char],
        offs: &Vec<usize>,
        last_pos: usize,
        element: &SyntaxElement,
        cursor_position: &CursorPosition,
    )
        requires
            offsets_of(v@, offs@),
            element.range.start > last_pos ==> is_char_boundary_at(v@, last_pos as int)
                && is_char_boundary_at(v@, element.range.start as int),
        ensures
            final(result)@ == old(result)@ + doc_piece(
                v@,
                element@,
                self.class_prefix@,
                cursor_position.absolute as int,
                last_pos as int,
            ),
    {
        let ghost before = result@;
        reveal(doc_piece);
        if element.range.start > last_pos {
            push_escaped_bytes(result, v, offs, last_pos, element.range.start);
        }
        let mut rendered = self.render_element(element);
        if self.is_cursor_in_element(element, cursor_position) {
            rendered.set_editing(true);
        }
        let h = rendered.to_html();
        push_str(result, h.as_str());
        proof {
            assert(rendered@ =~= doc_render(element@, self.class_prefix@, cursor_position.absolute as int));
        }
        assert(result@ =~= before + doc_piece(
            v@,
            element@,
            self.class_prefix@,
            cursor_position.absolute as int,
            last_pos as int,
        ));
    }
}

/// Copies of the elements.
pub fn clone_elements(elements: &[SyntaxElement]) -> (r: Vec<SyntaxElement>)
    ensures
        views(r@) == views(elements@),
{
    let mut r: Vec<SyntaxElement> = Vec::new();
    let mut i: usize = 0;
    while i < elements.len()
        invariant
            i <= elements@.len(),
            r@.len() == i,
            forall|j: int| 0 <= j < i ==> (#[trigger] r@[j])@ == elements@[j]@,
        decreases elements@.len() - i,
    {
        r.push(elements[i].clone());
        i += 1;
    }
    assert(views(r@) =~= views(elements@));
    r
}

} // verus!
