//! The server's configuration, messages and request logic: static files by
//! extension, theme asset routes and metadata, and markdown pages.
use vstd::prelude::*;

use std::path::PathBuf;
use std::time::SystemTime;

use crate::inline_renderer::{pairs_view, strings_view};
use crate::routing::Method;
use crate::syntax_parser::{find_char, opt_string_view};
use crate::text::{chars_of, chars_range, owned, push_str, str_eq, string_of};

verus! {

broadcast use vstd::string::group_string_axioms;

/// Server plugin configuration
#[derive(Debug)]
pub struct ServerConfig {
    pub hostname: String,
    pub port: u16,
    pub enable_cors: bool,
    pub max_connections: Option<usize>,
    pub request_timeout_secs: Option<u64>,
    pub websocket_ping_interval_secs: Option<u64>,
}

impl Default for ServerConfig {
    /// Listen on 127.0.0.1:3000 with CORS, no connection limit, and 30
    /// second request timeouts and ping intervals.
    fn default() -> (c: Self)
        ensures
            c.hostname@ == "127.0.0.1"@,
            c.port == 3000,
            c.enable_cors,
            c.max_connections is None,
            c.request_timeout_secs == Some(30u64),
            c.websocket_ping_interval_secs == Some(30u64),
    {
        Self {
            hostname: owned("127.0.0.1"),
            port: 3000,
            enable_cors: true,
            max_connections: None,
            request_timeout_secs: Some(30),
            websocket_ping_interval_secs: Some(30),
        }
    }
}

/// WebSocket message types
#[derive(Debug)]
pub enum WebSocketMessage {
    Text(String),
    Binary(Vec<u8>),
    Ping(Vec<u8>),
    Pong(Vec<u8>),
    Close(Option<String>),
}

/// Client message types for WebSocket communication
#[derive(Debug, Clone, Copy, PartialEq, Eq, Structural)]
pub enum ClientMessage {
    Ping,
    RequestRefresh,
}

/// Metadata about the content
#[derive(Debug)]
pub struct ContentMetadata {
    pub title: Option<String>,
    pub last_modified: Option<SystemTime>,
    pub file_path: Option<String>,
    pub word_count: Option<usize>,
}

/// Type of update to perform on an element
#[derive(Debug, Clone, Copy, PartialEq, Eq, Structural)]
pub enum UpdateType {
    /// Replace the entire content
    Replace,
    /// Replace only the inner HTML
    InnerHtml,
    /// Append to existing content
    Append,
    /// Prepend to existing content
    Prepend,
}

/// Individual element update for incremental updates
#[derive(Debug)]
pub struct ElementUpdate {
    pub selector: String,
    pub content: String,
    pub update_type: UpdateType,
}

/// Server message types for WebSocket communication
#[derive(Debug)]
pub enum ServerMessage {
    /// Traditional reload message (fallback)
    Reload,
    /// Direct content update with rendered HTML
    ContentUpdate { html: String, css: Option<String>, metadata: Option<ContentMetadata> },
    /// Incremental content update for specific elements
    IncrementalUpdate { updates: Vec<ElementUpdate> },
    /// Pong response
    Pong,
    /// Error message
    Error { message: String, code: Option<String> },
}

/// Cursor position in the editor, as the browser editor reports it
#[derive(Debug, Clone, Copy, PartialEq, Eq, Structural)]
pub struct CursorPosition {
    pub line: usize,
    pub column: usize,
    pub selection_start: Option<usize>,
    pub selection_end: Option<usize>,
}

impl Default for CursorPosition {
    fn default() -> (p: Self)
        ensures
            p == (CursorPosition {
                line: 0,
                column: 0,
                selection_start: None,
                selection_end: None,
            }),
    {
        CursorPosition { line: 0, column: 0, selection_start: None, selection_end: None }
    }
}

/// Editor API messages for WebSocket communication
#[derive(Debug)]
pub enum EditorMessage {
    ContentUpdate { session_id: String, content: String, cursor_position: CursorPosition },
    SaveRequest { session_id: String },
    ModeSwitch { session_id: String, mode: String },
    ClickToEdit { session_id: String, click_position: usize },
    TriggerRender { session_id: String, trigger_events: Vec<String> },
    RenderMarkdown { session_id: String, content: String },
    MarkdownRendered { session_id: String, html: String },
    UpdateElement { session_id: String, element_content: String },
    AutoSaveStatus {
        session_id: String,
        enabled: bool,
        is_dirty: bool,
        pending_save: bool,
        last_save_time: Option<String>,
    },
    SaveComplete { session_id: String, success: bool, timestamp: String },
}

/// Broadcast message for editor events
#[derive(Debug)]
pub struct EditorBroadcastMessage {
    pub session_id: String,
    pub event: EditorMessage,
    pub timestamp: String,
}

// ---------------------------------------------------------------------------
// Static files
// ---------------------------------------------------------------------------

/// A name for the extension that `Path::extension` finds in a path: the
/// part of its file name after the last `.`.
pub uninterp spec fn path_extension(path: Seq<char>) -> Option<Seq<char>>;

/// A name for what `str::to_lowercase` makes of a string.
pub uninterp spec fn lowercase(s: Seq<char>) -> Seq<char>;

/// The extension of the path `path` (`Path::extension`), when it is valid
/// UTF-8. What it is follows the path alone; the rules of file names are
/// not restated here.
#[verifier::external_body]
pub(crate) fn extension_of(path: &str) -> (r: Option<String>)
    ensures
        opt_string_view(r) == path_extension(path@),
{
    match std::path::Path::new(path).extension() {
        Some(e) => match e.to_str() {
            Some(s) => Some(s.to_string()),
            None => None,
        },
        None => None,
    }
}

/// `s` in lower case (`str::to_lowercase`), which depends on `s` alone; the
/// Unicode case mappings are not restated here.
#[verifier::external_body]
pub(crate) fn to_lowercase(s: &str) -> (r: String)
    ensures
        r@ == lowercase(s@),
{
    s.to_lowercase()
}

/// The content type served for a lower-case extension.
pub open spec fn content_type_for(ext: Seq<char>) -> Seq<char> {
    if ext == "png"@ {
        "image/png"@
    } else if ext == "jpg"@ || ext == "jpeg"@ {
        "image/jpeg"@
    } else if ext == "gif"@ {
        "image/gif"@
    } else if ext == "svg"@ {
        "image/svg+xml"@
    } else if ext == "webp"@ {
        "image/webp"@
    } else if ext == "bmp"@ {
        "image/bmp"@
    } else if ext == "ico"@ {
        "image/x-icon"@
    } else if ext == "css"@ {
        "text/css"@
    } else if ext == "js"@ {
        "application/javascript"@
    } else if ext == "html"@ {
        "text/html; charset=utf-8"@
    } else if ext == "txt"@ {
        "text/plain; charset=utf-8"@
    } else {
        "application/octet-stream"@
    }
}

/// The content type served for a lower-case extension.
pub fn content_type_for_extension(ext: &str) -> (r: &'static str)
    ensures
        r@ == content_type_for(ext@),
{
    if str_eq(ext, "png") {
        "image/png"
    } else if str_eq(ext, "jpg") || str_eq(ext, "jpeg") {
        "image/jpeg"
    } else if str_eq(ext, "gif") {
        "image/gif"
    } else if str_eq(ext, "svg") {
        "image/svg+xml"
    } else if str_eq(ext, "webp") {
        "image/webp"
    } else if str_eq(ext, "bmp") {
        "image/bmp"
    } else if str_eq(ext, "ico") {
        "image/x-icon"
    } else if str_eq(ext, "css") {
        "text/css"
    } else if str_eq(ext, "js") {
        "application/javascript"
    } else if str_eq(ext, "html") {
        "text/html; charset=utf-8"
    } else if str_eq(ext, "txt") {
        "text/plain; charset=utf-8"
    } else {
        "application/octet-stream"
    }
}

/// The extensions a static handler serves by default.
pub open spec fn default_extensions() -> Seq<Seq<char>> {
    seq![
        "png"@,
        "jpg"@,
        "jpeg"@,
        "gif"@,
        "svg"@,
        "webp"@,
        "bmp"@,
        "ico"@,
        "css"@,
        "js"@,
        "html"@,
        "txt"@,
    ]
}

/// The extensions an image handler serves.
pub open spec fn image_extensions() -> Seq<Seq<char>> {
    seq!["png"@, "jpg"@, "jpeg"@, "gif"@, "svg"@, "webp"@, "bmp"@, "ico"@]
}

/// Static file handler for serving images and other assets
#[derive(Debug)]
pub struct StaticHandler {
    base_path: PathBuf,
    path_pattern: String,
    allowed_extensions: Vec<String>,
}

/// What a `StaticHandler` is set up with, besides its base path.
pub struct StaticView {
    pub pattern: Seq<char>,
    pub allowed: Seq<Seq<char>>,
}

impl View for StaticHandler {
    type V = StaticView;

    closed spec fn view(&self) -> StaticView {
        StaticView { pattern: self.path_pattern@, allowed: strings_view(self.allowed_extensions@) }
    }
}

fn push_owned(v: &mut Vec<String>, s: &str)
    ensures
        strings_view(final(v)@) == strings_view(old(v)@).push(s@),
{
    v.push(owned(s));
    assert(strings_view(v@) =~= strings_view(old(v)@).push(s@));
}

fn image_extension_list() -> (v: Vec<String>)
    ensures
        strings_view(v@) == image_extensions(),
{
    let mut v: Vec<String> = Vec::new();
    push_owned(&mut v, "png");
    push_owned(&mut v, "jpg");
    push_owned(&mut v, "jpeg");
    push_owned(&mut v, "gif");
    push_owned(&mut v, "svg");
    push_owned(&mut v, "webp");
    push_owned(&mut v, "bmp");
    push_owned(&mut v, "ico");
    assert(strings_view(v@) =~= image_extensions());
    v
}

impl StaticHandler {
    /// The directory files are served from.
    pub closed spec fn base(&self) -> PathBuf {
        self.base_path
    }

    /// Create a new static file handler
    pub fn new(base_path: PathBuf, path_pattern: String) -> (h: Self)
        ensures
            h.base() == base_path,
            h@.pattern == path_pattern@,
            h@.allowed == default_extensions(),
    {
        let mut allowed_extensions = image_extension_list();
        push_owned(&mut allowed_extensions, "css");
        push_owned(&mut allowed_extensions, "js");
        push_owned(&mut allowed_extensions, "html");
        push_owned(&mut allowed_extensions, "txt");
        let h = Self { base_path, path_pattern, allowed_extensions };
        assert(h@.allowed =~= default_extensions());
        h
    }

    /// Create a new static handler for images only
    pub fn new_image_handler(base_path: PathBuf, path_pattern: String) -> (h: Self)
        ensures
            h.base() == base_path,
            h@.pattern == path_pattern@,
            h@.allowed == image_extensions(),
    {
        Self { base_path, path_pattern, allowed_extensions: image_extension_list() }
    }

    /// The directory files are served from.
    pub fn base_path(&self) -> (b: &PathBuf)
        ensures
            *b == self.base(),
    {
        &self.base_path
    }

    /// The path prefix the handler serves.
    pub fn path_pattern(&self) -> (p: &str)
        ensures
            p@ == self@.pattern,
    {
        self.path_pattern.as_str()
    }

    /// The request method the handler answers.
    pub fn method(&self) -> (m: Method)
        ensures
            m == Method::Get,
    {
        Method::Get
    }

    /// Where this handler stands among the handlers of a route: after the
    /// more specific ones.
    pub fn priority(&self) -> (p: i32)
        ensures
            p == 100,
    {
        100
    }

    /// Check if the file extension is allowed: the path has one, and in
    /// lower case it is in the list.
    pub fn is_allowed_extension(&self, path: &str) -> (b: bool)
        ensures
            b == match path_extension(path@) {
                Some(e) => self@.allowed.contains(lowercase(e)),
                None => false,
            },
    {
        match extension_of(path) {
            Some(e) => {
                let lower = to_lowercase(e.as_str());
                let ghost a = self@.allowed;
                let mut i: usize = 0;
                while i < self.allowed_extensions.len()
                    invariant
                        a == strings_view(self.allowed_extensions@),
                        a == self@.allowed,
                        path_extension(path@) == Some(e@),
                        lower@ == lowercase(e@),
                        i <= a.len(),
                        forall|j: int| 0 <= j < i ==> a[j] != lower@,
                    decreases a.len() - i,
                {
                    assert(a[i as int] == self.allowed_extensions@[i as int]@);
                    if str_eq(self.allowed_extensions[i].as_str(), lower.as_str()) {
                        assert(a[i as int] == lower@);
                        assert(a.contains(lower@));
                        return true;
                    }
                    i += 1;
                }
                false
            },
            None => false,
        }
    }

    /// Guess the content type based on the file extension, in lower case.
    pub fn guess_content_type(&self, path: &str) -> (r: String)
        ensures
            r@ == match path_extension(path@) {
                Some(e) => content_type_for(lowercase(e)),
                None => "application/octet-stream"@,
            },
    {
        match extension_of(path) {
            Some(e) => {
                let lower = to_lowercase(e.as_str());
                owned(content_type_for_extension(lower.as_str()))
            },
            None => owned("application/octet-stream"),
        }
    }
}

// ---------------------------------------------------------------------------
// Request paths
// ---------------------------------------------------------------------------

/// Number of `'/'` at the start of `s`.
pub open spec fn leading_slashes(s: Seq<char>) -> nat
    decreases s.len(),
{
    if s.len() > 0 && s[0] == '/' {
        1 + leading_slashes(s.drop_first())
    } else {
        0
    }
}

/// The part of a request path after the handler's prefix (the whole path
/// if it does not start with it), without leading `'/'`.
pub open spec fn spec_requested_path(path: Seq<char>, pattern: Seq<char>) -> Seq<char> {
    let rest = if pattern.len() <= path.len() && path.take(pattern.len() as int) == pattern {
        path.skip(pattern.len() as int)
    } else {
        path
    };
    rest.skip(leading_slashes(rest) as int)
}

/// The part of `path` after `pattern`, without leading `'/'`.
pub fn requested_path(path: &str, pattern: &str) -> (r: String)
    ensures
        r@ == spec_requested_path(path@, pattern@),
{
    let v = chars_of(path);
    let p = chars_of(pattern);
    let mut start: usize = 0;
    if p.len() <= v.len() {
        let head = chars_range(v.as_slice(), 0, p.len());
        if crate::text::chars_eq(head.as_slice(), p.as_slice()) {
            start = p.len();
        }
    }
    let ghost rest = v@.skip(start as int);
    assert(rest =~= if pattern@.len() <= path@.len() && path@.take(pattern@.len() as int)
        == pattern@ {
        path@.skip(pattern@.len() as int)
    } else {
        path@
    });
    let mut i = start;
    while i < v.len() && v[i] == '/'
        invariant
            start <= i <= v@.len(),
            rest == v@.skip(start as int),
            leading_slashes(rest) == (i - start) + leading_slashes(v@.skip(i as int)),
        decreases v@.len() - i,
    {
        assert(v@.skip(i as int).drop_first() =~= v@.skip(i + 1));
        i += 1;
    }
    assert(rest.skip(leading_slashes(rest) as int) =~= v@.subrange(i as int, v@.len() as int));
    string_of(v.as_slice(), i, v.len())
}

// ---------------------------------------------------------------------------
// Responses
// ---------------------------------------------------------------------------

/// An HTTP response: its status code, headers in the order they were set
/// (a later value for a name replaces an earlier one when sent), and body.
pub struct HttpResponse {
    pub status: u16,
    pub headers: Vec<(String, String)>,
    pub body: Vec<u8>,
}

/// What a response holds.
pub struct ResponseView {
    pub status: u16,
    pub headers: Seq<(Seq<char>, Seq<char>)>,
    pub body: Seq<u8>,
}

impl View for HttpResponse {
    type V = ResponseView;

    open spec fn view(&self) -> ResponseView {
        ResponseView { status: self.status, headers: pairs_view(self.headers@), body: self.body@ }
    }
}

/// A plain-text response's content type.
pub open spec fn text_type() -> Seq<char> {
    "text/plain; charset=utf-8"@
}

/// A response with `status`, the content type `ty` and the UTF-8 bytes of
/// `content`.
pub open spec fn typed_response(status: u16, ty: Seq<char>, content: Seq<char>) -> ResponseView {
    ResponseView {
        status,
        headers: seq![("content-type"@, ty)],
        body: vstd::utf8::encode_utf8(content),
    }
}

impl HttpResponse {
    /// Create a new HTTP response
    pub fn new(status: u16) -> (r: Self)
        ensures
            r@ == (ResponseView { status, headers: seq![], body: seq![] }),
    {
        let r = Self { status, headers: Vec::new(), body: Vec::new() };
        assert(r@.headers =~= Seq::<(Seq<char>, Seq<char>)>::empty());
        r
    }

    /// Set response body
    pub fn with_body(self, body: Vec<u8>) -> (r: Self)
        ensures
            r@ == (ResponseView { body: body@, ..self@ }),
    {
        Self { status: self.status, headers: self.headers, body }
    }

    /// Set response header
    pub fn with_header(self, name: &str, value: &str) -> (r: Self)
        ensures
            r@ == (ResponseView { headers: self@.headers.push((name@, value@)), ..self@ }),
    {
        let mut headers = self.headers;
        let ghost before = pairs_view(headers@);
        headers.push((owned(name), owned(value)));
        assert(pairs_view(headers@) =~= before.push((name@, value@)));
        Self { status: self.status, headers, body: self.body }
    }

    /// Create an HTML response
    pub fn html(content: &str) -> (r: Self)
        ensures
            r@ == typed_response(200, "text/html; charset=utf-8"@, content@),
    {
        Self::new(200).with_header("content-type", "text/html; charset=utf-8").with_body(
            content.as_bytes_vec(),
        )
    }

    /// Create a text response
    pub fn text(content: &str) -> (r: Self)
        ensures
            r@ == typed_response(200, text_type(), content@),
    {
        Self::new(200).with_header("content-type", "text/plain; charset=utf-8").with_body(
            content.as_bytes_vec(),
        )
    }

    /// Create an error response
    pub fn error(status: u16, message: &str) -> (r: Self)
        ensures
            r@ == typed_response(status, text_type(), message@),
    {
        Self::new(status).with_header("content-type", "text/plain; charset=utf-8").with_body(
            message.as_bytes_vec(),
        )
    }
}

/// What serving a static file comes to before its bytes are read.
pub enum StaticCheck {
    /// The request is answered without reading: this response
    Refuse(HttpResponse),
    /// The file may be read and served
    Read,
}

impl StaticHandler {
    /// The checks before a file is served: a request for nothing, or for a
    /// path that does not resolve (`resolved` is the canonical path when it
    /// does), is not found; one that resolves outside the base directory is
    /// denied; one whose extension is not allowed is refused.
    pub fn check_request(&self, requested: &str, resolved: Option<&str>, within_base: bool) -> (r:
        StaticCheck)
        ensures
            requested@.len() == 0 ==> (r matches StaticCheck::Refuse(resp) && resp@ == typed_response(
                404,
                text_type(),
                "File not found"@,
            )),
            requested@.len() > 0 && resolved is None ==> (r matches StaticCheck::Refuse(resp)
                && resp@ == typed_response(404, text_type(), "File not found"@)),
            requested@.len() > 0 && resolved is Some && !within_base ==> (r matches StaticCheck::Refuse(
                resp,
            ) && resp@ == typed_response(403, text_type(), "Access denied"@)),
            requested@.len() > 0 && resolved is Some && within_base ==> match path_extension(
                resolved->0@,
            ) {
                Some(e) => if self@.allowed.contains(lowercase(e)) {
                    r is Read
                } else {
                    (r matches StaticCheck::Refuse(resp) && resp@ == typed_response(
                        403,
                        text_type(),
                        "File type not allowed"@,
                    ))
                },
                None => (r matches StaticCheck::Refuse(resp) && resp@ == typed_response(
                    403,
                    text_type(),
                    "File type not allowed"@,
                )),
            },
    {
        if requested.unicode_len() == 0 {
            return StaticCheck::Refuse(HttpResponse::error(404, "File not found"));
        }
        match resolved {
            None => StaticCheck::Refuse(HttpResponse::error(404, "File not found")),
            Some(path) => {
                if !within_base {
                    StaticCheck::Refuse(HttpResponse::error(403, "Access denied"))
                } else if !self.is_allowed_extension(path) {
                    StaticCheck::Refuse(HttpResponse::error(403, "File type not allowed"))
                } else {
                    StaticCheck::Read
                }
            },
        }
    }

    /// The response for a file that passed the checks: its bytes with the
    /// content type its extension tells, or not found when reading failed.
    pub fn serve(&self, resolved: &str, contents: Option<Vec<u8>>) -> (r: HttpResponse)
        ensures
            match contents {
                Some(b) => r@ == (ResponseView {
                    status: 200,
                    headers: seq![
                        ("content-type"@, match path_extension(resolved@) {
                            Some(e) => content_type_for(lowercase(e)),
                            None => "application/octet-stream"@,
                        }),
                    ],
                    body: b@,
                }),
                None => r@ == typed_response(404, text_type(), "File not found"@),
            },
    {
        match contents {
            Some(b) => {
                let content_type = self.guess_content_type(resolved);
                HttpResponse::new(200).with_header("content-type", content_type.as_str()).with_body(b)
            },
            None => HttpResponse::error(404, "File not found"),
        }
    }
}

// ---------------------------------------------------------------------------
// Theme assets
// ---------------------------------------------------------------------------

/// What a request to the theme asset handler asks for.
#[derive(Debug, PartialEq, Eq)]
pub enum ThemeAssetRoute {
    /// The list of available themes
    List,
    /// A theme's CSS
    Css(String),
    /// A theme's metadata
    Metadata(String),
    /// Switching to a theme
    Switch(String),
    /// Nothing the handler serves
    NotFound,
}

/// What a `ThemeAssetRoute` says.
pub enum RouteView {
    List,
    Css(Seq<char>),
    Metadata(Seq<char>),
    Switch(Seq<char>),
    NotFound,
}

impl View for ThemeAssetRoute {
    type V = RouteView;

    open spec fn view(&self) -> RouteView {
        match self {
            ThemeAssetRoute::List => RouteView::List,
            ThemeAssetRoute::Css(n) => RouteView::Css(n@),
            ThemeAssetRoute::Metadata(n) => RouteView::Metadata(n@),
            ThemeAssetRoute::Switch(n) => RouteView::Switch(n@),
            ThemeAssetRoute::NotFound => RouteView::NotFound,
        }
    }
}

/// The route of a requested path (already without the handler's prefix):
/// empty lists the themes; `name` and `name/css` ask for CSS,
/// `name/metadata` for metadata and `name/switch` for a switch; anything
/// else, with more parts or another second part, is not found.
pub open spec fn spec_theme_route(p: Seq<char>) -> RouteView {
    if p.len() == 0 {
        RouteView::List
    } else {
        match find_char(p, '/', 0) {
            None => RouteView::Css(p),
            Some(k) => {
                let name = p.take(k);
                let second = p.skip(k + 1);
                if find_char(second, '/', 0) is Some {
                    RouteView::NotFound
                } else if second == "css"@ {
                    RouteView::Css(name)
                } else if second == "metadata"@ {
                    RouteView::Metadata(name)
                } else if second == "switch"@ {
                    RouteView::Switch(name)
                } else {
                    RouteView::NotFound
                }
            },
        }
    }
}

/// Route a request to the theme asset handler whose prefix is `pattern`.
pub fn route_theme_asset(path: &str, pattern: &str) -> (r: ThemeAssetRoute)
    ensures
        r@ == spec_theme_route(spec_requested_path(path@, pattern@)),
{
    let p = requested_path(path, pattern);
    let v = chars_of(p.as_str());
    let n = v.len();
    if n == 0 {
        return ThemeAssetRoute::List;
    }
    assert(v@.subrange(0, n as int) =~= v@);
    match crate::syntax_parser::find_char_from(v.as_slice(), 0, n, '/', 0) {
        None => ThemeAssetRoute::Css(p),
        Some(k) => {
            let name = string_of(v.as_slice(), 0, k);
            let second = string_of(v.as_slice(), k + 1, n);
            assert(name@ =~= v@.take(k as int));
            assert(second@ =~= v@.skip(k + 1));
            let sv = chars_of(second.as_str());
            assert(sv@.subrange(0, sv@.len() as int) =~= sv@);
            if crate::syntax_parser::find_char_from(sv.as_slice(), 0, sv.len(), '/', 0).is_some() {
                ThemeAssetRoute::NotFound
            } else if str_eq(second.as_str(), "css") {
                ThemeAssetRoute::Css(name)
            } else if str_eq(second.as_str(), "metadata") {
                ThemeAssetRoute::Metadata(name)
            } else if str_eq(second.as_str(), "switch") {
                ThemeAssetRoute::Switch(name)
            } else {
                ThemeAssetRoute::NotFound
            }
        },
    }
}

/// The themes the server knows by name.
pub open spec fn valid_theme_names() -> Seq<Seq<char>> {
    seq![
        "light"@,
        "dark"@,
        "catppuccin-latte"@,
        "catppuccin-macchiato"@,
        "catppuccin-mocha"@,
    ]
}

/// Whether `name` is a theme the server knows.
pub fn is_valid_theme(name: &str) -> (b: bool)
    ensures
        b == valid_theme_names().contains(name@),
{
    let b = str_eq(name, "light") || str_eq(name, "dark") || str_eq(name, "catppuccin-latte")
        || str_eq(name, "catppuccin-macchiato") || str_eq(name, "catppuccin-mocha");
    proof {
        if b {
            if name@ == "light"@ {
                assert(valid_theme_names()[0] == name@);
            } else if name@ == "dark"@ {
                assert(valid_theme_names()[1] == name@);
            } else if name@ == "catppuccin-latte"@ {
                assert(valid_theme_names()[2] == name@);
            } else if name@ == "catppuccin-macchiato"@ {
                assert(valid_theme_names()[3] == name@);
            } else {
                assert(valid_theme_names()[4] == name@);
            }
        }
    }
    b
}

/// The answer to a request for an unknown theme.
pub fn invalid_theme_message(name: &str) -> (r: String)
    ensures
        r@ == "Invalid theme: "@ + name@
            + ". Valid themes: [\"light\", \"dark\", \"catppuccin-latte\", \"catppuccin-macchiato\", \"catppuccin-mocha\"]"@,
{
    let mut r = owned("Invalid theme: ");
    push_str(&mut r, name);
    push_str(
        &mut r,
        ". Valid themes: [\"light\", \"dark\", \"catppuccin-latte\", \"catppuccin-macchiato\", \"catppuccin-mocha\"]",
    );
    r
}

/// Metadata the server publishes for a theme.
#[derive(Debug)]
pub struct ThemeMetadata {
    pub name: String,
    pub display_name: String,
    pub description: String,
    pub author: String,
    pub version: String,
    pub icon: String,
    pub preview_colors: Vec<String>,
    pub is_dark: bool,
    pub mermaid_theme: String,
}

/// What a `ThemeMetadata` says.
#[verifier::ext_equal]
pub struct MetadataView {
    pub name: Seq<char>,
    pub display_name: Seq<char>,
    pub description: Seq<char>,
    pub icon: Seq<char>,
    pub preview_colors: Seq<Seq<char>>,
    pub is_dark: bool,
    pub author: Seq<char>,
    pub version: Seq<char>,
    pub mermaid_theme: Seq<char>,
}

impl View for ThemeMetadata {
    type V = MetadataView;

    open spec fn view(&self) -> MetadataView {
        MetadataView {
            name: self.name@,
            display_name: self.display_name@,
            description: self.description@,
            icon: self.icon@,
            preview_colors: strings_view(self.preview_colors@),
            is_dark: self.is_dark,
            author: self.author@,
            version: self.version@,
            mermaid_theme: self.mermaid_theme@,
        }
    }
}

/// Metadata for a known theme, by Rune, version 1.0.0, with the Mermaid
/// theme that matches its darkness.
pub open spec fn metadata_view(
    name: Seq<char>,
    display_name: Seq<char>,
    description: Seq<char>,
    icon: Seq<char>,
    colors: Seq<Seq<char>>,
    is_dark: bool,
) -> MetadataView {
    MetadataView {
        name,
        display_name,
        description,
        icon,
        preview_colors: colors,
        is_dark,
        author: "Rune"@,
        version: "1.0.0"@,
        mermaid_theme: if is_dark {
            "dark"@
        } else {
            "default"@
        },
    }
}

/// The metadata of each known theme.
pub open spec fn spec_theme_metadata(name: Seq<char>) -> Option<MetadataView> {
    if name == "light"@ {
        Some(
            metadata_view(
                name,
                "Light"@,
                "Classic bright theme"@,
                "☀️"@,
                seq!["#fff"@, "#333"@, "#0366d6"@],
                false,
            ),
        )
    } else if name == "dark"@ {
        Some(
            metadata_view(
                name,
                "Dark"@,
                "Classic dark theme"@,
                "🌙"@,
                seq!["#0d1117"@, "#e6edf3"@, "#58a6ff"@],
                true,
            ),
        )
    } else if name == "catppuccin-latte"@ {
        Some(
            metadata_view(
                name,
                "Catppuccin Latte"@,
                "Warm light theme"@,
                "☕"@,
                seq!["#eff1f5"@, "#4c4f69"@, "#1e66f5"@],
                false,
            ),
        )
    } else if name == "catppuccin-macchiato"@ {
        Some(
            metadata_view(
                name,
                "Catppuccin Macchiato"@,
                "Medium contrast theme"@,
                "🥛"@,
                seq!["#24273a"@, "#cad3f5"@, "#8aadf4"@],
                true,
            ),
        )
    } else if name == "catppuccin-mocha"@ {
        Some(
            metadata_view(
                name,
                "Catppuccin Mocha"@,
                "Dark and cozy theme"@,
                "🐱"@,
                seq!["#1e1e2e"@, "#cdd6f4"@, "#89b4fa"@],
                true,
            ),
        )
    } else {
        None
    }
}

fn make_metadata(
    name: &str,
    display_name: &str,
    description: &str,
    icon: &str,
    colors: (&str, &str, &str),
    is_dark: bool,
) -> (m: ThemeMetadata)
    ensures
        m@ == metadata_view(
            name@,
            display_name@,
            description@,
            icon@,
            seq![colors.0@, colors.1@, colors.2@],
            is_dark,
        ),
{
    let mut preview_colors: Vec<String> = Vec::new();
    push_owned(&mut preview_colors, colors.0);
    push_owned(&mut preview_colors, colors.1);
    push_owned(&mut preview_colors, colors.2);
    let m = ThemeMetadata {
        name: owned(name),
        display_name: owned(display_name),
        description: owned(description),
        author: owned("Rune"),
        version: owned("1.0.0"),
        icon: owned(icon),
        preview_colors,
        is_dark,
        mermaid_theme: if is_dark {
            owned("dark")
        } else {
            owned("default")
        },
    };
    assert(m@ =~= metadata_view(
        name@,
        display_name@,
        description@,
        icon@,
        seq![colors.0@, colors.1@, colors.2@],
        is_dark,
    ));
    m
}

/// Get theme metadata; an unknown theme is an error.
pub fn theme_metadata(theme_name: &str) -> (r: Result<ThemeMetadata, String>)
    ensures
        match spec_theme_metadata(theme_name@) {
            Some(m) => r matches Ok(x) && x@ == m,
            None => r matches Err(e) && e@ == "Unknown theme: "@ + theme_name@,
        },
{
    if str_eq(theme_name, "light") {
        Ok(
            make_metadata(
                theme_name,
                "Light",
                "Classic bright theme",
                "☀️",
                ("#fff", "#333", "#0366d6"),
                false,
            ),
        )
    } else if str_eq(theme_name, "dark") {
        Ok(
            make_metadata(
                theme_name,
                "Dark",
                "Classic dark theme",
                "🌙",
                ("#0d1117", "#e6edf3", "#58a6ff"),
                true,
            ),
        )
    } else if str_eq(theme_name, "catppuccin-latte") {
        Ok(
            make_metadata(
                theme_name,
                "Catppuccin Latte",
                "Warm light theme",
                "☕",
                ("#eff1f5", "#4c4f69", "#1e66f5"),
                false,
            ),
        )
    } else if str_eq(theme_name, "catppuccin-macchiato") {
        Ok(
            make_metadata(
                theme_name,
                "Catppuccin Macchiato",
                "Medium contrast theme",
                "🥛",
                ("#24273a", "#cad3f5", "#8aadf4"),
                true,
            ),
        )
    } else if str_eq(theme_name, "catppuccin-mocha") {
        Ok(
            make_metadata(
                theme_name,
                "Catppuccin Mocha",
                "Dark and cozy theme",
                "🐱",
                ("#1e1e2e", "#cdd6f4", "#89b4fa"),
                true,
            ),
        )
    } else {
        let mut e = owned("Unknown theme: ");
        push_str(&mut e, theme_name);
        Err(e)
    }
}

/// Raw markdown handler serving the file's text
#[derive(Debug)]
pub struct RawMarkdownHandler {
    path_pattern: String,
    markdown_file: PathBuf,
}

impl RawMarkdownHandler {
    /// Create a new raw markdown handler
    pub fn new(path_pattern: String, markdown_file: PathBuf) -> (h: Self)
        ensures
            h.pattern() == path_pattern@,
            h.file() == markdown_file,
    {
        Self { path_pattern, markdown_file }
    }

    pub closed spec fn pattern(&self) -> Seq<char> {
        self.path_pattern@
    }

    /// The markdown file it serves.
    pub closed spec fn file(&self) -> PathBuf {
        self.markdown_file
    }

    /// The path the handler serves.
    pub fn path_pattern(&self) -> (p: &str)
        ensures
            p@ == self.pattern(),
    {
        self.path_pattern.as_str()
    }

    /// The markdown file it serves.
    pub fn markdown_file(&self) -> (f: &PathBuf)
        ensures
            *f == self.file(),
    {
        &self.markdown_file
    }
}

} // verus!
