//! The browser editor's server side: the raw editor page, the sessions it
//! opens, and what each message on the editor WebSocket does to them and
//! sends back.
use vstd::prelude::*;


use crate::editor_page::{
    EDITOR_PAGE_BEFORE_CONTENT, EDITOR_PAGE_BEFORE_SESSION, EDITOR_PAGE_HEAD, EDITOR_PAGE_TAIL,
};
use crate::renderer::{markdown_html, to_html};
use crate::server::{CursorPosition, EditorMessage};
use crate::text::{chars_of, owned, push_char, push_str, str_eq};

verus! {

broadcast use vstd::string::group_string_axioms;

// ---------------------------------------------------------------------------
// The raw editor page
// ---------------------------------------------------------------------------

/// `c` as the page's text area shows it: `&`, `<` and `>` escaped.
pub open spec fn text_escape_char(c: char) -> Seq<char> {
    if c == '&' {
        "&amp;"@
    } else if c == '<' {
        "&lt;"@
    } else if c == '>' {
        "&gt;"@
    } else {
        seq![c]
    }
}

/// `s` with `&`, `<` and `>` escaped, as the text area shows it.
pub open spec fn text_escape(s: Seq<char>) -> Seq<char>
    decreases s.len(),
{
    if s.len() == 0 {
        seq![]
    } else {
        text_escape(s.drop_last()) + text_escape_char(s.last())
    }
}

/// The escaped content holds no `<` or `>`, so whatever the file holds it
/// cannot close the text area it is shown in.
pub proof fn lemma_text_escape_has_no_angles(s: Seq<char>)
    ensures
        forall|i: int| 0 <= i < text_escape(s).len() ==> text_escape(s)[i] != '<' && text_escape(s)[i]
            != '>',
    decreases s.len(),
{
    reveal_strlit("&amp;");
    reveal_strlit("&lt;");
    reveal_strlit("&gt;");
    if s.len() > 0 {
        lemma_text_escape_has_no_angles(s.drop_last());
        let a = text_escape(s.drop_last());
        let b = text_escape_char(s.last());
        assert forall|i: int| 0 <= i < text_escape(s).len() implies text_escape(s)[i] != '<'
            && text_escape(s)[i] != '>' by {
            if i >= a.len() {
                assert(text_escape(s)[i] == b[i - a.len()]);
            } else {
                assert(text_escape(s)[i] == a[i]);
            }
        }
    }
}

/// The editor page for the file named `file_name`, showing `content`, for
/// the session `session_id`.
pub open spec fn spec_editor_page(
    file_name: Seq<char>,
    content: Seq<char>,
    session_id: Seq<char>,
) -> Seq<char> {
    EDITOR_PAGE_HEAD@ + file_name + EDITOR_PAGE_BEFORE_CONTENT@ + text_escape(content)
        + EDITOR_PAGE_BEFORE_SESSION@ + session_id + EDITOR_PAGE_TAIL@
}

/// Appends `v` with `&`, `<` and `>` escaped.
fn push_text_escaped(s: &mut String, v: &[char])
    ensures
        final(s)@ == old(s)@ + text_escape(v@),
{
    let mut i: usize = 0;
    while i < v.len()
        invariant
            i <= v@.len(),
            s@ == old(s)@ + text_escape(v@.take(i as int)),
        decreases v@.len() - i,
    {
        let c = v[i];
        if c == '&' {
            push_str(s, "&amp;");
        } else if c == '<' {
            push_str(s, "&lt;");
        } else if c == '>' {
            push_str(s, "&gt;");
        } else {
            push_char(s, c);
        }
        proof {
            reveal_strlit("&amp;");
            reveal_strlit("&lt;");
            reveal_strlit("&gt;");
            assert(v@.take(i + 1).drop_last() =~= v@.take(i as int));
        }
        i += 1;
    }
    assert(v@.take(v@.len() as int) =~= v@);
}

/// The editor page for the file named `file_name`, showing `content`, for
/// the session `session_id`.
pub fn editor_page(file_name: &str, content: &str, session_id: &str) -> (r: String)
    ensures
        r@ == spec_editor_page(file_name@, content@, session_id@),
{
    let mut r = owned(EDITOR_PAGE_HEAD);
    push_str(&mut r, file_name);
    push_str(&mut r, EDITOR_PAGE_BEFORE_CONTENT);
    let v = chars_of(content);
    push_text_escaped(&mut r, v.as_slice());
    push_str(&mut r, EDITOR_PAGE_BEFORE_SESSION);
    push_str(&mut r, session_id);
    push_str(&mut r, EDITOR_PAGE_TAIL);
    r
}

/// The last component of the path `p`, as `Path::file_name` and
/// `to_string_lossy` give it, empty where the path has none.
pub uninterp spec fn path_file_name(p: Seq<char>) -> Seq<char>;

/// The file name of `path` (`Path::file_name`, then `to_string_lossy`), or
/// empty where the path has none: `path_file_name` of the path.
#[verifier::external_body]
pub(crate) fn file_name_lossy(path: &str) -> (r: String)
    ensures
        r@ == path_file_name(path@),
{
    std::path::Path::new(path).file_name().unwrap_or_default().to_string_lossy().into_owned()
}

/// Raw text editor handler for serving the editor interface
pub struct RawEditorHandler {
    path_pattern: String,
    markdown_file: String,
}

impl RawEditorHandler {
    pub closed spec fn pattern(&self) -> Seq<char> {
        self.path_pattern@
    }

    /// The path of the file the page edits.
    pub closed spec fn file(&self) -> Seq<char> {
        self.markdown_file@
    }

    /// Create a new raw editor handler
    pub fn new(path_pattern: String, markdown_file: String) -> (h: Self)
        ensures
            h.pattern() == path_pattern@,
            h.file() == markdown_file@,
    {
        Self { path_pattern, markdown_file }
    }

    /// The route pattern the page is served on.
    pub fn path_pattern(&self) -> (p: &str)
        ensures
            p@ == self.pattern(),
    {
        self.path_pattern.as_str()
    }

    /// The file the page edits.
    pub fn markdown_file(&self) -> (f: &str)
        ensures
            f@ == self.file(),
    {
        self.markdown_file.as_str()
    }

    /// Where this handler stands among the handlers of a route.
    pub fn priority(&self) -> (p: i32)
        ensures
            p == 5,
    {
        5
    }

    /// Generate the raw text editor page for `content` and `session_id`,
    /// titled with the edited file's name.
    pub fn generate_editor_html(&self, content: &str, session_id: &str) -> (r: String)
        ensures
            r@ == spec_editor_page(path_file_name(self.file()), content@, session_id@),
    {
        let file_name = file_name_lossy(self.markdown_file.as_str());
        editor_page(file_name.as_str(), content, session_id)
    }

    /// The session that serving the page opens: the page's id, on the
    /// edited file, with its content, the cursor at the start and nothing
    /// unsaved.
    pub fn open_session(&self, session_id: String, content: String) -> (s: EditorSession)
        ensures
            s@ == (SessionEntry {
                id: session_id@,
                content: content@,
                cursor: CursorPosition {
                    line: 0,
                    column: 0,
                    selection_start: None,
                    selection_end: None,
                },
                dirty: false,
                file: self.file(),
            }),
    {
        EditorSession {
            session_id,
            file_path: self.markdown_file.clone(),
            content,
            cursor_position: CursorPosition::default(),
            is_dirty: false,
        }
    }
}


// ---------------------------------------------------------------------------
// Editor sessions
// ---------------------------------------------------------------------------

/// Editor session data
pub struct EditorSession {
    pub session_id: String,
    pub file_path: String,
    pub content: String,
    pub cursor_position: CursorPosition,
    pub is_dirty: bool,
}

/// What a session holds.
pub struct SessionEntry {
    pub id: Seq<char>,
    pub content: Seq<char>,
    pub cursor: CursorPosition,
    pub dirty: bool,
    pub file: Seq<char>,
}

impl View for EditorSession {
    type V = SessionEntry;

    open spec fn view(&self) -> SessionEntry {
        SessionEntry {
            id: self.session_id@,
            content: self.content@,
            cursor: self.cursor_position,
            dirty: self.is_dirty,
            file: self.file_path@,
        }
    }
}

pub open spec fn entries(s: Seq<EditorSession>) -> Seq<SessionEntry> {
    s.map_values(|e: EditorSession| e@)
}

/// The first session of `ss` with the id `id`.
pub open spec fn session_index(ss: Seq<SessionEntry>, id: Seq<char>) -> Option<int>
    decreases ss.len(),
{
    if ss.len() == 0 {
        None
    } else {
        match session_index(ss.drop_last(), id) {
            Some(i) => Some(i),
            None => if ss.last().id == id {
                Some(ss.len() - 1)
            } else {
                None
            },
        }
    }
}

proof fn lemma_session_index(ss: Seq<SessionEntry>, id: Seq<char>)
    ensures
        session_index(ss, id) matches Some(i) ==> 0 <= i < ss.len() && ss[i].id == id && forall|
            k: int,
        |
            0 <= k < i ==> ss[k].id != id,
        session_index(ss, id) is None ==> forall|k: int| 0 <= k < ss.len() ==> ss[k].id != id,
    decreases ss.len(),
{
    if ss.len() > 0 {
        lemma_session_index(ss.drop_last(), id);
        assert forall|k: int| 0 <= k < ss.len() - 1 implies ss[k] == ss.drop_last()[k] by {}
    }
}

/// `session_index` reads the ids alone.
proof fn lemma_session_index_same_ids(a: Seq<SessionEntry>, b: Seq<SessionEntry>, id: Seq<char>)
    requires
        a.len() == b.len(),
        forall|j: int| 0 <= j < a.len() ==> a[j].id == b[j].id,
    ensures
        session_index(a, id) == session_index(b, id),
    decreases a.len(),
{
    if a.len() > 0 {
        assert forall|j: int| 0 <= j < a.len() - 1 implies a.drop_last()[j].id == b.drop_last()[j].id by {
            assert(a.drop_last()[j] == a[j] && b.drop_last()[j] == b[j]);
        }
        lemma_session_index_same_ids(a.drop_last(), b.drop_last(), id);
    }
}

/// The sessions after a content update for `id`: the session with that id
/// takes the content and cursor and becomes dirty; without one, a new dirty
/// session on `file` is added at the end.
pub open spec fn content_updated(
    ss: Seq<SessionEntry>,
    id: Seq<char>,
    content: Seq<char>,
    cursor: CursorPosition,
    file: Seq<char>,
) -> Seq<SessionEntry> {
    match session_index(ss, id) {
        Some(i) => ss.update(i, SessionEntry { content, cursor, dirty: true, ..ss[i] }),
        None => ss.push(SessionEntry { id, content, cursor, dirty: true, file }),
    }
}

/// The sessions after a save of `id`: that session, if any, is clean.
pub open spec fn marked_saved(ss: Seq<SessionEntry>, id: Seq<char>) -> Seq<SessionEntry> {
    match session_index(ss, id) {
        Some(i) => ss.update(i, SessionEntry { dirty: false, ..ss[i] }),
        None => ss,
    }
}

/// A save after a content update writes that update: the session it names
/// holds the content and cursor just sent and is dirty, every other session
/// is as it was, and once saved it is clean with the same content.
pub proof fn lemma_save_writes_last_update(
    ss: Seq<SessionEntry>,
    id: Seq<char>,
    content: Seq<char>,
    cursor: CursorPosition,
    file: Seq<char>,
    other: Seq<char>,
)
    ensures
        ({
            let u = content_updated(ss, id, content, cursor, file);
            &&& session_index(u, id) matches Some(i) && u[i].content == content && u[i].cursor
                == cursor && u[i].dirty
            &&& session_index(marked_saved(u, id), id) matches Some(i) && marked_saved(u, id)[i].content
                == content && !marked_saved(u, id)[i].dirty
            &&& other != id ==> session_index(u, other) == session_index(ss, other)
            &&& other != id ==> (session_index(ss, other) matches Some(j) ==> u[j] == ss[j])
        }),
{
    lemma_session_index(ss, id);
    lemma_session_index(ss, other);
    let u = content_updated(ss, id, content, cursor, file);
    match session_index(ss, id) {
        Some(i) => {
            lemma_session_index_same_ids(ss, u, id);
            lemma_session_index_same_ids(ss, u, other);
        },
        None => {
            assert(u.drop_last() =~= ss);
        },
    }
    lemma_session_index(u, id);
    let m = marked_saved(u, id);
    lemma_session_index_same_ids(u, m, id);
}

/// The error when no file is set for the editor.
pub open spec fn no_file_message() -> Seq<char> {
    "No markdown file set for editor"@
}

/// The ids of the sessions, in order.
pub open spec fn session_ids(ss: Seq<SessionEntry>) -> Seq<Seq<char>> {
    ss.map_values(|e: SessionEntry| e.id)
}

/// A name for how `{:?}` shows a list of session ids.
pub uninterp spec fn ids_debug(ids: Seq<Seq<char>>) -> Seq<char>;

/// `format!("{:?}", ids)` on the session ids. The rendering of the
/// standard library's `Debug` for a list of strings is not stated.
#[verifier::external_body]
fn debug_ids(ids: &Vec<&str>) -> (r: String)
    ensures
        r@ == ids_debug(ids@.map_values(|s: &str| s@)),
{
    format!("{:?}", ids)
}

/// The error when a save names an unknown session.
pub open spec fn session_not_found_message(id: Seq<char>, ss: Seq<SessionEntry>) -> Seq<char> {
    "Session not found: "@ + id + ". Available sessions: "@ + ids_debug(session_ids(ss))
}

/// The error when writing the file failed.
pub open spec fn save_failed_message(e: Seq<char>) -> Seq<char> {
    "Failed to save file: "@ + e
}

// ---------------------------------------------------------------------------
// What a message does
// ---------------------------------------------------------------------------

/// A reply to the client that sent a message (a JSON object).
pub enum EditorReply {
    /// `{"type": "click_to_edit_result", "session_id": .., "success": true}`
    ClickToEditResult { session_id: String },
    /// `{"type": "live_content_update", "session_id": .., "rendered_content": ..}`
    LiveContentUpdate { session_id: String, rendered_content: String },
    /// `{"type": "element_update_result", "session_id": .., "success": true}`
    ElementUpdateResult { session_id: String },
}

/// What the WebSocket does after a message.
pub enum EditorAction {
    /// Nothing to send
    Nothing,
    /// Broadcast `message` for `session_id` to every client
    Broadcast { session_id: String, message: EditorMessage },
    /// Reply to the sender
    Reply(EditorReply),
    /// Broadcast, then reply to the sender
    BroadcastAndReply { session_id: String, message: EditorMessage, reply: EditorReply },
    /// Write `content` to `file`, then report the outcome with
    /// `EditorWebSocketHandler::save_finished`
    Write { session_id: String, file: String, content: String },
    /// The message failed with this error
    Fail(String),
}

/// The placeholder a render trigger is answered with.
pub open spec fn live_placeholder() -> Seq<char> {
    "<p>Live rendered content would go here</p>"@
}

/// WebSocket handler for editor communication: its sessions, and the file
/// they edit once one is set.
pub struct EditorWebSocketHandler {
    path: String,
    editor_sessions: Vec<EditorSession>,
    markdown_file: Option<String>,
}

impl EditorWebSocketHandler {
    /// The sessions, in the order they were opened.
    pub closed spec fn sessions(&self) -> Seq<SessionEntry> {
        entries(self.editor_sessions@)
    }

    /// Whether a file is set.
    pub closed spec fn has_file(&self) -> bool {
        self.markdown_file is Some
    }

    /// The path of the file set, empty while there is none.
    pub closed spec fn file(&self) -> Seq<char> {
        match self.markdown_file {
            Some(p) => p@,
            None => seq![],
        }
    }

    pub closed spec fn spec_path(&self) -> Seq<char> {
        self.path@
    }

    /// Create a new editor WebSocket handler
    pub fn new(path: String) -> (h: Self)
        ensures
            h.spec_path() == path@,
            h.sessions() == Seq::<SessionEntry>::empty(),
            !h.has_file(),
    {
        let h = Self { path, editor_sessions: Vec::new(), markdown_file: None };
        assert(h.sessions() =~= Seq::<SessionEntry>::empty());
        h
    }

    /// The route this handler serves.
    pub fn path(&self) -> (p: &str)
        ensures
            p@ == self.spec_path(),
    {
        self.path.as_str()
    }

    /// Where this handler stands among the handlers of a route.
    pub fn priority(&self) -> (p: i32)
        ensures
            p == 5,
    {
        5
    }

    /// Set the current markdown file being edited
    pub fn set_markdown_file(&mut self, file_path: String)
        ensures
            final(self).has_file(),
            final(self).file() == file_path@,
            final(self).sessions() == old(self).sessions(),
            final(self).spec_path() == old(self).spec_path(),
    {
        self.markdown_file = Some(file_path);
    }

    /// The position of the session with the id `id`.
    fn find(&self, id: &str) -> (r: Option<usize>)
        ensures
            (r matches Some(i) ==> session_index(self.sessions(), id@) == Some(i as int) && i
                < self.editor_sessions@.len()),
            r is None ==> session_index(self.sessions(), id@) is None,
    {
        let ghost ss = self.sessions();
        let mut i: usize = 0;
        while i < self.editor_sessions.len()
            invariant
                ss == entries(self.editor_sessions@),
                i <= ss.len(),
                forall|k: int| 0 <= k < i ==> ss[k].id != id@,
            decreases ss.len() - i,
        {
            if str_eq(self.editor_sessions[i].session_id.as_str(), id) {
                proof {
                    assert(ss[i as int] == self.editor_sessions@[i as int]@);
                    lemma_session_index(ss, id@);
                }
                return Some(i);
            }
            assert(ss[i as int] == self.editor_sessions@[i as int]@);
            i += 1;
        }
        proof {
            lemma_session_index(ss, id@);
        }
        None
    }

    /// The session with the id `session_id`, if any.
    pub fn get_session(&self, session_id: &str) -> (r: Option<&EditorSession>)
        ensures
            match session_index(self.sessions(), session_id@) {
                Some(i) => r matches Some(s) && s@ == self.sessions()[i],
                None => r is None,
            },
    {
        match self.find(session_id) {
            Some(i) => Some(&self.editor_sessions[i]),
            None => None,
        }
    }

    /// The number of sessions.
    pub fn session_count(&self) -> (n: usize)
        ensures
            n == self.sessions().len(),
    {
        self.editor_sessions.len()
    }

    /// Handle content update message: with a file set, the session takes
    /// the content and cursor (a new session is opened for an unknown id)
    /// and is dirty; without one, the update fails and changes nothing.
    pub fn handle_content_update(
        &mut self,
        session_id: &str,
        content: String,
        cursor_position: CursorPosition,
    ) -> (r: Result<(), String>)
        ensures
            old(self).has_file() ==> r is Ok && final(self).sessions() == content_updated(
                old(self).sessions(),
                session_id@,
                content@,
                cursor_position,
                old(self).file(),
            ),
            !old(self).has_file() ==> (r matches Err(e) && e@ == no_file_message()
                && final(self).sessions() == old(self).sessions()),
            final(self).has_file() == old(self).has_file(),
            final(self).file() == old(self).file(),
            final(self).spec_path() == old(self).spec_path(),
    {
        let file_path = match &self.markdown_file {
            Some(p) => p.clone(),
            None => {
                return Err(owned("No markdown file set for editor"));
            },
        };
        let ghost ss = self.sessions();
        let ghost c = content@;
        match self.find(session_id) {
            Some(i) => {
                let mut s = self.editor_sessions.remove(i);
                s.content = content;
                s.is_dirty = true;
                s.cursor_position = cursor_position;
                self.editor_sessions.insert(i, s);
                assert(self.sessions() =~= ss.update(
                    i as int,
                    SessionEntry { content: c, cursor: cursor_position, dirty: true, ..ss[i as int] },
                ));
            },
            None => {
                self.editor_sessions.push(
                    EditorSession {
                        session_id: owned(session_id),
                        file_path,
                        content,
                        cursor_position,
                        is_dirty: true,
                    },
                );
                assert(self.sessions() =~= ss.push(
                    SessionEntry {
                        id: session_id@,
                        content: c,
                        cursor: cursor_position,
                        dirty: true,
                        file: self.file(),
                    },
                ));
            },
        }
        Ok(())
    }

    /// The save a save request asks for: the file and the session's
    /// content; without a file or without the session it fails.
    pub fn save_target(&self, session_id: &str) -> (r: Result<(String, String), String>)
        ensures
            !self.has_file() ==> (r matches Err(e) && e@ == no_file_message()),
            self.has_file() && session_index(self.sessions(), session_id@) is None ==> (r matches Err(
                e,
            ) && e@ == session_not_found_message(session_id@, self.sessions())),
            self.has_file() ==> (r is Ok <==> session_index(self.sessions(), session_id@) is Some),
            (r matches Ok((f, content)) ==> f@ == self.file() && content@ == self.sessions()[session_index(
                self.sessions(),
                session_id@,
            )->0].content),
    {
        let file_path = match &self.markdown_file {
            Some(p) => p.clone(),
            None => {
                return Err(owned("No markdown file set for editor"));
            },
        };
        match self.find(session_id) {
            Some(i) => {
                let content = owned(self.editor_sessions[i].content.as_str());
                Ok((file_path, content))
            },
            None => {
                let mut ids: Vec<&str> = Vec::new();
                let mut k: usize = 0;
                while k < self.editor_sessions.len()
                    invariant
                        k <= self.editor_sessions@.len(),
                        ids@.map_values(|s: &str| s@) == session_ids(
                            self.sessions(),
                        ).take(k as int),
                    decreases self.editor_sessions@.len() - k,
                {
                    let ghost before = ids@;
                    ids.push(self.editor_sessions[k].session_id.as_str());
                    assert(session_ids(self.sessions())[k as int]
                        == self.editor_sessions@[k as int].session_id@);
                    assert(ids@.map_values(|s: &str| s@) =~= before.map_values(|s: &str| s@).push(
                        self.editor_sessions@[k as int].session_id@,
                    ));
                    assert(ids@.map_values(|s: &str| s@) =~= session_ids(self.sessions()).take(
                        k + 1,
                    ));
                    k += 1;
                }
                assert(session_ids(self.sessions()).take(k as int) =~= session_ids(
                    self.sessions(),
                ));
                let mut e = owned("Session not found: ");
                push_str(&mut e, session_id);
                push_str(&mut e, ". Available sessions: ");
                let listed = debug_ids(&ids);
                push_str(&mut e, listed.as_str());
                Err(e)
            },
        }
    }

    /// Mark the session with the id `session_id`, if any, as saved.
    pub fn mark_saved(&mut self, session_id: &str)
        ensures
            final(self).sessions() == marked_saved(old(self).sessions(), session_id@),
            final(self).has_file() == old(self).has_file(),
            final(self).file() == old(self).file(),
            final(self).spec_path() == old(self).spec_path(),
    {
        let ghost ss = self.sessions();
        match self.find(session_id) {
            Some(i) => {
                let mut s = self.editor_sessions.remove(i);
                s.is_dirty = false;
                self.editor_sessions.insert(i, s);
                assert(self.sessions() =~= ss.update(
                    i as int,
                    SessionEntry { dirty: false, ..ss[i as int] },
                ));
            },
            None => {},
        }
    }

    /// What a message from a client does: a content update updates the
    /// session and is broadcast; a save request asks for the file to be
    /// written; a mode switch, an element update and an auto-save status are
    /// broadcast; markdown is rendered and the HTML broadcast; a click and a
    /// render trigger are answered; messages that only the server sends are
    /// ignored.
    pub fn on_message(&mut self, message: EditorMessage) -> (r: EditorAction)
        ensures
            final(self).has_file() == old(self).has_file(),
            final(self).file() == old(self).file(),
            final(self).spec_path() == old(self).spec_path(),
            match message {
                EditorMessage::ContentUpdate { session_id, content, cursor_position } => if old(
                    self,
                ).has_file() {
                    final(self).sessions() == content_updated(
                        old(self).sessions(),
                        session_id@,
                        content@,
                        cursor_position,
                        old(self).file(),
                    ) && (r matches EditorAction::Broadcast { session_id: s, message: m } && s@
                        == session_id@ && m == message)
                } else {
                    final(self).sessions() == old(self).sessions() && (r matches EditorAction::Fail(
                        e,
                    ) && e@ == no_file_message())
                },
                EditorMessage::SaveRequest { session_id } => final(self).sessions() == old(
                    self,
                ).sessions() && if !old(self).has_file() {
                    (r matches EditorAction::Fail(e) && e@ == no_file_message())
                } else {
                    match session_index(old(self).sessions(), session_id@) {
                        Some(i) => (r matches EditorAction::Write { session_id: s, file, content }
                            && s@ == session_id@ && file@ == old(self).file() && content@ == old(
                            self,
                        ).sessions()[i].content),
                        None => (r matches EditorAction::Fail(e) && e@ == session_not_found_message(
                            session_id@,
                            old(self).sessions(),
                        )),
                    }
                },
                EditorMessage::ModeSwitch { session_id, .. } => final(self).sessions() == old(
                    self,
                ).sessions() && (r matches EditorAction::Broadcast { session_id: s, message: m }
                    && s@ == session_id@ && m == message),
                EditorMessage::ClickToEdit { session_id, .. } => final(self).sessions() == old(
                    self,
                ).sessions() && (r matches EditorAction::Reply(
                    EditorReply::ClickToEditResult { session_id: s },
                ) && s@ == session_id@),
                EditorMessage::TriggerRender { session_id, .. } => final(self).sessions() == old(
                    self,
                ).sessions() && (r matches EditorAction::Reply(
                    EditorReply::LiveContentUpdate { session_id: s, rendered_content: h },
                ) && s@ == session_id@ && h@ == live_placeholder()),
                EditorMessage::RenderMarkdown { session_id, content } => final(self).sessions()
                    == old(self).sessions() && (r matches EditorAction::Broadcast {
                    session_id: s,
                    message: EditorMessage::MarkdownRendered { session_id: s2, html },
                } && s@ == session_id@ && s2@ == session_id@ && html@ == markdown_html(
                    content@,
                    false,
                )),
                EditorMessage::MarkdownRendered { .. } => final(self).sessions() == old(
                    self,
                ).sessions() && r is Nothing,
                EditorMessage::UpdateElement { session_id, .. } => final(self).sessions() == old(
                    self,
                ).sessions() && (r matches EditorAction::BroadcastAndReply {
                    session_id: s,
                    message: m,
                    reply: EditorReply::ElementUpdateResult { session_id: s2 },
                } && s@ == session_id@ && m == message && s2@ == session_id@),
                EditorMessage::AutoSaveStatus { session_id, .. } => final(self).sessions() == old(
                    self,
                ).sessions() && (r matches EditorAction::Broadcast { session_id: s, message: m }
                    && s@ == session_id@ && m == message),
                EditorMessage::SaveComplete { .. } => final(self).sessions() == old(
                    self,
                ).sessions() && r is Nothing,
            },
    {
        match &message {
            EditorMessage::ContentUpdate { session_id, content, cursor_position } => {
                let sid = owned(session_id.as_str());
                let c = owned(content.as_str());
                match self.handle_content_update(sid.as_str(), c, *cursor_position) {
                    Ok(()) => EditorAction::Broadcast { session_id: sid, message },
                    Err(e) => EditorAction::Fail(e),
                }
            },
            EditorMessage::SaveRequest { session_id } => {
                let sid = owned(session_id.as_str());
                match self.save_target(sid.as_str()) {
                    Ok((file, content)) => EditorAction::Write { session_id: sid, file, content },
                    Err(e) => EditorAction::Fail(e),
                }
            },
            EditorMessage::ModeSwitch { session_id, .. } => {
                let sid = owned(session_id.as_str());
                EditorAction::Broadcast { session_id: sid, message }
            },
            EditorMessage::ClickToEdit { session_id, .. } => {
                EditorAction::Reply(
                    EditorReply::ClickToEditResult { session_id: owned(session_id.as_str()) },
                )
            },
            EditorMessage::TriggerRender { session_id, .. } => {
                EditorAction::Reply(
                    EditorReply::LiveContentUpdate {
                        session_id: owned(session_id.as_str()),
                        rendered_content: owned("<p>Live rendered content would go here</p>"),
                    },
                )
            },
            EditorMessage::RenderMarkdown { session_id, content } => {
                let html = to_html(content.as_str(), false);
                EditorAction::Broadcast {
                    session_id: owned(session_id.as_str()),
                    message: EditorMessage::MarkdownRendered {
                        session_id: owned(session_id.as_str()),
                        html,
                    },
                }
            },
            EditorMessage::MarkdownRendered { .. } => EditorAction::Nothing,
            EditorMessage::UpdateElement { session_id, .. } => {
                let sid = owned(session_id.as_str());
                let reply = EditorReply::ElementUpdateResult { session_id: owned(session_id.as_str()) };
                EditorAction::BroadcastAndReply { session_id: sid, message, reply }
            },
            EditorMessage::AutoSaveStatus { session_id, .. } => {
                let sid = owned(session_id.as_str());
                EditorAction::Broadcast { session_id: sid, message }
            },
            EditorMessage::SaveComplete { .. } => EditorAction::Nothing,
        }
    }

    /// After the write a save asked for: a failed write fails the save; a
    /// written one marks the session saved and broadcasts that the save
    /// completed, at `timestamp`.
    pub fn save_finished(
        &mut self,
        session_id: &str,
        written: Result<(), String>,
        timestamp: String,
    ) -> (r: EditorAction)
        ensures
            final(self).has_file() == old(self).has_file(),
            final(self).file() == old(self).file(),
            final(self).spec_path() == old(self).spec_path(),
            match written {
                Ok(()) => final(self).sessions() == marked_saved(old(self).sessions(), session_id@)
                    && (r matches EditorAction::Broadcast {
                    session_id: s,
                    message: EditorMessage::SaveComplete { session_id: s2, success, timestamp: t },
                } && s@ == session_id@ && s2@ == session_id@ && success && t@ == timestamp@),
                Err(e) => final(self).sessions() == old(self).sessions() && (r matches EditorAction::Fail(
                    m,
                ) && m@ == save_failed_message(e@)),
            },
    {
        match written {
            Ok(()) => {
                self.mark_saved(session_id);
                EditorAction::Broadcast {
                    session_id: owned(session_id),
                    message: EditorMessage::SaveComplete {
                        session_id: owned(session_id),
                        success: true,
                        timestamp,
                    },
                }
            },
            Err(e) => {
                let mut m = owned("Failed to save file: ");
                push_str(&mut m, e.as_str());
                EditorAction::Fail(m)
            },
        }
    }
}

} // verus!
