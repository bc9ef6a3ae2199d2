//! The live editor page: the file's text beside its live preview, which
//! talks to the editor WebSocket of its session.
use vstd::prelude::*;

use crate::editor_handlers::{file_name_lossy, path_file_name};
use crate::text::{chars_of, owned, push_char, push_str};

verus! {

/// The live editor page up to the file name in its title.
pub const SIMPLE_PAGE_HEAD: &'static str = r##"<!DOCTYPE html>
<html lang="en">
<head>
    <meta charset="UTF-8">
    <meta name="viewport" content="width=device-width, initial-scale=1.0">
    <title>Simple Live Editor - "##;

/// From the title to the file name in the header bar.
pub const SIMPLE_PAGE_BEFORE_HEADER_NAME: &'static str = r##"</title>
    <style>
        * { margin: 0; padding: 0; box-sizing: border-box; }
        body { 
            font-family: -apple-system, BlinkMacSystemFont, 'Segoe UI', Roboto, sans-serif;
            background: #1e1e2e;
            color: #cdd6f4;
            height: 100vh;
            display: flex;
            flex-direction: column;
        }
        .editor-header {
            background: #181825;
            border-bottom: 1px solid #45475a;
            padding: 12px 16px;
            display: flex;
            justify-content: space-between;
            align-items: center;
        }
        .editor-title { font-weight: bold; }
        .editor-controls { display: flex; gap: 8px; }
        .btn {
            background: #89b4fa;
            color: #1e1e2e;
            border: none;
            padding: 8px 16px;
            border-radius: 6px;
            cursor: pointer;
            font-size: 14px;
            font-weight: 500;
        }
        .btn:hover { opacity: 0.8; }
        .btn.secondary {
            background: #45475a;
            color: #cdd6f4;
        }
        .editor-container { 
            flex: 1; 
            display: flex; 
            overflow: hidden;
        }
        .markdown-editor {
            flex: 1;
            background: #1e1e2e;
            color: #cdd6f4;
            border: none;
            outline: none;
            padding: 20px;
            font-family: 'Monaco', 'Menlo', 'Ubuntu Mono', monospace;
            font-size: 14px;
            line-height: 1.6;
            resize: none;
            tab-size: 2;
        }
        .preview-panel {
            flex: 1;
            background: #1e1e2e;
            border-left: 1px solid #45475a;
            padding: 20px;
            overflow-y: auto;
        }
        .status-bar {
            background: #181825;
            border-top: 1px solid #45475a;
            padding: 8px 16px;
            font-size: 12px;
            display: flex;
            justify-content: space-between;
            align-items: center;
        }
        .status-info { display: flex; gap: 16px; }
        .dirty-indicator { color: #89b4fa; font-weight: bold; }
        .save-status {
            padding: 4px 8px;
            border-radius: 4px;
            font-size: 11px;
        }
        .save-status.saving { background: #89b4fa; color: #1e1e2e; }
        .save-status.saved { background: #a6e3a1; color: #1e1e2e; }
        .save-status.error { background: #f38ba8; color: #1e1e2e; }
        
        /* Markdown 预览样式 */
        .preview-panel h1 { font-size: 2em; margin: 0.5em 0; border-bottom: 2px solid #45475a; }
        .preview-panel h2 { font-size: 1.5em; margin: 0.5em 0; border-bottom: 1px solid #45475a; }
        .preview-panel h3 { font-size: 1.17em; margin: 0.5em 0; }
        .preview-panel h4 { font-size: 1em; margin: 0.5em 0; font-weight: bold; }
        .preview-panel p { margin: 1em 0; line-height: 1.6; }
        .preview-panel ul, .preview-panel ol { margin: 1em 0; padding-left: 2em; }
        .preview-panel li { margin: 0.5em 0; }
        .preview-panel code {
            background: #181825;
            padding: 2px 4px;
            border-radius: 3px;
            font-family: 'Monaco', 'Menlo', 'Ubuntu Mono', monospace;
        }
        .preview-panel pre {
            background: #181825;
            padding: 1em;
            border-radius: 6px;
            overflow-x: auto;
            margin: 1em 0;
        }
        .preview-panel blockquote {
            border-left: 4px solid #89b4fa;
            padding-left: 1em;
            margin: 1em 0;
            font-style: italic;
        }
        .preview-panel a { color: #89b4fa; text-decoration: underline; }
        .preview-panel strong { font-weight: bold; }
        .preview-panel em { font-style: italic; }
    </style>
</head>
<body>
    <div class="editor-header">
        <div class="editor-title">Live Markdown Editor - "##;

/// From the header bar to the text area's content.
pub const SIMPLE_PAGE_BEFORE_TEXTAREA: &'static str = r##"</div>
        <div class="editor-controls">
            <button class="btn secondary" onclick="switchToRaw()">Raw Mode</button>
            <button class="btn" onclick="saveContent()">Save (Ctrl+S)</button>
        </div>
    </div>
    <div class="editor-container">
        <textarea id="markdown-editor" class="markdown-editor" placeholder="Enter your markdown here...">"##;

/// From the text area to the session id.
pub const SIMPLE_PAGE_BEFORE_SESSION: &'static str = r##"</textarea>
        <div id="preview-panel" class="preview-panel"></div>
    </div>
    <div class="status-bar">
        <div class="status-info">
            <span id="cursor-position">Line 1, Column 1</span>
            <span id="word-count">0 words</span>
            <span id="dirty-status" class="dirty-indicator" style="display: none;">● Unsaved changes</span>
        </div>
        <div>
            <span id="save-status" class="save-status">Ready</span>
        </div>
    </div>

    <script>
        const sessionId = '"##;

/// From the session id to the content kept as the last saved text.
pub const SIMPLE_PAGE_BEFORE_ORIGINAL: &'static str = r##"';
        const editor = document.getElementById('markdown-editor');
        const previewPanel = document.getElementById('preview-panel');
        let isDirty = false;
        let ws = null;
        let autoSaveTimer = null;
        let originalContent = `"##;

/// The rest of the page.
pub const SIMPLE_PAGE_TAIL: &'static str = r##"`;
        
        function initWebSocket() {
            const protocol = window.location.protocol === 'https:' ? 'wss:' : 'ws:';
            const wsUrl = `${protocol}//${window.location.host}/ws/editor`;
            ws = new WebSocket(wsUrl);
            
            ws.onopen = () => {
                console.log('Editor WebSocket connected');
                updateSaveStatus('connected', 'Connected');
            };
            
            ws.onclose = () => {
                console.log('WebSocket disconnected, reconnecting...');
                updateSaveStatus('error', 'Disconnected');
                setTimeout(initWebSocket, 1000);
            };
            
            ws.onmessage = handleWebSocketMessage;
            
            ws.onerror = (error) => {
                console.error('WebSocket error:', error);
                updateSaveStatus('error', 'Connection error');
            };
        }
        
        function handleWebSocketMessage(event) {
            try {
                const message = JSON.parse(event.data);
                console.log('Received message:', message);
                
                switch (message.type) {
                    case 'save_complete':
                        if (message.session_id === sessionId) {
                            setDirty(false);
                            updateSaveStatus('saved', 'Saved');
                            originalContent = editor.value;
                            
                            // Clear save status after 2 seconds
                            setTimeout(() => {
                                updateSaveStatus('', 'Ready');
                            }, 2000);
                        }
                        break;
                    default:
                        console.log('Unknown message type:', message.type);
                }
            } catch (e) {
                console.error('Failed to parse WebSocket message:', e);
            }
        }
        
        function sendMessage(message) {
            if (ws && ws.readyState === WebSocket.OPEN) {
                ws.send(JSON.stringify(message));
                return true;
            } else {
                console.error('WebSocket not connected');
                updateSaveStatus('error', 'Not connected');
                return false;
            }
        }
        
        function updateStatus() {
            const text = editor.value;
            const lines = text.split('\\n');
            const currentLine = getCurrentLine();
            const currentCol = getCurrentColumn();
            
            const words = text.trim() ? text.trim().split(/\\s+/).length : 0;
            
            document.getElementById('cursor-position').textContent = `Line ${currentLine}, Column ${currentCol}`;
            document.getElementById('word-count').textContent = `${words} words`;
            
            // Update preview
            updatePreview(text);
        }
        
        function getCurrentLine() {
            const cursorPos = editor.selectionStart;
            const textBeforeCursor = editor.value.substring(0, cursorPos);
            return textBeforeCursor.split('\\n').length;
        }
        
        function getCurrentColumn() {
            const cursorPos = editor.selectionStart;
            const textBeforeCursor = editor.value.substring(0, cursorPos);
            const lastLineBreak = textBeforeCursor.lastIndexOf('\\n');
            return cursorPos - lastLineBreak;
        }
        
        function setDirty(dirty) {
            isDirty = dirty;
            document.getElementById('dirty-status').style.display = dirty ? 'inline' : 'none';
            
            if (dirty) {
                startAutoSave();
            }
        }
        
        function startAutoSave() {
            if (autoSaveTimer) {
                clearTimeout(autoSaveTimer);
            }
            
            autoSaveTimer = setTimeout(() => {
                if (isDirty) {
                    saveContent(true);
                }
            }, 2000); // Auto-save after 2 seconds of no changes
        }
        
        function updateSaveStatus(type, text) {
            const statusElement = document.getElementById('save-status');
            statusElement.textContent = text;
            statusElement.className = `save-status ${type}`;
        }
        
        function saveContent(isAutoSave = false) {
            const content = editor.value;
            
            if (!sendMessage({
                type: 'content_update',
                session_id: sessionId,
                content: content,
                cursor_position: {
                    line: getCurrentLine(),
                    column: getCurrentColumn()
                }
            })) {
                return;
            }
            
            if (!sendMessage({
                type: 'save_request',
                session_id: sessionId
            })) {
                return;
            }
            
            updateSaveStatus('saving', isAutoSave ? 'Auto-saving...' : 'Saving...');
            
            if (autoSaveTimer) {
                clearTimeout(autoSaveTimer);
                autoSaveTimer = null;
            }
        }
        
        function switchToRaw() {
            window.location.href = '/editor';
        }
        
        function handleContentChange() {
            const currentContent = editor.value;
            if (currentContent !== originalContent) {
                setDirty(true);
            } else {
                setDirty(false);
            }
            updateStatus();
        }
        
        // 使用服务端Quill引擎渲染markdown 
        async function updatePreview(markdown) {
            try {
                const response = await fetch('/api/render-markdown', {
                    method: 'POST',
                    headers: {
                        'Content-Type': 'application/json',
                    },
                    body: JSON.stringify({ 
                        markdown: markdown
                    })
                });
                
                if (response.ok) {
                    const result = await response.json();
                    if (result.success) {
                        previewPanel.innerHTML = result.html;
                    } else {
                        console.error('API returned error:', result.error);
                        fallbackRender(markdown);
                    }
                } else {
                    console.error('Failed to render markdown:', response.statusText);
                    // 回退到简单渲染
                    fallbackRender(markdown);
                }
            } catch (error) {
                console.error('Error rendering markdown:', error);
                // 回退到简单渲染
                fallbackRender(markdown);
            }
        }
        
        // 简单的回退渲染（保留原有逻辑作为备份）
        function fallbackRender(markdown) {
            let html = markdown;
            
            // Headers
            html = html.replace(/^# (.+$)/gm, '<h1>$1</h1>');
            html = html.replace(/^## (.+$)/gm, '<h2>$1</h2>');
            html = html.replace(/^### (.+$)/gm, '<h3>$1</h3>');
            html = html.replace(/^#### (.+$)/gm, '<h4>$1</h4>');
            
            // Bold and italic
            html = html.replace(/\*\*(.+?)\*\*/g, '<strong>$1</strong>');
            html = html.replace(/\*(.+?)\*/g, '<em>$1</em>');
            
            // Code
            html = html.replace(/`(.+?)`/g, '<code>$1</code>');
            
            // Links
            html = html.replace(/\[(.+?)\]\((.+?)\)/g, '<a href="$2">$1</a>');
            
            // Lists
            html = html.replace(/^- (.+$)/gm, '<li>$1</li>');
            html = html.replace(/(<li>.*<\/li>)/s, '<ul>$1</ul>');
            
            // Paragraphs
            html = html.replace(/^(?!<[h|u|l]).+$/gm, '<p>$&</p>');
            
            // Line breaks
            html = html.replace(/\\n/g, '<br>');
            
            previewPanel.innerHTML = html;
        }
        
        // Event listeners
        editor.addEventListener('input', handleContentChange);
        editor.addEventListener('keyup', updateStatus);
        editor.addEventListener('click', updateStatus);
        
        // Keyboard shortcuts
        document.addEventListener('keydown', (e) => {
            if (e.ctrlKey || e.metaKey) {
                if (e.key === 's') {
                    e.preventDefault();
                    saveContent();
                }
            }
        });
        
        // Tab key support
        editor.addEventListener('keydown', (e) => {
            if (e.key === 'Tab') {
                e.preventDefault();
                const start = editor.selectionStart;
                const end = editor.selectionEnd;
                
                editor.value = editor.value.substring(0, start) + '  ' + editor.value.substring(end);
                editor.selectionStart = editor.selectionEnd = start + 2;
                
                handleContentChange();
            }
        });
        
        // Warning for unsaved changes
        window.addEventListener('beforeunload', (e) => {
            if (isDirty) {
                const message = 'You have unsaved changes. Are you sure you want to leave?';
                e.preventDefault();
                e.returnValue = message;
                return message;
            }
        });
        
        // Initialize
        initWebSocket();
        updateStatus();
        editor.focus();
    </script>
</body>
</html>"##;

/// How `c` is written inside a JavaScript template literal: a backslash,
/// a backtick and a dollar sign are escaped with a backslash.
pub open spec fn js_escape_char(c: char) -> Seq<char> {
    if c == '\\' || c == '`' || c == '$' {
        seq!['\\', c]
    } else {
        seq![c]
    }
}

/// `s` escaped for a JavaScript template literal.
pub open spec fn js_escape(s: Seq<char>) -> Seq<char>
    decreases s.len(),
{
    if s.len() == 0 {
        seq![]
    } else {
        js_escape(s.drop_last()) + js_escape_char(s.last())
    }
}

/// The live editor page for the file named `file_name`, for the session
/// `session_id`: the content, escaped for a template literal, fills the
/// text area and is kept as the last saved text.
pub open spec fn spec_simple_live_editor_page(
    content: Seq<char>,
    session_id: Seq<char>,
    file_name: Seq<char>,
) -> Seq<char> {
    SIMPLE_PAGE_HEAD@ + file_name + SIMPLE_PAGE_BEFORE_HEADER_NAME@ + file_name
        + SIMPLE_PAGE_BEFORE_TEXTAREA@ + js_escape(content) + SIMPLE_PAGE_BEFORE_SESSION@
        + session_id + SIMPLE_PAGE_BEFORE_ORIGINAL@ + js_escape(content) + SIMPLE_PAGE_TAIL@
}

/// Appends `v` escaped for a template literal.
fn push_js_escaped(s: &mut String, v: &[char])
    ensures
        final(s)@ == old(s)@ + js_escape(v@),
{
    let mut i: usize = 0;
    while i < v.len()
        invariant
            i <= v@.len(),
            s@ == old(s)@ + js_escape(v@.take(i as int)),
        decreases v@.len() - i,
    {
        let c = v[i];
        if c == '\\' || c == '`' || c == '$' {
            push_char(s, '\\');
        }
        push_char(s, c);
        proof {
            assert(v@.take(i + 1).drop_last() =~= v@.take(i as int));
            assert(js_escape(v@.take(i + 1)) =~= js_escape(v@.take(i as int)) + js_escape_char(c));
        }
        i += 1;
    }
    assert(v@.take(v@.len() as int) =~= v@);
}

/// The live editor page for `content`, the session `session_id` and the
/// file named `file_name`.
pub fn simple_live_editor_page(content: &str, session_id: &str, file_name: &str) -> (r: String)
    ensures
        r@ == spec_simple_live_editor_page(content@, session_id@, file_name@),
{
    let v = chars_of(content);
    let mut r = owned(SIMPLE_PAGE_HEAD);
    push_str(&mut r, file_name);
    push_str(&mut r, SIMPLE_PAGE_BEFORE_HEADER_NAME);
    push_str(&mut r, file_name);
    push_str(&mut r, SIMPLE_PAGE_BEFORE_TEXTAREA);
    push_js_escaped(&mut r, v.as_slice());
    push_str(&mut r, SIMPLE_PAGE_BEFORE_SESSION);
    push_str(&mut r, session_id);
    push_str(&mut r, SIMPLE_PAGE_BEFORE_ORIGINAL);
    push_js_escaped(&mut r, v.as_slice());
    push_str(&mut r, SIMPLE_PAGE_TAIL);
    r
}

/// Simple live editor handler: the page for one markdown file.
pub struct SimpleLiveEditorHandler {
    path_pattern: String,
    markdown_file: String,
}

impl SimpleLiveEditorHandler {
    pub closed spec fn pattern(&self) -> Seq<char> {
        self.path_pattern@
    }

    /// The path of the file the page edits.
    pub closed spec fn file(&self) -> Seq<char> {
        self.markdown_file@
    }

    /// A handler serving the page for `markdown_file` on `path_pattern`.
    pub fn new(path_pattern: String, markdown_file: String) -> (h: Self)
        ensures
            h.pattern() == path_pattern@,
            h.file() == markdown_file@,
    {
        Self { path_pattern, markdown_file }
    }

    /// The route pattern the page is served on.
    pub fn path_pattern(&self) -> (p: &str)
        ensures
            p@ == self.pattern(),
    {
        self.path_pattern.as_str()
    }

    /// The live editor page for `content` and `session_id`, titled with the
    /// edited file's name.
    pub fn generate_simple_live_editor_html(&self, content: &str, session_id: &str) -> (r: String)
        ensures
            r@ == spec_simple_live_editor_page(content@, session_id@, path_file_name(self.file())),
    {
        let file_name = file_name_lossy(self.markdown_file.as_str());
        simple_live_editor_page(content, session_id, file_name.as_str())
    }
}

} // verus!
