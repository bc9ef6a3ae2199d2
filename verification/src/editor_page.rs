//! The raw text editor page: a text area with the file's content, which
//! talks to the editor WebSocket of its session.
use vstd::prelude::*;

verus! {

/// The editor page up to the file name in its title bar.
pub const EDITOR_PAGE_HEAD: &'static str = r##"<!DOCTYPE html>
<html lang="en">
<head>
    <meta charset="UTF-8">
    <meta name="viewport" content="width=device-width, initial-scale=1.0">
    <title>Raw Text Editor</title>
    <style>
        * { margin: 0; padding: 0; box-sizing: border-box; }
        body { 
            font-family: 'Monaco', 'Menlo', 'Ubuntu Mono', monospace;
            background: var(--bg-color, #1e1e2e);
            color: var(--text-color, #cdd6f4);
            height: 100vh;
            display: flex;
            flex-direction: column;
        }
        .editor-header {
            background: var(--code-bg, #181825);
            border-bottom: 1px solid var(--border-color, #45475a);
            padding: 8px 16px;
            display: flex;
            justify-content: space-between;
            align-items: center;
        }
        .editor-title { font-weight: bold; font-size: 14px; }
        .editor-controls { display: flex; gap: 8px; }
        .btn {
            background: var(--link-color, #89b4fa);
            color: var(--bg-color, #1e1e2e);
            border: none;
            padding: 4px 12px;
            border-radius: 4px;
            cursor: pointer;
            font-size: 12px;
            font-weight: 500;
        }
        .btn:hover { opacity: 0.8; }
        .btn.secondary {
            background: var(--border-color, #45475a);
            color: var(--text-color, #cdd6f4);
        }
        .editor-container { flex: 1; display: flex; flex-direction: column; }
        .editor-textarea {
            flex: 1;
            width: 100%;
            background: var(--bg-color, #1e1e2e);
            color: var(--text-color, #cdd6f4);
            border: none;
            outline: none;
            padding: 16px;
            font-family: inherit;
            font-size: 14px;
            line-height: 1.5;
            resize: none;
            tab-size: 4;
        }
        .status-bar {
            background: var(--code-bg, #181825);
            border-top: 1px solid var(--border-color, #45475a);
            padding: 4px 16px;
            font-size: 12px;
            display: flex;
            justify-content: space-between;
            align-items: center;
        }
        .status-info { display: flex; gap: 16px; }
        .dirty-indicator { color: var(--link-color, #89b4fa); font-weight: bold; }
        .auto-save-indicator { 
            color: var(--text-color, #cdd6f4); 
            font-size: 11px; 
            opacity: 0.7;
        }
        .auto-save-indicator.saving { 
            color: var(--link-color, #89b4fa); 
            opacity: 1;
        }
        .auto-save-indicator.saved { 
            color: #a6e3a1; 
            opacity: 1;
        }
    </style>
</head>
<body>
    <div class="editor-header">
        <div class="editor-title">Raw Text Editor - "##;

/// The editor page from the file name to the text area's content.
pub const EDITOR_PAGE_BEFORE_CONTENT: &'static str = r##"</div>
        <div class="editor-controls">
            <button class="btn secondary" onclick="switchToLive()">Live Mode</button>
            <button class="btn" onclick="saveContent()">Save (Ctrl+S)</button>
        </div>
    </div>
    <div class="editor-container">
        <textarea id="editor" class="editor-textarea" spellcheck="false">"##;

/// The editor page from the text area's content to the session id.
pub const EDITOR_PAGE_BEFORE_SESSION: &'static str = r##"</textarea>
    </div>
    <div class="status-bar">
        <div class="status-info">
            <span id="cursor-position">Line 1, Column 1</span>
            <span id="word-count">0 words</span>
            <span id="dirty-status" class="dirty-indicator" style="display: none;">●</span>
            <span id="auto-save-status" class="auto-save-indicator">Auto-save enabled</span>
        </div>
        <div>Raw Mode</div>
    </div>
    <script>
        const sessionId = '"##;

/// The rest of the editor page, after the session id.
pub const EDITOR_PAGE_TAIL: &'static str = r##"';
        const editor = document.getElementById('editor');
        let isDirty = false;
        let ws = null;
        let autoSaveEnabled = true;
        let autoSaveTimer = null;
        let lastSaveTime = null;
        
        function initWebSocket() {
            const protocol = window.location.protocol === 'https:' ? 'wss:' : 'ws:';
            const wsUrl = `${protocol}//${window.location.host}/ws/editor`;
            ws = new WebSocket(wsUrl);
            ws.onopen = () => console.log('Editor WebSocket connected');
            ws.onclose = () => setTimeout(initWebSocket, 1000);
            ws.onmessage = handleWebSocketMessage;
        }
        
        function handleWebSocketMessage(event) {
            try {
                const message = JSON.parse(event.data);
                switch (message.type) {
                    case 'save_complete':
                        if (message.session_id === sessionId) {
                            setDirty(false);
                            updateAutoSaveStatus('saved');
                            lastSaveTime = new Date(message.timestamp);
                        }
                        break;
                    case 'auto_save_status':
                        if (message.session_id === sessionId) {
                            autoSaveEnabled = message.enabled;
                            updateAutoSaveStatus(message.pending_save ? 'saving' : 'idle');
                        }
                        break;
                }
            } catch (e) {
                console.error('Failed to parse WebSocket message:', e);
            }
        }
        
        function sendMessage(message) {
            if (ws && ws.readyState === WebSocket.OPEN) {
                ws.send(JSON.stringify(message));
            }
        }
        
        function updateStatus() {
            const text = editor.value;
            const cursorPos = editor.selectionStart;
            const textBeforeCursor = text.substring(0, cursorPos);
            const lines = textBeforeCursor.split('\\n');
            const line = lines.length;
            const column = lines[lines.length - 1].length + 1;
            
            document.getElementById('cursor-position').textContent = `Line ${line}, Column ${column}`;
            const words = text.trim() ? text.trim().split(/\\s+/).length : 0;
            document.getElementById('word-count').textContent = `${words} words`;
        }
        
        function setDirty(dirty) {
            isDirty = dirty;
            document.getElementById('dirty-status').style.display = dirty ? 'inline' : 'none';
            
            if (dirty && autoSaveEnabled) {
                startAutoSaveTimer();
            } else if (!dirty) {
                clearAutoSaveTimer();
            }
        }
        
        function startAutoSaveTimer() {
            clearAutoSaveTimer();
            updateAutoSaveStatus('pending');
            
            autoSaveTimer = setTimeout(() => {
                if (isDirty && autoSaveEnabled) {
                    updateAutoSaveStatus('saving');
                    saveContent(true); // true indicates auto-save
                }
            }, 2000); // 2-second delay as per requirements
        }
        
        function clearAutoSaveTimer() {
            if (autoSaveTimer) {
                clearTimeout(autoSaveTimer);
                autoSaveTimer = null;
            }
        }
        
        function updateAutoSaveStatus(status) {
            const statusElement = document.getElementById('auto-save-status');
            statusElement.className = 'auto-save-indicator';
            
            switch (status) {
                case 'pending':
                    statusElement.textContent = 'Auto-save in 2s...';
                    break;
                case 'saving':
                    statusElement.textContent = 'Saving...';
                    statusElement.classList.add('saving');
                    break;
                case 'saved':
                    statusElement.textContent = 'Saved';
                    statusElement.classList.add('saved');
                    setTimeout(() => {
                        statusElement.textContent = 'Auto-save enabled';
                        statusElement.className = 'auto-save-indicator';
                    }, 2000);
                    break;
                case 'idle':
                default:
                    statusElement.textContent = autoSaveEnabled ? 'Auto-save enabled' : 'Auto-save disabled';
                    break;
            }
        }
        
        function saveContent(isAutoSave = false) {
            const content = editor.value;
            sendMessage({ type: 'content_update', session_id: sessionId, content: content, cursor_position: { line: 0, column: 0 } });
            sendMessage({ type: 'save_request', session_id: sessionId });
            
            if (!isAutoSave) {
                clearAutoSaveTimer();
            }
        }
        
        function switchToLive() {
            sendMessage({ type: 'mode_switch', session_id: sessionId, mode: 'live' });
            window.location.href = '/';
        }
        
        editor.addEventListener('input', () => {
            setDirty(true);
            updateStatus();
        });
        
        editor.addEventListener('click', updateStatus);
        editor.addEventListener('keyup', updateStatus);
        
        document.addEventListener('keydown', (e) => {
            if (e.ctrlKey || e.metaKey) {
                if (e.key === 's') { e.preventDefault(); saveContent(); }
                if (e.key === 'l') { e.preventDefault(); switchToLive(); }
            }
            if (e.key === 'Tab') {
                e.preventDefault();
                const start = editor.selectionStart;
                const end = editor.selectionEnd;
                editor.value = editor.value.substring(0, start) + '\\t' + editor.value.substring(end);
                editor.selectionStart = editor.selectionEnd = start + 1;
                setDirty(true);
                updateStatus();
            }
        });
        
        // Browser warning for unsaved changes
        window.addEventListener('beforeunload', (e) => {
            if (isDirty) {
                const message = 'You have unsaved changes. Are you sure you want to leave?';
                e.preventDefault();
                e.returnValue = message;
                return message;
            }
        });
        
        initWebSocket();
        updateStatus();
        editor.focus();
    </script>
</body>
</html>"##;


} // verus!
