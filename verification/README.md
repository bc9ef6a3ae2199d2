# rune_editor

A markdown live editor's core, written in Verus. The functions in `src/`
are verified against their `requires`/`ensures` contracts, except the small
trusted wrappers (`#[verifier::external_body]`) that make one call into std,
`markdown`, `html-escape` or `uuid` each: their contracts are assumed, and
each one's doc comment says what it claims of the call. The properties that
span several calls are stated and proved as public proof functions.

## Layout

- `src/text.rs` — the text model: characters and their UTF-8 byte lengths
  (cursor positions, columns and content lengths count bytes, as `str`
  does), whitespace, `str::lines`-style lines, joining, decimal and hexadecimal numbers, HTML escaping, searching.
- `src/syntax_parser.rs` — markdown elements (headers, emphasis, code, links,
  list items) with their positions; `src/syntax_highlighter.rs` — tokens for
  raw-mode highlighting.
- `src/editor_state.rs`, `src/cursor_manager.rs`, `src/inline_renderer.rs`,
  `src/live_editor.rs`, `src/keyboard_shortcuts.rs`, `src/render_trigger.rs`
  — the editor: content and dirty tracking, cursor mapping between raw and
  rendered text, inline rendering, click-to-edit, shortcuts, render triggers.
- `src/session.rs` — editor sessions and the session manager;
  `src/file_sync.rs` — conflict resolution for external changes.
- `src/renderer.rs`, `src/markdown_page.rs` — markdown to HTML (through the
  `markdown` crate) and the mermaid pass; the page template, title and word
  count.
- `src/server.rs`, `src/routing.rs`, `src/editor_handlers.rs`,
  `src/editor_page.rs` — responses, static files, theme routes, handler
  routing by priority, and the browser editor's WebSocket protocol.
- `src/theme.rs` — themes, the built-in themes and the theme provider.
- `src/file_watcher.rs` — watched paths, debouncing of change events and the
  watcher's error handling.
- `src/cli.rs` — the command line's checks and messages;
  `src/config_check.rs` — the check of a loaded configuration (server
  settings, plugin errors and warnings, missing dependencies).
- `src/simple_live_editor.rs` — the live editor page and its escaping;
  `src/mermaid.rs` — serving Mermaid.js with its version tag.
- `src/clock.rs` — the clock, behind trusted wrappers.

`app/` is the `rune` command around the library: argument parsing, the file
system and network checks, plugin directory listing, and the JSON forms of
the WebSocket messages. It is ordinary Rust and is not verified.
