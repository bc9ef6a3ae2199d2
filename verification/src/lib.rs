pub mod clock;
pub mod text;
pub mod syntax_parser;
pub mod editor_state;
pub mod inline_renderer;
pub mod cursor_manager;
pub mod keyboard_shortcuts;
pub mod render_trigger;
pub mod syntax_highlighter;
pub mod live_editor;
pub mod file_sync;
pub mod theme;
pub mod server;
pub mod session;
pub mod renderer;
pub mod editor_page;
pub mod editor_handlers;
pub mod file_watcher;
pub mod cli;
pub mod markdown_page;
pub mod routing;
pub mod simple_live_editor;
pub mod config_check;
pub mod mermaid;
