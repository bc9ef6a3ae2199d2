use std::path::PathBuf;

use rune_editor::server::{
    content_type_for_extension, invalid_theme_message, is_valid_theme, requested_path,
    route_theme_asset, theme_metadata, HttpResponse, ServerConfig, StaticCheck, StaticHandler,
    ThemeAssetRoute,
};
use rune_editor::routing::Method;

#[test]
fn test_server_config_default() {
    let config = ServerConfig::default();
    assert_eq!(config.hostname, "127.0.0.1");
    assert_eq!(config.port, 3000);
    assert!(config.enable_cors);
}

#[test]
fn test_static_handler_content_type_guessing() {
    let handler = StaticHandler::new(PathBuf::from("assets"), "/static".to_string());

    assert_eq!(handler.guess_content_type("test.png"), "image/png");
    assert_eq!(handler.guess_content_type("test.css"), "text/css");
    assert_eq!(handler.guess_content_type("test.js"), "application/javascript");
    assert_eq!(handler.guess_content_type("test.unknown"), "application/octet-stream");
}

#[test]
fn test_static_handler_extension_checking() {
    let handler = StaticHandler::new(PathBuf::from("assets"), "/static".to_string());

    assert!(handler.is_allowed_extension("test.png"));
    assert!(handler.is_allowed_extension("test.css"));
    assert!(!handler.is_allowed_extension("test.exe"));
    assert!(!handler.is_allowed_extension("test"));
}

#[test]
fn server_config_defaults_in_full() {
    let config = ServerConfig::default();
    assert_eq!(config.max_connections, None);
    assert_eq!(config.request_timeout_secs, Some(30));
    assert_eq!(config.websocket_ping_interval_secs, Some(30));
}

#[test]
fn image_handler_and_case_of_extensions() {
    let handler = StaticHandler::new_image_handler(PathBuf::from("img"), "/img".to_string());
    assert!(handler.is_allowed_extension("a/B.PNG"));
    assert!(!handler.is_allowed_extension("style.css"));
    assert!(!handler.is_allowed_extension(".hidden"));
    assert_eq!(handler.guess_content_type("x.JPEG"), "image/jpeg");
    assert_eq!(handler.guess_content_type("notes"), "application/octet-stream");
    assert_eq!(handler.path_pattern(), "/img");
    assert_eq!(content_type_for_extension("html"), "text/html; charset=utf-8");
    assert_eq!(content_type_for_extension("ico"), "image/x-icon");
}

#[test]
fn request_paths_and_theme_routes() {
    assert_eq!(requested_path("/static//a/b.png", "/static"), "a/b.png");
    assert_eq!(requested_path("/other", "/static"), "other");
    assert_eq!(route_theme_asset("/themes", "/themes"), ThemeAssetRoute::List);
    assert_eq!(route_theme_asset("/themes/dark", "/themes"), ThemeAssetRoute::Css("dark".to_string()));
    assert_eq!(
        route_theme_asset("/themes/dark/css", "/themes"),
        ThemeAssetRoute::Css("dark".to_string())
    );
    assert_eq!(
        route_theme_asset("/themes/light/metadata", "/themes"),
        ThemeAssetRoute::Metadata("light".to_string())
    );
    assert_eq!(
        route_theme_asset("/themes/light/switch", "/themes"),
        ThemeAssetRoute::Switch("light".to_string())
    );
    assert_eq!(route_theme_asset("/themes/light/x", "/themes"), ThemeAssetRoute::NotFound);
    assert_eq!(route_theme_asset("/themes/a/b/c", "/themes"), ThemeAssetRoute::NotFound);
}

#[test]
fn theme_names_and_metadata() {
    assert!(is_valid_theme("catppuccin-mocha"));
    assert!(!is_valid_theme("solarized"));
    assert_eq!(
        invalid_theme_message("x"),
        "Invalid theme: x. Valid themes: [\"light\", \"dark\", \"catppuccin-latte\", \"catppuccin-macchiato\", \"catppuccin-mocha\"]"
    );
    let m = theme_metadata("catppuccin-latte").unwrap();
    assert_eq!(m.display_name, "Catppuccin Latte");
    assert_eq!(m.description, "Warm light theme");
    assert_eq!(m.preview_colors, vec!["#eff1f5", "#4c4f69", "#1e66f5"]);
    assert!(!m.is_dark);
    assert_eq!(m.mermaid_theme, "default");
    assert_eq!(theme_metadata("nope").unwrap_err(), "Unknown theme: nope");
}

#[test]
fn test_http_response_creation() {
    let response = HttpResponse::text("Hello, World!");
    assert_eq!(response.status, 200);
    assert_eq!(response.body, b"Hello, World!");
}

#[test]
fn responses_carry_their_content_type() {
    let r = HttpResponse::html("<p>é</p>");
    assert_eq!(r.status, 200);
    assert_eq!(r.headers, vec![("content-type".to_string(), "text/html; charset=utf-8".to_string())]);
    assert_eq!(r.body, "<p>é</p>".as_bytes());
    let e = HttpResponse::error(404, "File not found");
    assert_eq!(e.status, 404);
    assert_eq!(e.headers[0].1, "text/plain; charset=utf-8");
    let c = HttpResponse::new(201).with_header("x-a", "1").with_body(vec![1, 2]);
    assert_eq!(c.status, 201);
    assert_eq!(c.headers, vec![("x-a".to_string(), "1".to_string())]);
    assert_eq!(c.body, vec![1, 2]);
}

#[test]
fn static_requests_are_checked_before_reading() {
    let h = StaticHandler::new(PathBuf::from("assets"), "/static".to_string());
    match h.check_request("", None, false) {
        StaticCheck::Refuse(r) => {
            assert_eq!(r.status, 404);
            assert_eq!(r.body, b"File not found");
        }
        StaticCheck::Read => panic!("empty request must be refused"),
    }
    match h.check_request("x.png", None, false) {
        StaticCheck::Refuse(r) => assert_eq!(r.status, 404),
        StaticCheck::Read => panic!("unresolved path must be refused"),
    }
    match h.check_request("../etc/passwd", Some("/etc/passwd"), false) {
        StaticCheck::Refuse(r) => {
            assert_eq!(r.status, 403);
            assert_eq!(r.body, b"Access denied");
        }
        StaticCheck::Read => panic!("outside the base it is denied"),
    }
    match h.check_request("a.exe", Some("/srv/assets/a.exe"), true) {
        StaticCheck::Refuse(r) => {
            assert_eq!(r.status, 403);
            assert_eq!(r.body, b"File type not allowed");
        }
        StaticCheck::Read => panic!("exe is not allowed"),
    }
    assert!(matches!(h.check_request("a.PNG", Some("/srv/assets/a.PNG"), true), StaticCheck::Read));
}

#[test]
fn static_files_are_served_with_their_type() {
    let h = StaticHandler::new(PathBuf::from("assets"), "/static".to_string());
    let r = h.serve("/srv/assets/site.css", Some(b"body{}".to_vec()));
    assert_eq!(r.status, 200);
    assert_eq!(r.headers, vec![("content-type".to_string(), "text/css".to_string())]);
    assert_eq!(r.body, b"body{}");
    let r = h.serve("/srv/assets/site.css", None);
    assert_eq!(r.status, 404);
}

#[test]
fn test_static_handler_creation() {
    let handler = StaticHandler::new(PathBuf::from("static-root"), "/static".to_string());

    assert_eq!(handler.path_pattern(), "/static");
    assert_eq!(handler.method(), Method::Get);
    assert_eq!(handler.priority(), 100);
}

#[test]
fn test_static_image_handler_creation() {
    let handler = StaticHandler::new_image_handler(PathBuf::from("static-root"), "/*path".to_string());

    assert_eq!(handler.path_pattern(), "/*path");
    assert_eq!(handler.method(), Method::Get);
    assert_eq!(handler.priority(), 100);

    assert!(handler.is_allowed_extension("test.png"));
    assert!(handler.is_allowed_extension("test.jpg"));
    assert!(!handler.is_allowed_extension("test.css"));
    assert!(!handler.is_allowed_extension("test.js"));
}

#[test]
fn static_handler_keeps_its_base_path() {
    let handler = StaticHandler::new(PathBuf::from("static-root"), "/static".to_string());
    assert_eq!(handler.base_path(), &PathBuf::from("static-root"));
}
