use rune_editor::mermaid::MermaidHandler;
use rune_editor::routing::Method;

fn handler() -> MermaidHandler {
    MermaidHandler::new("/mermaid.min.js".to_string(), "mermaid();".to_string(), "\"0.1.0\"".to_string())
}

#[test]
fn test_mermaid_handler_creation() {
    let handler = handler();
    assert_eq!(handler.path_pattern(), "/mermaid.min.js");
    assert_eq!(handler.method(), Method::Get);
    assert_eq!(handler.priority(), 5);
}

#[test]
fn etag_listed_among_others_is_not_modified() {
    let h = handler();
    assert!(h.is_etag_match("\"0.1.0\""));
    assert!(h.is_etag_match("W/\"x\",  \"0.1.0\" ,\"y\""));
    assert!(!h.is_etag_match("\"0.1.1\""));
    assert!(!h.is_etag_match(""));
    let r = h.handle(Some("\"a\", \"0.1.0\""));
    assert_eq!(r.status, 304);
    assert!(r.body.is_empty());
    assert_eq!(
        r.headers,
        vec![
            ("etag".to_string(), "\"0.1.0\"".to_string()),
            ("cache-control".to_string(), "public, no-cache".to_string()),
        ]
    );
}

#[test]
fn other_requests_get_the_script() {
    let h = handler();
    for header in [None, Some("\"0.0.9\"")] {
        let r = h.handle(header);
        assert_eq!(r.status, 200);
        assert_eq!(r.body, b"mermaid();".to_vec());
        assert_eq!(r.headers[0], ("content-type".to_string(), "application/javascript".to_string()));
        assert_eq!(r.headers[1], ("etag".to_string(), "\"0.1.0\"".to_string()));
    }
}
