use rune_editor::routing::{matches_path, HandlerRegistry, HttpRoute, Method, PathMatch, SocketRoute};

fn route(pattern: &str, method: Method, priority: i32, matching: PathMatch, handler: usize) -> HttpRoute {
    HttpRoute { pattern: pattern.to_string(), method, priority, matching, handler }
}

#[test]
fn path_matching_modes() {
    assert!(matches_path("/", "/", PathMatch::Segment));
    assert!(!matches_path("/", "/x", PathMatch::Segment));
    assert!(matches_path("/api", "/api", PathMatch::Segment));
    assert!(matches_path("/api", "/api/users", PathMatch::Segment));
    assert!(!matches_path("/api", "/apix", PathMatch::Segment));
    assert!(matches_path("/static", "/staticfoo", PathMatch::Prefix));
    assert!(!matches_path("/static", "/stat", PathMatch::Prefix));
    assert!(matches_path("/api/theme", "/api/theme", PathMatch::Exact));
    assert!(!matches_path("/api/theme", "/api/theme/x", PathMatch::Exact));
}

#[test]
fn registry_orders_by_priority_and_finds_first_match() {
    let mut r = HandlerRegistry::new();
    r.register_http_handler(route("/static", Method::Get, 100, PathMatch::Prefix, 0));
    r.register_http_handler(route("/", Method::Get, 10, PathMatch::Segment, 1));
    r.register_http_handler(route("/api/theme", Method::Post, 5, PathMatch::Exact, 2));
    r.register_http_handler(route("/api/theme", Method::Get, 5, PathMatch::Exact, 3));
    r.register_http_handler(route("/static/img", Method::Get, 100, PathMatch::Prefix, 4));
    let listed: Vec<(String, Method, i32)> = r.list_http_handlers();
    let priorities: Vec<i32> = listed.iter().map(|l| l.2).collect();
    assert_eq!(priorities, vec![5, 5, 10, 100, 100]);
    assert_eq!(listed[0].1, Method::Post);
    assert_eq!(listed[4].0, "/static/img");

    assert_eq!(r.find_http_handler("/", Method::Get), Some(1));
    assert_eq!(r.find_http_handler("/api/theme", Method::Post), Some(2));
    assert_eq!(r.find_http_handler("/api/theme", Method::Get), Some(3));
    // Both static handlers take it; the one registered first wins.
    assert_eq!(r.find_http_handler("/static/img/a.png", Method::Get), Some(0));
    assert_eq!(r.find_http_handler("/nothing", Method::Get), None);
    assert_eq!(r.find_http_handler("/", Method::Post), None);

    assert!(r.unregister_http_handler("/static", Method::Get));
    assert!(!r.unregister_http_handler("/static", Method::Get));
    assert_eq!(r.find_http_handler("/static/img/a.png", Method::Get), Some(4));
    assert_eq!(r.list_http_handlers().len(), 4);
}

#[test]
fn websocket_handlers_are_found_by_path() {
    let mut r = HandlerRegistry::new();
    r.register_websocket_handler(SocketRoute { path: "/ws".to_string(), priority: 10, handler: 7 });
    r.register_websocket_handler(SocketRoute { path: "/ws/editor".to_string(), priority: 5, handler: 8 });
    assert_eq!(r.list_websocket_handlers(), vec![("/ws/editor".to_string(), 5), ("/ws".to_string(), 10)]);
    assert_eq!(r.find_websocket_handler("/ws"), Some(7));
    assert_eq!(r.find_websocket_handler("/ws/editor"), Some(8));
    assert_eq!(r.find_websocket_handler("/other"), None);
    assert!(r.unregister_websocket_handler("/ws"));
    assert_eq!(r.find_websocket_handler("/ws"), None);
    r.clear_all_handlers();
    assert!(r.list_http_handlers().is_empty());
    assert!(r.list_websocket_handlers().is_empty());
}
