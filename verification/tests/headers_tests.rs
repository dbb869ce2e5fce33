use chat_server::headers::{
    is_header_line, is_websocket_upgrade, parse_header_line, parse_headers, Headers,
};

#[test]
fn insert_then_get() {
    let mut h = Headers::new();
    assert_eq!(h.get("Host"), None);
    h.insert("Host".to_string(), "example.com".to_string());
    h.insert("Upgrade".to_string(), "websocket".to_string());
    assert_eq!(h.get("Host"), Some(&"example.com".to_string()));
    h.insert("Host".to_string(), "other".to_string());
    assert_eq!(h.get("Host"), Some(&"other".to_string()));
    assert_eq!(h.len(), 2);
    let (name, value) = h.entry(0);
    assert_eq!((name.as_str(), value.as_str()), ("Host", "other"));
    assert_eq!(h.get("host"), None);
}

#[test]
fn header_line_splits_at_first_colon_space() {
    assert_eq!(
        parse_header_line("Host: localhost: 80"),
        ("Host".to_string(), "localhost: 80".to_string())
    );
    assert!(is_header_line("Host: x"));
    assert!(!is_header_line("Host:localhost"));
    assert!(!is_header_line(""));
}

#[test]
fn parse_headers_later_lines_override() {
    let lines = vec!["A: 1".to_string(), "B: 2".to_string(), "A: 3".to_string()];
    let h = parse_headers(&lines);
    assert_eq!(h.get("A"), Some(&"3".to_string()));
    assert_eq!(h.get("B"), Some(&"2".to_string()));
    assert_eq!(h.len(), 2);
}

#[test]
fn parse_headers_of_no_lines() {
    let h = parse_headers(&Vec::new());
    assert_eq!(h.len(), 0);
}

#[test]
fn websocket_upgrade_needs_exact_value() {
    let mut h = Headers::new();
    assert!(!is_websocket_upgrade(&h));
    h.insert("Upgrade".to_string(), "WebSocket".to_string());
    assert!(!is_websocket_upgrade(&h));
    h.insert("Upgrade".to_string(), "websocket".to_string());
    assert!(is_websocket_upgrade(&h));
}
