use chat_server::headers::Headers;
use chat_server::http::{
    choose_file, file_response, file_response_with_type, index_path, is_request_line,
    parse_request_line, route_request, try_file_response, HttpResponse, HttpRoute,
};

fn bytes_of(r: &HttpResponse) -> Vec<u8> {
    let mut buffer = Vec::new();
    r.write(&mut buffer);
    buffer
}

#[test]
fn write_with_body_and_no_headers_adds_content_length() {
    let r = HttpResponse::new(404, None, Some(b"gone".to_vec()));
    assert_eq!(bytes_of(&r), b"HTTP/1.1 404\nContent-Length: 4\n\ngone".to_vec());
}

#[test]
fn write_without_body() {
    let r = HttpResponse::new(204, None, None);
    assert_eq!(bytes_of(&r), b"HTTP/1.1 204\n\n".to_vec());
    let r = HttpResponse::new(200, None, Some(Vec::new()));
    assert_eq!(bytes_of(&r), b"HTTP/1.1 200\n\n".to_vec());
}

#[test]
fn write_with_headers_lists_them_and_nothing_else() {
    let mut h = Headers::new();
    h.insert("X-One".to_string(), "1".to_string());
    h.insert("X-Two".to_string(), "zwei".to_string());
    let r = HttpResponse::new(200, Some(h), Some(b"body".to_vec()));
    assert_eq!(bytes_of(&r), b"HTTP/1.1 200\nX-One: 1\nX-Two: zwei\n\nbody".to_vec());
}

#[test]
fn write_appends_to_buffer() {
    let r = HttpResponse::new(418, None, None);
    let mut buffer = b"x".to_vec();
    r.write(&mut buffer);
    assert_eq!(buffer, b"xHTTP/1.1 418\n\n".to_vec());
}

#[test]
fn request_line_parts() {
    assert_eq!(
        parse_request_line("GET /index.html HTTP/1.1"),
        ("GET".to_string(), "/index.html".to_string())
    );
    assert_eq!(
        parse_request_line("GET /a b HTTP/1.1"),
        ("GET".to_string(), "/a b".to_string())
    );
    assert!(is_request_line("GET / HTTP/1.1"));
    assert!(!is_request_line("GET"));
    assert!(!is_request_line("GET /"));
}

#[test]
fn route_refuses_other_methods() {
    match route_request("POST / HTTP/1.1") {
        HttpRoute::Respond(r) => {
            assert_eq!(bytes_of(&r), b"HTTP/1.1 405\nContent-Length: 16\n\nI only speak GET".to_vec())
        }
        _ => panic!("expected a 405"),
    }
}

#[test]
fn route_get_looks_under_html() {
    match route_request("GET /chat/ HTTP/1.1") {
        HttpRoute::Lookup(p) => assert_eq!(p, "html/chat/"),
        _ => panic!("expected a lookup"),
    }
}

#[test]
fn index_path_joins_like_path_join() {
    assert_eq!(index_path("html/"), "html/index.html");
    assert_eq!(index_path("html"), "html/index.html");
    assert_eq!(index_path(""), std::path::Path::new("").join("index.html").to_str().unwrap());
    let joined = std::path::Path::new("html/chat").join("index.html");
    assert_eq!(index_path("html/chat"), joined.to_str().unwrap());
}

#[test]
fn choose_file_cases() {
    assert_eq!(choose_file("html/", true, true, true).ok(), Some("html/index.html".to_string()));
    assert_eq!(choose_file("html/a.css", false, false, true).ok(), Some("html/a.css".to_string()));
    let no_index = choose_file("html/d", true, false, true).err().expect("418");
    assert_eq!(
        bytes_of(&no_index),
        b"HTTP/1.1 418\nContent-Length: 51\n\ni'll fix this some other time, no index file exists".to_vec()
    );
    let missing = choose_file("html/x", false, false, false).err().expect("404");
    assert_eq!(
        bytes_of(&missing),
        b"HTTP/1.1 404\nContent-Length: 36\n\nrequested file/folder does not exist".to_vec()
    );
}

#[test]
fn file_response_headers() {
    let r = file_response("html/index.html", b"<p>hi</p>".to_vec());
    assert_eq!(
        bytes_of(&r),
        b"HTTP/1.1 200\nContent-Type: text/html\nContent-Length: 9\n\n<p>hi</p>".to_vec()
    );
    let r = try_file_response("html/style.css", b"a{}".to_vec()).expect("css has a type");
    assert_eq!(
        bytes_of(&r),
        b"HTTP/1.1 200\nContent-Type: text/css\nContent-Length: 3\n\na{}".to_vec()
    );
    assert!(try_file_response("html/README", b"x".to_vec()).is_none());
}

#[test]
fn file_response_with_given_type() {
    let r = file_response_with_type("text/css".to_string(), b"a{}".to_vec());
    assert_eq!(
        bytes_of(&r),
        b"HTTP/1.1 200\nContent-Type: text/css\nContent-Length: 3\n\na{}".to_vec()
    );
}
