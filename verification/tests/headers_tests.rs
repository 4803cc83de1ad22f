use rsrv::filelike::FileLike;
use rsrv::headers::Headers;
use rsrv::request::Request;

fn get_request(path: &str, extra: &[&str]) -> Request {
    let mut lines = vec![format!("GET {path} HTTP/1.1")];
    lines.extend(extra.iter().map(|s| s.to_string()));
    Request::new(lines).unwrap()
}

fn value_of<'a>(headers: &'a Headers, key: &str) -> Option<&'a str> {
    headers.get_header_by_key(key).map(String::as_str)
}

#[test]
fn insertion_is_last_one_wins() {
    let headers = Headers::new(vec![
        ("A".to_string(), "1".to_string()),
        ("B".to_string(), "2".to_string()),
        ("A".to_string(), "3".to_string()),
    ]);
    assert_eq!(value_of(&headers, "A"), Some("3"));
    assert_eq!(value_of(&headers, "B"), Some("2"));
    assert_eq!(headers.map.len(), 2);
}

#[test]
fn converted_raw_headers_drop_lines_without_separator() {
    let kv = Headers::convert_raw_headers(vec![
        "Host: example.com".to_string(),
        "broken-line".to_string(),
        "X: a: b".to_string(),
    ]);
    assert_eq!(
        kv,
        vec![
            ("Host".to_string(), "example.com".to_string()),
            ("X".to_string(), "a".to_string()),
        ]
    );
}

#[test]
fn uncompressed_headers_carry_the_body_length() {
    let request = get_request("/index.html", &[]);
    let file = FileLike::TextFile("0123456789".to_string());
    let headers = Headers::construct_outgoing_headers(&request, &file, false, "policy");
    assert_eq!(value_of(&headers, "Content-Type"), Some("text/html; charset=utf-8"));
    assert_eq!(value_of(&headers, "Cache-Control"), Some("policy"));
    assert_eq!(value_of(&headers, "Content-Length"), Some("10"));
    assert_eq!(value_of(&headers, "Content-Encoding"), None);
    assert_eq!(value_of(&headers, "Connection"), None);
}

#[test]
fn compressed_headers_mark_the_encoding_and_omit_the_length() {
    let request = get_request("/index.html", &["Accept-Encoding: gzip"]);
    let file = FileLike::TextFile("0123456789".to_string());
    let headers = Headers::construct_outgoing_headers(&request, &file, true, "policy");
    assert_eq!(value_of(&headers, "Content-Encoding"), Some("gzip"));
    assert_eq!(value_of(&headers, "Connection"), Some("close"));
    assert_eq!(value_of(&headers, "Content-Length"), None);
}

#[test]
fn accept_headers_are_read_by_exact_key() {
    let request = get_request(
        "/",
        &["Accept-Encoding: gzip, deflate", "Accept: text/html"],
    );
    assert_eq!(
        Headers::get_accept_encoding_header_if_exists(request.headers()).as_deref(),
        Some("gzip, deflate")
    );
    assert_eq!(
        Headers::get_accept_content_header_if_exists(request.headers()).as_deref(),
        Some("text/html")
    );
    let bare = get_request("/", &[]);
    assert_eq!(
        Headers::get_accept_encoding_header_if_exists(bare.headers()),
        None
    );
    assert_eq!(
        Headers::get_accept_content_header_if_exists(bare.headers()),
        None
    );
}

#[test]
fn removal_drops_exactly_the_named_key() {
    let mut headers = Headers::new(vec![
        ("A".to_string(), "1".to_string()),
        ("B".to_string(), "2".to_string()),
    ]);
    headers.remove_by_key("A");
    assert_eq!(value_of(&headers, "A"), None);
    assert_eq!(value_of(&headers, "B"), Some("2"));
    headers.remove_by_key("missing");
    assert_eq!(value_of(&headers, "B"), Some("2"));
}
