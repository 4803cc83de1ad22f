use std::io::Read;

use rsrv::connection::ConnectionHandler;
use rsrv::file_store::FileStore;
use rsrv::filelike::FileLike;
use rsrv::static_directory_manager::StaticDirectoryManager;

const CACHE_POLICY: &str = "private, max-age=259200, must-revalidate";

fn manager() -> StaticDirectoryManager {
    StaticDirectoryManager {
        directories: vec!["/srv/www".to_string()],
        backup_file: "403.html".to_string(),
    }
}

fn lines(v: &[&str]) -> Vec<String> {
    v.iter().map(|s| s.to_string()).collect()
}

fn split_head_and_body(response: &[u8]) -> (String, Vec<u8>) {
    let marker = b"\r\n\r\n";
    let pos = response
        .windows(marker.len())
        .position(|w| w == marker)
        .expect("response has a blank line");
    let head = String::from_utf8(response[..pos].to_vec()).unwrap();
    let body = response[pos + marker.len()..].to_vec();
    (head, body)
}

fn gunzip(bytes: &[u8]) -> Vec<u8> {
    let mut decoder = flate2::read::GzDecoder::new(bytes);
    let mut out = Vec::new();
    decoder.read_to_end(&mut out).unwrap();
    out
}

#[test]
fn scenario_plain_file_is_served_uncompressed() {
    let mut store = FileStore::new();
    store.add(
        "/srv/www/index.html".to_string(),
        FileLike::TextFile("<h1>Hello</h1>".to_string()),
    );
    let response = ConnectionHandler::handle(
        lines(&["GET /index.html HTTP/1.1"]),
        &manager(),
        &store,
        false,
        CACHE_POLICY,
    );
    let expected = format!(
        "HTTP/1.1 200 OK\r\nContent-Type: text/html; charset=utf-8\r\nCache-Control: {CACHE_POLICY}\r\nContent-Length: 14\r\n\r\n<h1>Hello</h1>"
    );
    assert_eq!(response, expected.into_bytes());
}

#[test]
fn scenario_missing_path_serves_the_backup_file() {
    let mut store = FileStore::new();
    store.add(
        "/srv/www/403.html".to_string(),
        FileLike::TextFile("<h1>fallback</h1>".to_string()),
    );
    let response = ConnectionHandler::handle(
        lines(&["GET /missing.html HTTP/1.1"]),
        &manager(),
        &store,
        false,
        CACHE_POLICY,
    );
    let (head, body) = split_head_and_body(&response);
    assert!(head.starts_with("HTTP/1.1 200 OK\r\n"));
    assert_eq!(body, b"<h1>fallback</h1>");
}

#[test]
fn scenario_gzip_negotiation_compresses_the_body() {
    let file_text = "compress me compress me compress me".to_string();
    let mut store = FileStore::new();
    store.add(
        "/srv/www/page.html".to_string(),
        FileLike::TextFile(file_text.clone()),
    );
    let response = ConnectionHandler::handle(
        lines(&["GET /page.html HTTP/1.1", "Accept-Encoding: gzip, deflate"]),
        &manager(),
        &store,
        false,
        CACHE_POLICY,
    );
    let (head, body) = split_head_and_body(&response);
    assert!(head.starts_with("HTTP/1.1 200 OK\r\nContent-Length: "));
    assert!(head.contains("Content-Encoding: gzip"));
    assert!(head.contains("Connection: close"));
    assert_eq!(gunzip(&body), file_text.into_bytes());
}

#[test]
fn scenario_malformed_request_line_gets_a_json_error() {
    let response = ConnectionHandler::handle(
        lines(&["GET /"]),
        &manager(),
        &FileStore::new(),
        false,
        CACHE_POLICY,
    );
    let body_text = "{\"error\":\"Request::new() Exception: HttpRequest String is corrupted. Request line is misformatted.\"}";
    let expected = format!(
        "HTTP/1.1 500 SERVER ERROR\r\nContent-Length: {}\r\nContent-Type: application/json\r\n\r\n{}",
        body_text.len(),
        body_text
    );
    assert_eq!(response, expected.into_bytes());
}

#[test]
fn empty_request_gets_a_json_error() {
    let response =
        ConnectionHandler::handle(lines(&[]), &manager(), &FileStore::new(), false, CACHE_POLICY);
    let body_text =
        "{\"error\":\"Request::new() Exception: HttpRequest String is corrupted.\"}";
    let (head, body) = split_head_and_body(&response);
    assert!(head.starts_with("HTTP/1.1 500 SERVER ERROR\r\n"));
    assert!(head.contains("Content-Type: application/json"));
    assert_eq!(body, body_text.as_bytes());
}

#[test]
fn unresolvable_path_without_backup_gets_a_json_error() {
    let response = ConnectionHandler::handle(
        lines(&["GET /missing.html HTTP/1.1"]),
        &manager(),
        &FileStore::new(),
        false,
        CACHE_POLICY,
    );
    let body_text =
        "{\"error\":\"ConnectionHandler::SimpleException Failed to read requested file.\"}";
    let (head, body) = split_head_and_body(&response);
    assert!(head.starts_with("HTTP/1.1 500 SERVER ERROR\r\n"));
    assert_eq!(body, body_text.as_bytes());
}

#[test]
fn disabled_compression_overrides_the_accept_encoding_header() {
    let mut store = FileStore::new();
    store.add(
        "/srv/www/page.html".to_string(),
        FileLike::TextFile("plain".to_string()),
    );
    let response = ConnectionHandler::handle(
        lines(&["GET /page.html HTTP/1.1", "Accept-Encoding: gzip"]),
        &manager(),
        &store,
        true,
        CACHE_POLICY,
    );
    let (head, body) = split_head_and_body(&response);
    assert!(!head.contains("Content-Encoding"));
    assert!(head.contains("Content-Length: 5"));
    assert_eq!(body, b"plain");
}

#[test]
fn gzip_is_matched_as_a_substring_of_accept_encoding() {
    let mut store = FileStore::new();
    store.add(
        "/srv/www/page.html".to_string(),
        FileLike::TextFile("body".to_string()),
    );
    let response = ConnectionHandler::handle(
        lines(&["GET /page.html HTTP/1.1", "Accept-Encoding: deflate, br"]),
        &manager(),
        &store,
        false,
        CACHE_POLICY,
    );
    let (head, body) = split_head_and_body(&response);
    assert!(!head.contains("Content-Encoding"));
    assert_eq!(body, b"body");
}
