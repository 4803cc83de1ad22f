use std::io::Read;

use rsrv::filelike::FileLike;
use rsrv::gzip::CompressionError;
use rsrv::headers::Headers;
use rsrv::request::Request;
use rsrv::response::Response;

fn get_request(path: &str, extra: &[&str]) -> Request {
    let mut lines = vec![format!("GET {path} HTTP/1.1")];
    lines.extend(extra.iter().map(|s| s.to_string()));
    Request::new(lines).unwrap()
}

#[test]
fn build_as_string_frames_a_text_body() {
    let headers = Headers::new(vec![(
        "Content-Length".to_string(),
        "4".to_string(),
    )]);
    let response = Response::new(
        "HTTP/1.1".to_string(),
        200,
        "OK".to_string(),
        headers,
        FileLike::TextFile("body".to_string()),
        false,
    );
    assert_eq!(
        response.build_as_string(),
        "HTTP/1.1 200 OK\r\nContent-Length: 4\r\n\r\nbody"
    );
}

#[test]
fn headers_render_one_line_per_entry_in_order() {
    let headers = Headers::new(vec![
        ("A".to_string(), "1".to_string()),
        ("B".to_string(), "2".to_string()),
    ]);
    let response = Response::new(
        "HTTP/1.1".to_string(),
        200,
        "OK".to_string(),
        headers,
        FileLike::TextFile(String::new()),
        false,
    );
    assert_eq!(response.headers_as_string(), "A: 1\r\nB: 2\r\n");
}

#[test]
fn uncompressed_binary_bodies_are_written_raw() {
    let headers = Headers::new(vec![("Content-Length".to_string(), "3".to_string())]);
    let response = Response::new(
        "HTTP/1.1".to_string(),
        200,
        "OK".to_string(),
        headers,
        FileLike::ImageFile(vec![0xde, 0xad, 0xbe]),
        false,
    );
    let bytes = response.respond();
    let mut expected = b"HTTP/1.1 200 OK\r\nContent-Length: 3\r\n\r\n".to_vec();
    expected.extend_from_slice(&[0xde, 0xad, 0xbe]);
    assert_eq!(bytes, expected);
}

#[test]
fn compressed_responses_carry_the_compressed_length_and_body() {
    let request = get_request("/a.html", &["Accept-Encoding: gzip"]);
    let file = FileLike::TextFile("zip zip zip zip".to_string());
    let headers = Headers::construct_outgoing_headers(&request, &file, true, "policy");
    let response = Response::new(
        "HTTP/1.1".to_string(),
        200,
        "OK".to_string(),
        headers,
        file,
        true,
    );
    let bytes = response.respond();
    let marker = b"\r\n\r\n";
    let pos = bytes.windows(4).position(|w| w == marker).unwrap();
    let head = String::from_utf8(bytes[..pos].to_vec()).unwrap();
    let body = &bytes[pos + 4..];
    let mut decoder = flate2::read::GzDecoder::new(body);
    let mut decoded = Vec::new();
    decoder.read_to_end(&mut decoded).unwrap();
    assert_eq!(decoded, b"zip zip zip zip");
    let compressed_len_line = format!("Content-Length: {}", body.len());
    assert!(head.contains(&compressed_len_line));
}

#[test]
fn failed_compression_falls_back_to_the_uncompressed_output() {
    let request = get_request("/a.html", &["Accept-Encoding: gzip"]);
    let file = FileLike::TextFile("fallback body".to_string());

    let compressed_headers = Headers::construct_outgoing_headers(&request, &file, true, "policy");
    let compressed_response = Response::new(
        "HTTP/1.1".to_string(),
        200,
        "OK".to_string(),
        compressed_headers,
        file.duplicate(),
        true,
    );
    let fallback = compressed_response.render_with_compression(Err(CompressionError));

    let plain_headers = Headers::construct_outgoing_headers(&request, &file, false, "policy");
    let plain_response = Response::new(
        "HTTP/1.1".to_string(),
        200,
        "OK".to_string(),
        plain_headers,
        file,
        false,
    );
    let plain = plain_response.respond();

    assert_eq!(fallback, plain);
}
