use rsrv::request::{HttpMethod, ParseError, Request};

fn lines(v: &[&str]) -> Vec<String> {
    v.iter().map(|s| s.to_string()).collect()
}

#[test]
fn well_formed_request_line_parses_verbatim() {
    let request = Request::new(lines(&["GET /index.html HTTP/1.1"])).unwrap();
    assert!(matches!(request.method(), HttpMethod::GET));
    assert_eq!(request.path().as_str(), "/index.html");
    assert_eq!(request.protocol().as_str(), "HTTP/1.1");
}

#[test]
fn path_is_not_decoded() {
    let request = Request::new(lines(&["GET /a%20b?q=1 HTTP/1.1"])).unwrap();
    assert_eq!(request.path().as_str(), "/a%20b?q=1");
}

#[test]
fn zero_lines_is_an_empty_request() {
    assert!(matches!(Request::new(lines(&[])), Err(ParseError::EmptyRequest)));
}

#[test]
fn leading_blank_line_is_an_empty_request() {
    assert!(matches!(
        Request::new(lines(&["", "GET / HTTP/1.1"])),
        Err(ParseError::EmptyRequest)
    ));
}

#[test]
fn two_tokens_are_malformed() {
    assert!(matches!(
        Request::new(lines(&["GET /"])),
        Err(ParseError::MalformedRequestLine)
    ));
}

#[test]
fn four_tokens_are_malformed() {
    assert!(matches!(
        Request::new(lines(&["GET / HTTP/1.1 extra"])),
        Err(ParseError::MalformedRequestLine)
    ));
}

#[test]
fn headers_are_parsed_and_looked_up_exactly() {
    let request = Request::new(lines(&[
        "GET / HTTP/1.1",
        "Host: example.com",
        "Accept-Encoding: gzip, deflate",
        "line-without-separator",
    ]))
    .unwrap();
    let headers = request.headers();
    assert_eq!(
        headers.get_header_by_key("Host").map(String::as_str),
        Some("example.com")
    );
    assert_eq!(
        headers.get_header_by_key("Accept-Encoding").map(String::as_str),
        Some("gzip, deflate")
    );
    assert_eq!(headers.get_header_by_key("accept-encoding"), None);
    assert_eq!(headers.get_header_by_key("line-without-separator"), None);
}

#[test]
fn header_lines_stop_at_the_blank_line() {
    let request = Request::new(lines(&[
        "GET / HTTP/1.1",
        "Host: example.com",
        "",
        "Ignored: yes",
    ]))
    .unwrap();
    assert_eq!(request.headers().get_header_by_key("Ignored"), None);
}

#[test]
fn header_value_is_the_second_split_part() {
    let request = Request::new(lines(&["GET / HTTP/1.1", "Key: a: b"])).unwrap();
    assert_eq!(
        request.headers().get_header_by_key("Key").map(String::as_str),
        Some("a")
    );
}

#[test]
fn unknown_methods_fall_back_to_get() {
    assert!(matches!(
        Request::get_enumerated_method_from_string("BREW"),
        HttpMethod::GET
    ));
}

#[test]
fn methods_match_case_insensitively() {
    assert!(matches!(
        Request::get_enumerated_method_from_string("get"),
        HttpMethod::GET
    ));
    assert!(matches!(
        Request::get_enumerated_method_from_string("PoSt"),
        HttpMethod::POST
    ));
    assert!(matches!(
        Request::get_enumerated_method_from_string("PUT"),
        HttpMethod::PUT
    ));
    assert!(matches!(
        Request::get_enumerated_method_from_string("delete"),
        HttpMethod::DELETE
    ));
    assert!(matches!(
        Request::get_enumerated_method_from_string("OPTIONS"),
        HttpMethod::OPTIONS
    ));
}
