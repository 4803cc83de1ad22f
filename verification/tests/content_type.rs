use rsrv::filelike::{FileLike, KnownFileType, LoadStrategy};
use rsrv::headers::Headers;

#[test]
fn extension_lookup_is_case_insensitive() {
    let upper = Headers::format_content_type_header_based_on_request_path("a.HTML");
    let lower = Headers::format_content_type_header_based_on_request_path("a.html");
    assert_eq!(upper, lower);
    assert_eq!(lower.as_str(), "text/html; charset=utf-8");
}

#[test]
fn known_extensions_map_to_their_content_types() {
    let cases = [
        ("style.css", "text/css"),
        ("app.js", "text/javascript"),
        ("data.json", "application/json"),
        ("table.csv", "text/csv"),
        ("pic.png", "image/png"),
        ("pic.jpg", "image/jpeg"),
        ("pic.jpeg", "image/jpeg"),
        ("icon.ico", "image/vnd.microsoft.icon"),
        ("drawing.svg", "image/svg+xml"),
        ("archive.zip", "application/zip"),
        ("bundle.tar", "application/x-tar"),
        ("doc.pdf", "application/pdf"),
        ("blob.gz", "application/gzip"),
        ("font.woff2", "font/woff2"),
        ("notes.txt", "text/plain"),
        ("raw.bin", "application/octet-stream"),
    ];
    for (path, expected) in cases {
        let got = Headers::format_content_type_header_based_on_request_path(path);
        assert_eq!(got.as_str(), expected, "for {path}");
    }
}

#[test]
fn unknown_and_missing_extensions_are_octet_stream() {
    assert_eq!(
        Headers::format_content_type_header_based_on_request_path("x.weird").as_str(),
        "application/octet-stream"
    );
    assert_eq!(
        Headers::format_content_type_header_based_on_request_path("noextension").as_str(),
        "application/octet-stream"
    );
    assert_eq!(
        Headers::format_content_type_header_based_on_request_path("/dir.d/file").as_str(),
        "application/octet-stream"
    );
}

#[test]
fn extension_is_taken_from_the_final_segment() {
    assert_eq!(
        Headers::format_content_type_header_based_on_request_path(".json").as_str(),
        "application/json"
    );
    assert_eq!(
        Headers::format_content_type_header_based_on_request_path("/srv/www/page.htm").as_str(),
        "text/html; charset=utf-8"
    );
}

#[test]
fn file_types_are_recognized_case_insensitively() {
    assert!(matches!(
        FileLike::get_file_type("a.PNG"),
        KnownFileType::PNG
    ));
    assert!(matches!(
        FileLike::get_file_type("a.Html"),
        KnownFileType::HTML
    ));
    assert!(matches!(
        FileLike::get_file_type("a.nonsense"),
        KnownFileType::ANON
    ));
    assert!(matches!(
        FileLike::get_file_type("plainname"),
        KnownFileType::ANON
    ));
}

#[test]
fn loading_strategies_follow_the_file_type() {
    assert!(matches!(
        FileLike::loading_strategy("index.html"),
        LoadStrategy::Text
    ));
    assert!(matches!(
        FileLike::loading_strategy("logo.png"),
        LoadStrategy::Image
    ));
    assert!(matches!(
        FileLike::loading_strategy("archive.zip"),
        LoadStrategy::Opaque
    ));
    assert!(matches!(
        FileLike::loading_strategy("notes.txt"),
        LoadStrategy::Opaque
    ));
    assert!(matches!(
        FileLike::loading_strategy("mystery"),
        LoadStrategy::Opaque
    ));
}

#[test]
fn file_length_is_the_byte_length() {
    assert_eq!(FileLike::TextFile(String::from("héllo")).len(), 6);
    assert_eq!(FileLike::ImageFile(vec![1, 2, 3]).len(), 3);
    assert_eq!(FileLike::ProxyFile(vec![]).len(), 0);
}
