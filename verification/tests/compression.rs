use std::io::Read;

use rsrv::filelike::FileLike;
use rsrv::gzip::Gzip;

fn gunzip(bytes: &[u8]) -> Vec<u8> {
    let mut decoder = flate2::read::GzDecoder::new(bytes);
    let mut out = Vec::new();
    decoder.read_to_end(&mut out).unwrap();
    out
}

#[test]
fn text_round_trips_through_gzip() {
    let payload = "hello hello hello compression".to_string();
    let compressed = Gzip::compress(&FileLike::TextFile(payload.clone())).unwrap();
    assert_eq!(gunzip(&compressed), payload.as_bytes());
}

#[test]
fn binary_round_trips_through_gzip() {
    let payload: Vec<u8> = (0u16..2048).map(|i| (i % 251) as u8).collect();
    let compressed = Gzip::compress(&FileLike::ImageFile(payload.clone())).unwrap();
    assert_eq!(gunzip(&compressed), payload);
    let compressed_proxy = Gzip::compress(&FileLike::ProxyFile(payload.clone())).unwrap();
    assert_eq!(gunzip(&compressed_proxy), payload);
}

#[test]
fn empty_payload_round_trips_through_gzip() {
    let compressed = Gzip::compress(&FileLike::ProxyFile(Vec::new())).unwrap();
    assert_eq!(gunzip(&compressed), Vec::<u8>::new());
}

#[test]
fn text_and_binary_payloads_with_equal_bytes_compress_equally() {
    let text = "same bytes either way".to_string();
    let as_text = Gzip::compress(&FileLike::TextFile(text.clone())).unwrap();
    let as_bytes = Gzip::compress(&FileLike::ProxyFile(text.into_bytes())).unwrap();
    assert_eq!(as_text, as_bytes);
}
