//! Gzip encoding of a response body.

use vstd::prelude::*;

use crate::filelike::FileLike;

verus! {

/// The encoder could not finish; the caller falls back to uncompressed
/// delivery.
#[derive(Clone, Copy, PartialEq, Eq, Structural, Debug)]
pub struct CompressionError;

/// The gzip stream flate2 produces for the given bytes at the default
/// compression level. flate2 writes a fixed header (zero timestamp, a fixed
/// operating-system byte) and compresses deterministically, so the stream
/// depends on the input bytes alone.
pub uninterp spec fn gzip_of(bytes: Seq<u8>) -> Seq<u8>;

/// Relies on flate2's `write::GzEncoder` over an in-memory buffer at the
/// default level: the whole payload is encoded as one gzip stream, a
/// function of the input bytes alone. The encoder succeeds here: its only
/// failures are write errors of the sink — and `Vec`'s writer never errors —
/// and stream errors its deflate backend cannot report for a
/// validly-constructed stream.
#[verifier::external_body]
fn gzip_bytes(bytes: &[u8]) -> (r: Result<Vec<u8>, CompressionError>)
    ensures
        r is Ok,
        r.unwrap()@ == gzip_of(bytes@),
{
    let mut encoder = flate2::write::GzEncoder::new(Vec::new(), flate2::Compression::default());
    if std::io::Write::write_all(&mut encoder, bytes).is_err() {
        return Err(CompressionError);
    }
    match encoder.finish() {
        Ok(data) => Ok(data),
        Err(_) => Err(CompressionError),
    }
}

pub struct Gzip;

impl Gzip {
    /// Gzip-encodes the body bytes of a file; text encodes as its UTF-8
    /// bytes, byte files as they stand. Encoding into memory succeeds; the
    /// error variant exists because a failed encoder must be recoverable,
    /// by falling back to uncompressed delivery, never fatal.
    pub fn compress(file: &FileLike) -> (r: Result<Vec<u8>, CompressionError>)
        ensures
            r is Ok,
            r.unwrap()@ == gzip_of(file.byte_view()),
    {
        match file {
            FileLike::TextFile(text) => gzip_bytes(text.as_str().as_bytes()),
            FileLike::ImageFile(image_file) => gzip_bytes(image_file.as_slice()),
            FileLike::ProxyFile(proxy_file) => gzip_bytes(proxy_file.as_slice()),
        }
    }
}

} // verus!
