//! Assembling a response into the bytes written to the client: status line,
//! header block, blank line, body — compressed when negotiated, with an
//! uncompressed fallback when compression fails.

use vstd::prelude::*;
use vstd::string::StringSliceAdditionalSpecFns;
use vstd::utf8::encode_utf8;

use crate::filelike::{append_bytes, FileLike};
use crate::gzip::{gzip_of, CompressionError, Gzip};
use crate::headers::{fallback_headers_spec, Headers};
use crate::text::{dec_str, usize_to_string};

verus! {

/// The header block: one `key: value` line per entry, in order, each ended
/// by `\r\n`.
pub open spec fn headers_block_spec(hs: Seq<(Seq<char>, Seq<char>)>) -> Seq<char>
    decreases hs.len(),
{
    if hs.len() == 0 {
        Seq::empty()
    } else {
        hs[0].0 + ": "@ + hs[0].1 + "\r\n"@ + headers_block_spec(hs.subrange(1, hs.len() as int))
    }
}

/// One more entry appends one more line.
pub proof fn lemma_headers_block_push(hs: Seq<(Seq<char>, Seq<char>)>, p: (Seq<char>, Seq<char>))
    ensures
        headers_block_spec(hs.push(p)) == headers_block_spec(hs) + (p.0 + ": "@ + p.1 + "\r\n"@),
    decreases hs.len(),
{
    if hs.len() == 0 {
        assert(hs.push(p).subrange(1, 1) =~= Seq::<(Seq<char>, Seq<char>)>::empty());
        assert(headers_block_spec(Seq::<(Seq<char>, Seq<char>)>::empty()) == Seq::<char>::empty());
        assert(hs.push(p)[0] == p);
        assert(headers_block_spec(hs.push(p)) =~= headers_block_spec(hs) + (p.0 + ": "@ + p.1
            + "\r\n"@));
    } else {
        let tail = hs.subrange(1, hs.len() as int);
        lemma_headers_block_push(tail, p);
        assert(hs.push(p).subrange(1, hs.len() as int + 1) =~= tail.push(p));
        assert(hs.push(p)[0] == hs[0]);
        assert(hs[0].0 + ": "@ + hs[0].1 + "\r\n"@ + (headers_block_spec(tail) + (p.0 + ": "@ + p.1
            + "\r\n"@)) =~= (hs[0].0 + ": "@ + hs[0].1 + "\r\n"@ + headers_block_spec(tail)) + (p.0
            + ": "@ + p.1 + "\r\n"@));
    }
}

/// The status line: `protocol SP status SP reason`.
pub open spec fn status_line_of(protocol: Seq<char>, status: nat, status_text: Seq<char>) -> Seq<
    char,
> {
    protocol + " "@ + dec_str(status) + " "@ + status_text
}

/// Everything before the body of an uncompressed response: the status line,
/// the header block, and the blank line.
pub open spec fn head_of(
    protocol: Seq<char>,
    status: nat,
    status_text: Seq<char>,
    hs: Seq<(Seq<char>, Seq<char>)>,
) -> Seq<char> {
    status_line_of(protocol, status, status_text) + "\r\n"@ + headers_block_spec(hs) + "\r\n"@
}

/// The bytes of an uncompressed response: the head, UTF-8 encoded, then the
/// body bytes.
pub open spec fn plain_render_of(
    protocol: Seq<char>,
    status: nat,
    status_text: Seq<char>,
    hs: Seq<(Seq<char>, Seq<char>)>,
    body: Seq<u8>,
) -> Seq<u8> {
    encode_utf8(head_of(protocol, status, status_text, hs)) + body
}

/// The bytes of a compressed response: the status line, a `Content-Length`
/// line carrying the compressed length, the header block, the blank line,
/// then the compressed bytes.
pub open spec fn compressed_render_of(
    protocol: Seq<char>,
    status: nat,
    status_text: Seq<char>,
    hs: Seq<(Seq<char>, Seq<char>)>,
    compressed: Seq<u8>,
) -> Seq<u8> {
    encode_utf8(
        status_line_of(protocol, status, status_text) + "\r\n"@ + "Content-Length: "@ + dec_str(
            compressed.len(),
        ) + "\r\n"@ + headers_block_spec(hs) + "\r\n"@,
    ) + compressed
}

/// A failed compression is invisible on the wire: the bytes transmitted
/// after the encoder fails, under the fallback headers, are exactly the
/// bytes the uncompressed path would have transmitted for the same request.
pub proof fn lemma_compression_failure_is_uncompressed(
    protocol: Seq<char>,
    status: nat,
    status_text: Seq<char>,
    path: Seq<char>,
    body: Seq<u8>,
    cache_control: Seq<char>,
)
    ensures
        plain_render_of(
            protocol,
            status,
            status_text,
            fallback_headers_spec(
                crate::headers::outgoing_headers_spec(path, body.len(), true, cache_control),
                body.len(),
            ),
            body,
        ) == plain_render_of(
            protocol,
            status,
            status_text,
            crate::headers::outgoing_headers_spec(path, body.len(), false, cache_control),
            body,
        ),
{
    crate::headers::lemma_compression_fallback_headers(path, body.len(), cache_control);
}

/// A response ready to transmit: protocol, status, reason, header map, body
/// and the negotiated compression decision.
pub struct Response {
    pub compress: bool,
    pub protocol: String,
    pub status: u16,
    pub status_text: String,
    pub headers: Headers,
    pub body: FileLike,
}

impl Response {
    /// The bytes of this response when sent uncompressed.
    pub open spec fn plain_render_spec(&self) -> Seq<u8> {
        plain_render_of(
            self.protocol@,
            self.status as nat,
            self.status_text@,
            self.headers@,
            self.body.byte_view(),
        )
    }

    /// The bytes of this response when sent compressed as `c`.
    pub open spec fn compressed_render_spec(&self, c: Seq<u8>) -> Seq<u8> {
        compressed_render_of(self.protocol@, self.status as nat, self.status_text@, self.headers@, c)
    }

    /// The bytes of this response when compression failed: uncompressed,
    /// with `Content-Encoding` and `Connection` dropped and
    /// `Content-Length` put back.
    pub open spec fn fallback_render_spec(&self) -> Seq<u8> {
        plain_render_of(
            self.protocol@,
            self.status as nat,
            self.status_text@,
            fallback_headers_spec(self.headers@, self.body.byte_view().len()),
            self.body.byte_view(),
        )
    }

    /// A response from its parts.
    pub fn new(
        protocol: String,
        status: u16,
        status_text: String,
        headers: Headers,
        body: FileLike,
        compress: bool,
    ) -> (r: Response)
        ensures
            r.protocol == protocol,
            r.status == status,
            r.status_text == status_text,
            r.headers@ == headers@,
            r.body == body,
            r.compress == compress,
    {
        Response { compress, body, headers, protocol, status, status_text }
    }

    /// The header block of the given map, rendered line by line.
    fn headers_block_of(headers: &Headers) -> (r: String)
        ensures
            r@ == headers_block_spec(headers@),
    {
        let ghost hs = headers@;
        let n = headers.map.len();
        let mut out = String::new();
        proof {
            assert(out@ =~= headers_block_spec(hs.take(0)));
        }
        let mut i: usize = 0;
        while i < n
            invariant
                n == headers.map@.len(),
                hs == headers@,
                i <= n,
                out@ == headers_block_spec(hs.take(i as int)),
            decreases n - i,
        {
            out.append(headers.map[i].0.as_str());
            out.append(": ");
            out.append(headers.map[i].1.as_str());
            out.append("\r\n");
            proof {
                lemma_headers_block_push(hs.take(i as int), hs[i as int]);
                assert(hs.take(i + 1) =~= hs.take(i as int).push(hs[i as int]));
                assert(hs[i as int] == (headers.map@[i as int].0@, headers.map@[i as int].1@));
            }
            i += 1;
        }
        proof {
            assert(hs.take(n as int) =~= hs);
        }
        out
    }

    /// The rendered header block of this response's map.
    pub fn headers_as_string(&self) -> (r: String)
        ensures
            r@ == headers_block_spec(self.headers@),
    {
        Self::headers_block_of(&self.headers)
    }

    /// The status line of this response.
    fn status_line(&self) -> (r: String)
        ensures
            r@ == status_line_of(self.protocol@, self.status as nat, self.status_text@),
    {
        let mut line = String::new();
        line.append(self.protocol.as_str());
        line.append(" ");
        let status = usize_to_string(self.status as usize);
        line.append(status.as_str());
        line.append(" ");
        line.append(self.status_text.as_str());
        line
    }

    /// The whole response as one string: status line, header block, blank
    /// line, body text. Meaningful for a text body, which is the only body
    /// a string can carry.
    pub fn build_as_string(&self) -> (r: String)
        requires
            self.body is TextFile,
        ensures
            r@ == head_of(self.protocol@, self.status as nat, self.status_text@, self.headers@)
                + self.body.text_view(),
    {
        let mut out = self.status_line();
        out.append("\r\n");
        let headers_as_string = self.headers_as_string();
        out.append(headers_as_string.as_str());
        out.append("\r\n");
        match &self.body {
            FileLike::TextFile(text) => {
                out.append(text.as_str());
            },
            FileLike::ImageFile(_) => {},
            FileLike::ProxyFile(_) => {},
        }
        out
    }

    /// Appends the body bytes to `out`.
    fn append_body_bytes(&self, out: &mut Vec<u8>)
        ensures
            final(out)@ == old(out)@ + self.body.byte_view(),
    {
        match &self.body {
            FileLike::TextFile(text) => {
                let bytes = text.as_str().as_bytes();
                proof {
                    assert(bytes@ == encode_utf8(text@));
                }
                append_bytes(out, bytes);
            },
            FileLike::ImageFile(b) => append_bytes(out, b.as_slice()),
            FileLike::ProxyFile(b) => append_bytes(out, b.as_slice()),
        }
    }

    /// The uncompressed bytes of this response, under its own header map.
    fn render_plain(&self) -> (r: Vec<u8>)
        ensures
            r@ == self.plain_render_spec(),
    {
        let mut head = self.status_line();
        head.append("\r\n");
        let block = Self::headers_block_of(&self.headers);
        head.append(block.as_str());
        head.append("\r\n");
        let mut out: Vec<u8> = Vec::new();
        proof {
            assert(out@ =~= Seq::<u8>::empty());
        }
        append_bytes(&mut out, head.as_str().as_bytes());
        proof {
            assert(out@ =~= encode_utf8(head@));
        }
        self.append_body_bytes(&mut out);
        out
    }

    /// The bytes transmitted once the compression attempt has come back:
    /// on success, the compressed framing around the compressed bytes; on
    /// failure, the uncompressed response with the fallback headers.
    pub fn render_with_compression(&self, compressed: Result<Vec<u8>, CompressionError>) -> (r: Vec<
        u8,
    >)
        ensures
            compressed is Ok ==> r@ == self.compressed_render_spec(compressed.unwrap()@),
            compressed is Err ==> r@ == self.fallback_render_spec(),
    {
        match compressed {
            Ok(compressed_file) => {
                let mut head = self.status_line();
                head.append("\r\n");
                head.append("Content-Length: ");
                let len_str = usize_to_string(compressed_file.len());
                head.append(len_str.as_str());
                head.append("\r\n");
                let block = Self::headers_block_of(&self.headers);
                head.append(block.as_str());
                head.append("\r\n");
                let mut out: Vec<u8> = Vec::new();
                proof {
                    assert(out@ =~= Seq::<u8>::empty());
                }
                append_bytes(&mut out, head.as_str().as_bytes());
                proof {
                    assert(out@ =~= encode_utf8(head@));
                }
                append_bytes(&mut out, compressed_file.as_slice());
                out
            },
            Err(_) => {
                let mut fallback = self.headers.duplicate();
                fallback.remove_by_key("Content-Encoding");
                fallback.remove_by_key("Connection");
                let body_len = self.body.len();
                fallback.insert(String::from_str("Content-Length"), usize_to_string(body_len));
                proof {
                    assert(fallback@ == fallback_headers_spec(
                        self.headers@,
                        self.body.byte_view().len(),
                    ));
                }
                let mut head = self.status_line();
                head.append("\r\n");
                let block = Self::headers_block_of(&fallback);
                head.append(block.as_str());
                head.append("\r\n");
                let mut out: Vec<u8> = Vec::new();
                proof {
                    assert(out@ =~= Seq::<u8>::empty());
                }
                append_bytes(&mut out, head.as_str().as_bytes());
                proof {
                    assert(out@ =~= encode_utf8(head@));
                }
                self.append_body_bytes(&mut out);
                out
            },
        }
    }

    /// The bytes this response transmits. Uncompressed responses render
    /// directly; a compressed response carries the gzip encoding of its
    /// body. Were the encoder ever to fail, the uncompressed rendering
    /// under the fallback headers would be transmitted instead — that path
    /// stands in `render_with_compression`, though encoding into memory
    /// succeeds.
    pub fn respond(&self) -> (r: Vec<u8>)
        ensures
            !self.compress ==> r@ == self.plain_render_spec(),
            self.compress ==> r@ == self.compressed_render_spec(gzip_of(self.body.byte_view())),
    {
        if !self.compress {
            return self.render_plain();
        }
        let compressed = Gzip::compress(&self.body);
        self.render_with_compression(compressed)
    }
}

} // verus!
