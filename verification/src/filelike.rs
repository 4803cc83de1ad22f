//! In-memory representation of a served file, and the classification of a
//! request path into a file type and a loading strategy.

use vstd::prelude::*;
use vstd::string::StringSliceAdditionalSpecFns;
use vstd::utf8::encode_utf8;

use crate::text::{eq_lower, lower_seq, split_spec, split_str, lemma_split_len_pos};

verus! {

/// A loaded file: decoded UTF-8 text, image bytes, or opaque bytes passed
/// through unchanged.
#[derive(Clone, Debug)]
pub enum FileLike {
    TextFile(String),
    ImageFile(Vec<u8>),
    ProxyFile(Vec<u8>),
}

/// The file types the server recognizes by extension; `ANON` stands for an
/// unknown or missing extension.
#[derive(Clone, Copy, PartialEq, Eq, Structural, Debug)]
pub enum KnownFileType {
    HTML,
    HTM,
    XHTML,
    XML,
    PHP,
    JS,
    CJS,
    MJS,
    JSON,
    JSON5,
    JSONLD,
    CSS,
    CSV,
    SVG,
    TEXT,
    GIF,
    ICO,
    JPG,
    JPEG,
    PNG,
    WEBP,
    GZ,
    PDF,
    TAR,
    ZIP,
    WASM,
    ANON,
}

/// How a file of a given type is read from disk: decoded as UTF-8 text,
/// read as image bytes, or read as opaque bytes.
#[derive(Clone, Copy, PartialEq, Eq, Structural, Debug)]
pub enum LoadStrategy {
    Text,
    Image,
    Opaque,
}

/// Appends the bytes of `src` to `out`.
pub fn append_bytes(out: &mut Vec<u8>, src: &[u8])
    ensures
        final(out)@ == old(out)@ + src@,
{
    proof {
        assert(out@ =~= old(out)@ + src@.take(0));
    }
    let n = src.len();
    let mut i: usize = 0;
    while i < n
        invariant
            n == src@.len(),
            i <= n,
            out@ == old(out)@ + src@.take(i as int),
        decreases n - i,
    {
        out.push(src[i]);
        proof {
            assert(old(out)@ + src@.take(i + 1) =~= (old(out)@ + src@.take(i as int)).push(
                src@[i as int],
            ));
        }
        i += 1;
    }
    proof {
        assert(src@.take(n as int) =~= src@);
    }
}

/// Which representation a `FileLike` carries.
#[derive(Clone, Copy, PartialEq, Eq, Structural, Debug)]
pub enum FileKind {
    Text,
    Image,
    Proxy,
}

/// Two files with the same kind and the same content, text and bytes.
pub open spec fn same_content(a: FileLike, b: FileLike) -> bool {
    a.kind() == b.kind() && a.text_view() == b.text_view() && a.byte_view() == b.byte_view()
}

impl FileLike {
    /// The representation this file carries.
    pub open spec fn kind(&self) -> FileKind {
        match self {
            FileLike::TextFile(_) => FileKind::Text,
            FileLike::ImageFile(_) => FileKind::Image,
            FileLike::ProxyFile(_) => FileKind::Proxy,
        }
    }

    /// The decoded text of a text file; empty for byte files.
    pub open spec fn text_view(&self) -> Seq<char> {
        match self {
            FileLike::TextFile(s) => s@,
            FileLike::ImageFile(_) => Seq::empty(),
            FileLike::ProxyFile(_) => Seq::empty(),
        }
    }

    /// The bytes this file contributes to a response body: the UTF-8
    /// encoding of text, or the raw bytes.
    pub open spec fn byte_view(&self) -> Seq<u8> {
        match self {
            FileLike::TextFile(s) => encode_utf8(s@),
            FileLike::ImageFile(b) => b@,
            FileLike::ProxyFile(b) => b@,
        }
    }

    /// A copy of this file with the same kind and content.
    pub fn duplicate(&self) -> (r: FileLike)
        ensures
            same_content(r, *self),
    {
        match self {
            FileLike::TextFile(s) => FileLike::TextFile(s.clone()),
            FileLike::ImageFile(b) => {
                let mut copy: Vec<u8> = Vec::new();
                append_bytes(&mut copy, b.as_slice());
                FileLike::ImageFile(copy)
            },
            FileLike::ProxyFile(b) => {
                let mut copy: Vec<u8> = Vec::new();
                append_bytes(&mut copy, b.as_slice());
                FileLike::ProxyFile(copy)
            },
        }
    }

    /// The byte length of the body.
    pub fn len(&self) -> (n: usize)
        ensures
            n == self.byte_view().len(),
    {
        match self {
            FileLike::TextFile(f) => {
                let b = f.as_str().as_bytes();
                proof {
                    assert(b@ == encode_utf8(f@));
                }
                b.len()
            },
            FileLike::ImageFile(f) => f.len(),
            FileLike::ProxyFile(f) => f.len(),
        }
    }
}

/// The extension of a path: what follows the last `.` of the final
/// `/`-separated segment, or nothing when that segment has no `.`.
pub open spec fn extension_spec(p: Seq<char>) -> Option<Seq<char>> {
    let name = split_spec(p, "/"@).last();
    let segs = split_spec(name, "."@);
    if segs.len() >= 2 {
        Some(segs.last())
    } else {
        None
    }
}

/// The file type a lower-case extension is recognized as.
pub open spec fn file_type_of_ext(e: Seq<char>) -> KnownFileType {
    if e == "html"@ {
        KnownFileType::HTML
    } else if e == "htm"@ {
        KnownFileType::HTM
    } else if e == "xhtml"@ {
        KnownFileType::XHTML
    } else if e == "xml"@ {
        KnownFileType::XML
    } else if e == "php"@ {
        KnownFileType::PHP
    } else if e == "js"@ {
        KnownFileType::JS
    } else if e == "mjs"@ {
        KnownFileType::MJS
    } else if e == "cjs"@ {
        KnownFileType::CJS
    } else if e == "json"@ {
        KnownFileType::JSON
    } else if e == "json5"@ {
        KnownFileType::JSON5
    } else if e == "jsonld"@ {
        KnownFileType::JSONLD
    } else if e == "css"@ {
        KnownFileType::CSS
    } else if e == "csv"@ {
        KnownFileType::CSV
    } else if e == "svg"@ {
        KnownFileType::SVG
    } else if e == "txt"@ {
        KnownFileType::TEXT
    } else if e == "gif"@ {
        KnownFileType::GIF
    } else if e == "ico"@ {
        KnownFileType::ICO
    } else if e == "jpg"@ {
        KnownFileType::JPG
    } else if e == "jpeg"@ {
        KnownFileType::JPEG
    } else if e == "png"@ {
        KnownFileType::PNG
    } else if e == "webp"@ {
        KnownFileType::WEBP
    } else if e == "gz"@ {
        KnownFileType::GZ
    } else if e == "pdf"@ {
        KnownFileType::PDF
    } else if e == "tar"@ {
        KnownFileType::TAR
    } else if e == "zip"@ {
        KnownFileType::ZIP
    } else if e == "wasm"@ {
        KnownFileType::WASM
    } else {
        KnownFileType::ANON
    }
}

/// The file type of a path: its extension, folded to lower case, looked up
/// in the recognized set.
pub open spec fn file_type_of(p: Seq<char>) -> KnownFileType {
    match extension_spec(p) {
        Some(e) => file_type_of_ext(lower_seq(e)),
        None => KnownFileType::ANON,
    }
}

/// The loading strategy of each file type: recognized text types decode as
/// UTF-8, recognized image types read as image bytes, everything else is
/// passed through opaquely.
pub open spec fn strategy_of(t: KnownFileType) -> LoadStrategy {
    match t {
        KnownFileType::HTML => LoadStrategy::Text,
        KnownFileType::HTM => LoadStrategy::Text,
        KnownFileType::XHTML => LoadStrategy::Text,
        KnownFileType::XML => LoadStrategy::Text,
        KnownFileType::PHP => LoadStrategy::Text,
        KnownFileType::JS => LoadStrategy::Text,
        KnownFileType::MJS => LoadStrategy::Text,
        KnownFileType::CJS => LoadStrategy::Text,
        KnownFileType::JSON => LoadStrategy::Text,
        KnownFileType::JSON5 => LoadStrategy::Text,
        KnownFileType::JSONLD => LoadStrategy::Text,
        KnownFileType::CSS => LoadStrategy::Text,
        KnownFileType::CSV => LoadStrategy::Text,
        KnownFileType::SVG => LoadStrategy::Text,
        KnownFileType::GIF => LoadStrategy::Image,
        KnownFileType::ICO => LoadStrategy::Image,
        KnownFileType::JPG => LoadStrategy::Image,
        KnownFileType::JPEG => LoadStrategy::Image,
        KnownFileType::PNG => LoadStrategy::Image,
        KnownFileType::WEBP => LoadStrategy::Image,
        _ => LoadStrategy::Opaque,
    }
}

/// The extension of `path`, as `extension_spec` defines it.
pub fn extension_of(path: &str) -> (r: Option<String>)
    ensures
        r is Some <==> extension_spec(path@) is Some,
        r is Some ==> r.unwrap()@ == extension_spec(path@).unwrap(),
{
    let parts = split_str(path, "/");
    proof {
        lemma_split_len_pos(path@, "/"@);
    }
    let name = &parts[parts.len() - 1];
    proof {
        assert(name@ == split_spec(path@, "/"@).last());
        lemma_split_len_pos(name@, "."@);
    }
    let segs = split_str(name.as_str(), ".");
    if segs.len() >= 2 {
        let e = segs[segs.len() - 1].clone();
        proof {
            assert(e@ == split_spec(name@, "."@).last());
        }
        Some(e)
    } else {
        None
    }
}

impl FileLike {
    /// Classifies a request path by the extension of its final segment,
    /// case-insensitively; unknown or missing extensions are `ANON`.
    pub fn get_file_type(path: &str) -> (t: KnownFileType)
        ensures
            t == file_type_of(path@),
    {
        let ext_opt = extension_of(path);
        match ext_opt {
            None => KnownFileType::ANON,
            Some(ext) => {
                let e = ext.as_str();
                if eq_lower(e, "html") {
                    KnownFileType::HTML
                } else if eq_lower(e, "htm") {
                    KnownFileType::HTM
                } else if eq_lower(e, "xhtml") {
                    KnownFileType::XHTML
                } else if eq_lower(e, "xml") {
                    KnownFileType::XML
                } else if eq_lower(e, "php") {
                    KnownFileType::PHP
                } else if eq_lower(e, "js") {
                    KnownFileType::JS
                } else if eq_lower(e, "mjs") {
                    KnownFileType::MJS
                } else if eq_lower(e, "cjs") {
                    KnownFileType::CJS
                } else if eq_lower(e, "json") {
                    KnownFileType::JSON
                } else if eq_lower(e, "json5") {
                    KnownFileType::JSON5
                } else if eq_lower(e, "jsonld") {
                    KnownFileType::JSONLD
                } else if eq_lower(e, "css") {
                    KnownFileType::CSS
                } else if eq_lower(e, "csv") {
                    KnownFileType::CSV
                } else if eq_lower(e, "svg") {
                    KnownFileType::SVG
                } else if eq_lower(e, "txt") {
                    KnownFileType::TEXT
                } else if eq_lower(e, "gif") {
                    KnownFileType::GIF
                } else if eq_lower(e, "ico") {
                    KnownFileType::ICO
                } else if eq_lower(e, "jpg") {
                    KnownFileType::JPG
                } else if eq_lower(e, "jpeg") {
                    KnownFileType::JPEG
                } else if eq_lower(e, "png") {
                    KnownFileType::PNG
                } else if eq_lower(e, "webp") {
                    KnownFileType::WEBP
                } else if eq_lower(e, "gz") {
                    KnownFileType::GZ
                } else if eq_lower(e, "pdf") {
                    KnownFileType::PDF
                } else if eq_lower(e, "tar") {
                    KnownFileType::TAR
                } else if eq_lower(e, "zip") {
                    KnownFileType::ZIP
                } else if eq_lower(e, "wasm") {
                    KnownFileType::WASM
                } else {
                    KnownFileType::ANON
                }
            },
        }
    }

    /// The loading strategy for a path, consistent with `get_file_type`.
    pub fn loading_strategy(path: &str) -> (s: LoadStrategy)
        ensures
            s == strategy_of(file_type_of(path@)),
    {
        let t = Self::get_file_type(path);
        match t {
            KnownFileType::HTML => LoadStrategy::Text,
            KnownFileType::HTM => LoadStrategy::Text,
            KnownFileType::XHTML => LoadStrategy::Text,
            KnownFileType::XML => LoadStrategy::Text,
            KnownFileType::PHP => LoadStrategy::Text,
            KnownFileType::JS => LoadStrategy::Text,
            KnownFileType::MJS => LoadStrategy::Text,
            KnownFileType::CJS => LoadStrategy::Text,
            KnownFileType::JSON => LoadStrategy::Text,
            KnownFileType::JSON5 => LoadStrategy::Text,
            KnownFileType::JSONLD => LoadStrategy::Text,
            KnownFileType::CSS => LoadStrategy::Text,
            KnownFileType::CSV => LoadStrategy::Text,
            KnownFileType::SVG => LoadStrategy::Text,
            KnownFileType::GIF => LoadStrategy::Image,
            KnownFileType::ICO => LoadStrategy::Image,
            KnownFileType::JPG => LoadStrategy::Image,
            KnownFileType::JPEG => LoadStrategy::Image,
            KnownFileType::PNG => LoadStrategy::Image,
            KnownFileType::WEBP => LoadStrategy::Image,
            _ => LoadStrategy::Opaque,
        }
    }
}

} // verus!
