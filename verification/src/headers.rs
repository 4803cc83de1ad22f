//! The header map used for incoming and outgoing headers, and the
//! extension-to-content-type table.

use vstd::prelude::*;

use crate::filelike::{extension_spec, extension_of, FileLike};
use crate::request::Request;
use crate::text::{dec_str, eq_lower, lower_seq, split_spec, split_str, str_eq, usize_to_string};

verus! {

/// A key-to-value mapping of header names to values. Insertion is
/// last-one-wins: a later value replaces an earlier one under the same key,
/// in place, so every key occurs at most once and first-insertion order is
/// kept.
#[derive(Clone, Debug)]
pub struct Headers {
    pub map: Vec<(String, String)>,
}

/// The views of a vector of string pairs, element by element.
pub open spec fn pair_views(v: Seq<(String, String)>) -> Seq<(Seq<char>, Seq<char>)> {
    v.map_values(|p: (String, String)| (p.0@, p.1@))
}

impl View for Headers {
    type V = Seq<(Seq<char>, Seq<char>)>;

    open spec fn view(&self) -> Seq<(Seq<char>, Seq<char>)> {
        pair_views(self.map@)
    }
}

/// The value under the first entry whose key is `k`, if any.
pub open spec fn lookup_spec(hs: Seq<(Seq<char>, Seq<char>)>, k: Seq<char>) -> Option<Seq<char>>
    decreases hs.len(),
{
    if hs.len() == 0 {
        None
    } else if hs[0].0 == k {
        Some(hs[0].1)
    } else {
        lookup_spec(hs.subrange(1, hs.len() as int), k)
    }
}

/// `hs` with `v` stored under `k`: the first entry keyed `k` is replaced in
/// place, or a new entry is appended when none exists.
pub open spec fn insert_spec(
    hs: Seq<(Seq<char>, Seq<char>)>,
    k: Seq<char>,
    v: Seq<char>,
) -> Seq<(Seq<char>, Seq<char>)>
    decreases hs.len(),
{
    if hs.len() == 0 {
        seq![(k, v)]
    } else if hs[0].0 == k {
        seq![(k, v)] + hs.subrange(1, hs.len() as int)
    } else {
        seq![hs[0]] + insert_spec(hs.subrange(1, hs.len() as int), k, v)
    }
}

/// `hs` after inserting every pair of `items`, in order.
pub open spec fn inserts_spec(
    hs: Seq<(Seq<char>, Seq<char>)>,
    items: Seq<(Seq<char>, Seq<char>)>,
) -> Seq<(Seq<char>, Seq<char>)>
    decreases items.len(),
{
    if items.len() == 0 {
        hs
    } else {
        inserts_spec(
            insert_spec(hs, items[0].0, items[0].1),
            items.subrange(1, items.len() as int),
        )
    }
}

/// The key and value of a raw header line: what stands before and after the
/// first `": "`, or nothing when the line has no such separator.
pub open spec fn raw_header_kv(line: Seq<char>) -> Option<(Seq<char>, Seq<char>)> {
    let parts = split_spec(line, ": "@);
    if parts.len() > 1 {
        Some((parts[0], parts[1]))
    } else {
        None
    }
}

/// The key-value pairs of a sequence of raw header lines, in order; lines
/// without a separator are dropped.
pub open spec fn convert_raw_spec(lines: Seq<Seq<char>>) -> Seq<(Seq<char>, Seq<char>)>
    decreases lines.len(),
{
    if lines.len() == 0 {
        Seq::empty()
    } else {
        let rest = convert_raw_spec(lines.subrange(1, lines.len() as int));
        match raw_header_kv(lines[0]) {
            Some(kv) => seq![kv] + rest,
            None => rest,
        }
    }
}

/// If the first entry keyed `k` stands at `i`, lookup finds its value.
pub proof fn lemma_lookup_at(hs: Seq<(Seq<char>, Seq<char>)>, k: Seq<char>, i: int)
    requires
        0 <= i < hs.len(),
        hs[i].0 == k,
        forall|j: int| 0 <= j < i ==> (#[trigger] hs[j]).0 != k,
    ensures
        lookup_spec(hs, k) == Some(hs[i].1),
    decreases i,
{
    if i > 0 {
        let tail = hs.subrange(1, hs.len() as int);
        assert(forall|j: int| 0 <= j < i - 1 ==> (#[trigger] tail[j]).0 != k);
        lemma_lookup_at(tail, k, i - 1);
    }
}

/// With no entry keyed `k`, lookup finds nothing.
pub proof fn lemma_lookup_none(hs: Seq<(Seq<char>, Seq<char>)>, k: Seq<char>)
    requires
        forall|j: int| 0 <= j < hs.len() ==> (#[trigger] hs[j]).0 != k,
    ensures
        lookup_spec(hs, k) is None,
    decreases hs.len(),
{
    if hs.len() > 0 {
        lemma_lookup_none(hs.subrange(1, hs.len() as int), k);
    }
}

/// If the first entry keyed `k` stands at `i`, insertion updates it there.
proof fn lemma_insert_update(hs: Seq<(Seq<char>, Seq<char>)>, k: Seq<char>, v: Seq<char>, i: int)
    requires
        0 <= i < hs.len(),
        hs[i].0 == k,
        forall|j: int| 0 <= j < i ==> (#[trigger] hs[j]).0 != k,
    ensures
        insert_spec(hs, k, v) == hs.update(i, (k, v)),
    decreases i,
{
    let tail = hs.subrange(1, hs.len() as int);
    if i == 0 {
        assert(insert_spec(hs, k, v) =~= hs.update(0, (k, v)));
    } else {
        assert(forall|j: int| 0 <= j < i - 1 ==> (#[trigger] tail[j]).0 != k);
        lemma_insert_update(tail, k, v, i - 1);
        assert(seq![hs[0]] + tail.update(i - 1, (k, v)) =~= hs.update(i, (k, v)));
    }
}

/// With no entry keyed `k`, insertion appends.
proof fn lemma_insert_push(hs: Seq<(Seq<char>, Seq<char>)>, k: Seq<char>, v: Seq<char>)
    requires
        forall|j: int| 0 <= j < hs.len() ==> (#[trigger] hs[j]).0 != k,
    ensures
        insert_spec(hs, k, v) == hs.push((k, v)),
    decreases hs.len(),
{
    let tail = hs.subrange(1, hs.len() as int);
    if hs.len() == 0 {
        assert(insert_spec(hs, k, v) =~= hs.push((k, v)));
    } else {
        lemma_insert_push(tail, k, v);
        assert(seq![hs[0]] + tail.push((k, v)) =~= hs.push((k, v)));
    }
}

impl Headers {
    /// An empty map filled with the given pairs, inserted in order,
    /// last-one-wins.
    pub fn new(headers_as_string_vec: Vec<(String, String)>) -> (r: Headers)
        ensures
            r@ == inserts_spec(Seq::empty(), pair_views(headers_as_string_vec@)),
    {
        let ghost items = pair_views(headers_as_string_vec@);
        let mut headers = Headers { map: Vec::new() };
        proof {
            assert(headers@ =~= Seq::<(Seq<char>, Seq<char>)>::empty());
            assert(items.subrange(0, items.len() as int) =~= items);
        }
        let mut i: usize = 0;
        while i < headers_as_string_vec.len()
            invariant
                items == pair_views(headers_as_string_vec@),
                i <= items.len(),
                inserts_spec(Seq::empty(), items) == inserts_spec(
                    headers@,
                    items.subrange(i as int, items.len() as int),
                ),
            decreases items.len() - i,
        {
            let ghost before = headers@;
            let ghost mid = items.subrange(i as int, items.len() as int);
            let key = headers_as_string_vec[i].0.clone();
            let value = headers_as_string_vec[i].1.clone();
            headers.insert(key, value);
            proof {
                assert(mid[0] == items[i as int]);
                assert(mid.subrange(1, mid.len() as int) =~= items.subrange(
                    i + 1,
                    items.len() as int,
                ));
                assert(inserts_spec(before, mid) == inserts_spec(
                    insert_spec(before, items[i as int].0, items[i as int].1),
                    items.subrange(i + 1, items.len() as int),
                ));
            }
            i += 1;
        }
        proof {
            assert(items.subrange(i as int, items.len() as int) =~= Seq::<(
                Seq<char>,
                Seq<char>,
            )>::empty());
        }
        headers
    }

    /// Stores `value` under `key`: replaces the value of an existing entry
    /// in place, or appends a new entry.
    pub fn insert(&mut self, key: String, value: String)
        ensures
            final(self)@ == insert_spec(old(self)@, key@, value@),
    {
        let n = self.map.len();
        let mut i: usize = 0;
        while i < n
            invariant
                n == self.map@.len(),
                i <= n,
                *self == *old(self),
                forall|j: int| 0 <= j < i ==> (#[trigger] self@[j]).0 != key@,
            decreases n - i,
        {
            let hit = str_eq(self.map[i].0.as_str(), key.as_str());
            if hit {
                proof {
                    lemma_insert_update(self@, key@, value@, i as int);
                }
                self.map.remove(i);
                self.map.insert(i, (key, value));
                proof {
                    assert(pair_views(self.map@) =~= insert_spec(old(self)@, key@, value@));
                }
                return ;
            }
            i += 1;
        }
        proof {
            lemma_insert_push(self@, key@, value@);
        }
        self.map.push((key, value));
        proof {
            assert(pair_views(self.map@) =~= insert_spec(old(self)@, key@, value@));
        }
    }

    /// A copy of this map with the same entries in the same order.
    pub fn duplicate(&self) -> (r: Headers)
        ensures
            r@ == self@,
    {
        let n = self.map.len();
        let mut map: Vec<(String, String)> = Vec::new();
        proof {
            assert(pair_views(map@) =~= self@.take(0));
        }
        let mut i: usize = 0;
        while i < n
            invariant
                n == self.map@.len(),
                i <= n,
                map@.len() == i,
                forall|j: int|
                    0 <= j < i ==> (#[trigger] map@[j]).0@ == self.map@[j].0@ && map@[j].1@
                        == self.map@[j].1@,
            decreases n - i,
        {
            let key = self.map[i].0.clone();
            let value = self.map[i].1.clone();
            map.push((key, value));
            i += 1;
        }
        let r = Headers { map };
        proof {
            assert forall|j: int| 0 <= j < n implies #[trigger] r@[j] == self@[j] by {
                assert(r@[j] == (map@[j].0@, map@[j].1@));
            }
            assert(r@ =~= self@);
        }
        r
    }

    /// The raw header lines turned into key-value pairs: what stands before
    /// and after the first `": "`; lines without that separator are dropped.
    pub fn convert_raw_headers(raw_headers: Vec<String>) -> (r: Vec<(String, String)>)
        ensures
            pair_views(r@) == convert_raw_spec(crate::text::views_of(raw_headers@)),
    {
        let ghost lines = crate::text::views_of(raw_headers@);
        let mut kv_header_vec: Vec<(String, String)> = Vec::new();
        proof {
            assert(pair_views(kv_header_vec@) =~= Seq::<(Seq<char>, Seq<char>)>::empty());
            assert(lines.subrange(0, lines.len() as int) =~= lines);
            assert(Seq::<(Seq<char>, Seq<char>)>::empty() + convert_raw_spec(lines)
                =~= convert_raw_spec(lines));
        }
        let mut i: usize = 0;
        while i < raw_headers.len()
            invariant
                lines == crate::text::views_of(raw_headers@),
                i <= lines.len(),
                convert_raw_spec(lines) == pair_views(kv_header_vec@) + convert_raw_spec(
                    lines.subrange(i as int, lines.len() as int),
                ),
            decreases lines.len() - i,
        {
            let ghost before = pair_views(kv_header_vec@);
            let ghost mid = lines.subrange(i as int, lines.len() as int);
            proof {
                assert(mid[0] == lines[i as int]);
                assert(mid.subrange(1, mid.len() as int) =~= lines.subrange(
                    i + 1,
                    lines.len() as int,
                ));
            }
            let split_headers = split_str(raw_headers[i].as_str(), ": ");
            if split_headers.len() > 1 {
                let key = split_headers[0].clone();
                let value = split_headers[1].clone();
                kv_header_vec.push((key, value));
                proof {
                    assert(raw_header_kv(lines[i as int]) == Some((
                        split_spec(lines[i as int], ": "@)[0],
                        split_spec(lines[i as int], ": "@)[1],
                    )));
                    assert(pair_views(kv_header_vec@) =~= before + seq![
                        raw_header_kv(lines[i as int]).unwrap(),
                    ]);
                    assert(before + convert_raw_spec(mid) =~= (before + seq![
                        raw_header_kv(lines[i as int]).unwrap(),
                    ]) + convert_raw_spec(lines.subrange(i + 1, lines.len() as int)));
                }
            } else {
                proof {
                    assert(raw_header_kv(lines[i as int]) is None);
                }
            }
            i += 1;
        }
        proof {
            assert(lines.subrange(i as int, lines.len() as int) =~= Seq::<Seq<char>>::empty());
            assert(pair_views(kv_header_vec@) + convert_raw_spec(Seq::<Seq<char>>::empty())
                =~= pair_views(kv_header_vec@));
        }
        kv_header_vec
    }

    /// The value stored under `key`, if any.
    pub fn get_header_by_key(&self, key: &str) -> (r: Option<&String>)
        ensures
            match r {
                Some(v) => lookup_spec(self@, key@) == Some(v@),
                None => lookup_spec(self@, key@) is None,
            },
    {
        let n = self.map.len();
        let mut i: usize = 0;
        while i < n
            invariant
                n == self.map@.len(),
                i <= n,
                forall|j: int| 0 <= j < i ==> (#[trigger] self@[j]).0 != key@,
            decreases n - i,
        {
            let hit = str_eq(self.map[i].0.as_str(), key);
            if hit {
                proof {
                    lemma_lookup_at(self@, key@, i as int);
                }
                return Some(&self.map[i].1);
            }
            i += 1;
        }
        proof {
            lemma_lookup_none(self@, key@);
        }
        None
    }
}

/// `hs` with the first entry keyed `k` dropped, if any.
pub open spec fn remove_key_spec(
    hs: Seq<(Seq<char>, Seq<char>)>,
    k: Seq<char>,
) -> Seq<(Seq<char>, Seq<char>)>
    decreases hs.len(),
{
    if hs.len() == 0 {
        hs
    } else if hs[0].0 == k {
        hs.subrange(1, hs.len() as int)
    } else {
        seq![hs[0]] + remove_key_spec(hs.subrange(1, hs.len() as int), k)
    }
}

/// If the first entry keyed `k` stands at `i`, removal drops exactly it.
proof fn lemma_remove_at(hs: Seq<(Seq<char>, Seq<char>)>, k: Seq<char>, i: int)
    requires
        0 <= i < hs.len(),
        hs[i].0 == k,
        forall|j: int| 0 <= j < i ==> (#[trigger] hs[j]).0 != k,
    ensures
        remove_key_spec(hs, k) == hs.remove(i),
    decreases i,
{
    let tail = hs.subrange(1, hs.len() as int);
    if i == 0 {
        assert(remove_key_spec(hs, k) =~= hs.remove(0));
    } else {
        assert(forall|j: int| 0 <= j < i - 1 ==> (#[trigger] tail[j]).0 != k);
        lemma_remove_at(tail, k, i - 1);
        assert(seq![hs[0]] + tail.remove(i - 1) =~= hs.remove(i));
    }
}

/// With no entry keyed `k`, removal changes nothing.
proof fn lemma_remove_none(hs: Seq<(Seq<char>, Seq<char>)>, k: Seq<char>)
    requires
        forall|j: int| 0 <= j < hs.len() ==> (#[trigger] hs[j]).0 != k,
    ensures
        remove_key_spec(hs, k) == hs,
    decreases hs.len(),
{
    let tail = hs.subrange(1, hs.len() as int);
    if hs.len() > 0 {
        lemma_remove_none(tail, k);
        assert(seq![hs[0]] + tail =~= hs);
    }
}

impl Headers {
    /// Drops the first entry stored under `key`, if any.
    pub fn remove_by_key(&mut self, key: &str)
        ensures
            final(self)@ == remove_key_spec(old(self)@, key@),
    {
        let n = self.map.len();
        let mut i: usize = 0;
        while i < n
            invariant
                n == self.map@.len(),
                i <= n,
                *self == *old(self),
                forall|j: int| 0 <= j < i ==> (#[trigger] self@[j]).0 != key@,
            decreases n - i,
        {
            let hit = str_eq(self.map[i].0.as_str(), key);
            if hit {
                proof {
                    lemma_remove_at(self@, key@, i as int);
                }
                self.map.remove(i);
                proof {
                    assert(pair_views(self.map@) =~= remove_key_spec(old(self)@, key@));
                }
                return ;
            }
            i += 1;
        }
        proof {
            lemma_remove_none(self@, key@);
        }
    }
}

/// The content type served for a lower-case extension; unknown extensions
/// fall back to `application/octet-stream`.
pub open spec fn mime_of_ext(e: Seq<char>) -> Seq<char> {
    if e == "htm"@ {
        "text/html; charset=utf-8"@
    } else if e == "html"@ {
        "text/html; charset=utf-8"@
    } else if e == "xhtml"@ {
        "application/xhtml+xml"@
    } else if e == "xml"@ {
        "application/xml"@
    } else if e == "css"@ {
        "text/css"@
    } else if e == "js"@ {
        "text/javascript"@
    } else if e == "mjs"@ {
        "text/javscript"@
    } else if e == "cjs"@ {
        "text/javascript"@
    } else if e == "json"@ {
        "application/json"@
    } else if e == "jsonld"@ {
        "application/ld+json"@
    } else if e == "csv"@ {
        "text/csv"@
    } else if e == "php"@ {
        "application/x-httpd-php"@
    } else if e == "gz"@ {
        "application/gzip"@
    } else if e == "pdf"@ {
        "application/pdf"@
    } else if e == "tar"@ {
        "application/x-tar"@
    } else if e == "zip"@ {
        "application/zip"@
    } else if e == "avif"@ {
        "image/avif"@
    } else if e == "gif"@ {
        "image/gif"@
    } else if e == "ico"@ {
        "image/vnd.microsoft.icon"@
    } else if e == "jpg"@ {
        "image/jpeg"@
    } else if e == "jpeg"@ {
        "image/jpeg"@
    } else if e == "mp3"@ {
        "video/mpeg"@
    } else if e == "mp4"@ {
        "video/mp4"@
    } else if e == "mpeg"@ {
        "videp/mpeg"@
    } else if e == "png"@ {
        "image/png"@
    } else if e == "svg"@ {
        "image/svg+xml"@
    } else if e == "webp"@ {
        "image/webp"@
    } else if e == "wav"@ {
        "audio/wav"@
    } else if e == "weba"@ {
        "audio/webm"@
    } else if e == "webm"@ {
        "audio/webm"@
    } else if e == "otf"@ {
        "font/otf"@
    } else if e == "ttf"@ {
        "font/ttf"@
    } else if e == "rtf"@ {
        "application/rtf"@
    } else if e == "woff"@ {
        "font/woff"@
    } else if e == "woff2"@ {
        "font/woff2"@
    } else if e == "bin"@ {
        "application/octet-stream"@
    } else if e == "txt"@ {
        "text/plain"@
    } else {
        "application/octet-stream"@
    }
}

/// The content type of a request path: its extension, folded to lower case,
/// looked up in the table; a missing extension falls back to
/// `application/octet-stream`.
pub open spec fn content_type_of(p: Seq<char>) -> Seq<char> {
    match extension_spec(p) {
        Some(e) => mime_of_ext(lower_seq(e)),
        None => "application/octet-stream"@,
    }
}

/// The outgoing header entries, in the order they are built: `Content-Type`
/// and `Cache-Control` always; then `Content-Encoding: gzip` and
/// `Connection: close` when compressing, or `Content-Length` when not.
pub open spec fn outgoing_headers_spec(
    path: Seq<char>,
    body_len: nat,
    compressed: bool,
    cache_control: Seq<char>,
) -> Seq<(Seq<char>, Seq<char>)> {
    if compressed {
        seq![
            ("Content-Type"@, content_type_of(path)),
            ("Cache-Control"@, cache_control),
            ("Content-Encoding"@, "gzip"@),
            ("Connection"@, "close"@),
        ]
    } else {
        seq![
            ("Content-Type"@, content_type_of(path)),
            ("Cache-Control"@, cache_control),
            ("Content-Length"@, dec_str(body_len)),
        ]
    }
}

/// Content type lookup is case-insensitive on the extension: two paths
/// whose extensions agree up to ASCII case are served the same content
/// type.
pub proof fn lemma_content_type_case_insensitive(p1: Seq<char>, p2: Seq<char>)
    requires
        extension_spec(p1) is Some,
        extension_spec(p2) is Some,
        lower_seq(extension_spec(p1).unwrap()) == lower_seq(extension_spec(p2).unwrap()),
    ensures
        content_type_of(p1) == content_type_of(p2),
{
}

/// A compressed delivery marks itself and omits a length: its header block
/// carries `Content-Encoding: gzip` and no `Content-Length`; an
/// uncompressed delivery carries the body length and no encoding.
pub proof fn lemma_negotiated_header_block(path: Seq<char>, body_len: nat, cache_control: Seq<char>)
    ensures
        lookup_spec(outgoing_headers_spec(path, body_len, true, cache_control), "Content-Encoding"@)
            == Some("gzip"@),
        lookup_spec(
            outgoing_headers_spec(path, body_len, true, cache_control),
            "Content-Length"@,
        ) is None,
        lookup_spec(outgoing_headers_spec(path, body_len, false, cache_control), "Content-Length"@)
            == Some(dec_str(body_len)),
        lookup_spec(
            outgoing_headers_spec(path, body_len, false, cache_control),
            "Content-Encoding"@,
        ) is None,
{
    reveal_strlit("Content-Type");
    reveal_strlit("Cache-Control");
    reveal_strlit("Content-Encoding");
    reveal_strlit("Connection");
    reveal_strlit("Content-Length");
    assert("Content-Type"@.len() == 12);
    assert("Cache-Control"@.len() == 13);
    assert("Content-Encoding"@.len() == 16);
    assert("Connection"@.len() == 10);
    assert("Content-Length"@.len() == 14);
    let hc = outgoing_headers_spec(path, body_len, true, cache_control);
    let hp = outgoing_headers_spec(path, body_len, false, cache_control);
    assert forall|j: int| 0 <= j < 2 implies (#[trigger] hc[j]).0 != "Content-Encoding"@ by {
        assert(hc[0].0 == "Content-Type"@);
        assert(hc[1].0 == "Cache-Control"@);
        assert(j == 0 || j == 1);
    }
    lemma_lookup_at(hc, "Content-Encoding"@, 2);
    assert forall|j: int| 0 <= j < hc.len() implies (#[trigger] hc[j]).0 != "Content-Length"@ by {
        assert(hc[0].0 == "Content-Type"@);
        assert(hc[1].0 == "Cache-Control"@);
        assert(hc[2].0 == "Content-Encoding"@);
        assert(hc[3].0 == "Connection"@);
        assert(j == 0 || j == 1 || j == 2 || j == 3);
    }
    lemma_lookup_none(hc, "Content-Length"@);
    assert forall|j: int| 0 <= j < 2 implies (#[trigger] hp[j]).0 != "Content-Length"@ by {
        assert(hp[0].0 == "Content-Type"@);
        assert(hp[1].0 == "Cache-Control"@);
        assert(j == 0 || j == 1);
    }
    lemma_lookup_at(hp, "Content-Length"@, 2);
    assert forall|j: int| 0 <= j < hp.len() implies (#[trigger] hp[j]).0 != "Content-Encoding"@ by {
        assert(hp[0].0 == "Content-Type"@);
        assert(hp[1].0 == "Cache-Control"@);
        assert(hp[2].0 == "Content-Length"@);
        assert(j == 0 || j == 1 || j == 2);
    }
    lemma_lookup_none(hp, "Content-Encoding"@);
}

/// The headers used when a compressed delivery falls back to an
/// uncompressed one: `Content-Encoding` and `Connection` dropped, and
/// `Content-Length` set to the uncompressed body length.
pub open spec fn fallback_headers_spec(
    hs: Seq<(Seq<char>, Seq<char>)>,
    body_len: nat,
) -> Seq<(Seq<char>, Seq<char>)> {
    insert_spec(
        remove_key_spec(remove_key_spec(hs, "Content-Encoding"@), "Connection"@),
        "Content-Length"@,
        dec_str(body_len),
    )
}

/// A failed compression falls back to exactly the uncompressed headers:
/// applying the fallback to the compressed header block of a request gives
/// the header block the uncompressed path would have built.
pub proof fn lemma_compression_fallback_headers(
    path: Seq<char>,
    body_len: nat,
    cache_control: Seq<char>,
)
    ensures
        fallback_headers_spec(
            outgoing_headers_spec(path, body_len, true, cache_control),
            body_len,
        ) == outgoing_headers_spec(path, body_len, false, cache_control),
{
    reveal_strlit("Content-Type");
    reveal_strlit("Cache-Control");
    reveal_strlit("Content-Encoding");
    reveal_strlit("Connection");
    reveal_strlit("Content-Length");
    assert("Content-Type"@.len() == 12);
    assert("Cache-Control"@.len() == 13);
    assert("Content-Encoding"@.len() == 16);
    assert("Connection"@.len() == 10);
    assert("Content-Length"@.len() == 14);
    let hs = outgoing_headers_spec(path, body_len, true, cache_control);
    assert forall|j: int| 0 <= j < 2 implies (#[trigger] hs[j]).0 != "Content-Encoding"@ by {
        assert(hs[0].0 == "Content-Type"@);
        assert(hs[1].0 == "Cache-Control"@);
        assert(j == 0 || j == 1);
    }
    lemma_remove_at(hs, "Content-Encoding"@, 2);
    let h1 = hs.remove(2);
    assert(remove_key_spec(hs, "Content-Encoding"@) == h1);
    assert forall|j: int| 0 <= j < 2 implies (#[trigger] h1[j]).0 != "Connection"@ by {
        assert(h1[0].0 == "Content-Type"@);
        assert(h1[1].0 == "Cache-Control"@);
        assert(j == 0 || j == 1);
    }
    lemma_remove_at(h1, "Connection"@, 2);
    let h2 = h1.remove(2);
    assert(remove_key_spec(h1, "Connection"@) == h2);
    assert forall|j: int| 0 <= j < h2.len() implies (#[trigger] h2[j]).0 != "Content-Length"@ by {
        assert(h2[0].0 == "Content-Type"@);
        assert(h2[1].0 == "Cache-Control"@);
        assert(j == 0 || j == 1);
    }
    lemma_insert_push(h2, "Content-Length"@, dec_str(body_len));
    assert(h2.push(("Content-Length"@, dec_str(body_len))) =~= outgoing_headers_spec(
        path,
        body_len,
        false,
        cache_control,
    ));
}

impl Headers {
    /// The `Content-Type` value served for a request path, decided by the
    /// extension of its final segment, case-insensitively.
    pub fn format_content_type_header_based_on_request_path(path: &str) -> (r: String)
        ensures
            r@ == content_type_of(path@),
    {
        let ext_opt = extension_of(path);
        match ext_opt {
            None => String::from_str("application/octet-stream"),
            Some(ext) => {
                let e = ext.as_str();
                if eq_lower(e, "htm") {
                    String::from_str("text/html; charset=utf-8")
                } else if eq_lower(e, "html") {
                    String::from_str("text/html; charset=utf-8")
                } else if eq_lower(e, "xhtml") {
                    String::from_str("application/xhtml+xml")
                } else if eq_lower(e, "xml") {
                    String::from_str("application/xml")
                } else if eq_lower(e, "css") {
                    String::from_str("text/css")
                } else if eq_lower(e, "js") {
                    String::from_str("text/javascript")
                } else if eq_lower(e, "mjs") {
                    String::from_str("text/javscript")
                } else if eq_lower(e, "cjs") {
                    String::from_str("text/javascript")
                } else if eq_lower(e, "json") {
                    String::from_str("application/json")
                } else if eq_lower(e, "jsonld") {
                    String::from_str("application/ld+json")
                } else if eq_lower(e, "csv") {
                    String::from_str("text/csv")
                } else if eq_lower(e, "php") {
                    String::from_str("application/x-httpd-php")
                } else if eq_lower(e, "gz") {
                    String::from_str("application/gzip")
                } else if eq_lower(e, "pdf") {
                    String::from_str("application/pdf")
                } else if eq_lower(e, "tar") {
                    String::from_str("application/x-tar")
                } else if eq_lower(e, "zip") {
                    String::from_str("application/zip")
                } else if eq_lower(e, "avif") {
                    String::from_str("image/avif")
                } else if eq_lower(e, "gif") {
                    String::from_str("image/gif")
                } else if eq_lower(e, "ico") {
                    String::from_str("image/vnd.microsoft.icon")
                } else if eq_lower(e, "jpg") {
                    String::from_str("image/jpeg")
                } else if eq_lower(e, "jpeg") {
                    String::from_str("image/jpeg")
                } else if eq_lower(e, "mp3") {
                    String::from_str("video/mpeg")
                } else if eq_lower(e, "mp4") {
                    String::from_str("video/mp4")
                } else if eq_lower(e, "mpeg") {
                    String::from_str("videp/mpeg")
                } else if eq_lower(e, "png") {
                    String::from_str("image/png")
                } else if eq_lower(e, "svg") {
                    String::from_str("image/svg+xml")
                } else if eq_lower(e, "webp") {
                    String::from_str("image/webp")
                } else if eq_lower(e, "wav") {
                    String::from_str("audio/wav")
                } else if eq_lower(e, "weba") {
                    String::from_str("audio/webm")
                } else if eq_lower(e, "webm") {
                    String::from_str("audio/webm")
                } else if eq_lower(e, "otf") {
                    String::from_str("font/otf")
                } else if eq_lower(e, "ttf") {
                    String::from_str("font/ttf")
                } else if eq_lower(e, "rtf") {
                    String::from_str("application/rtf")
                } else if eq_lower(e, "woff") {
                    String::from_str("font/woff")
                } else if eq_lower(e, "woff2") {
                    String::from_str("font/woff2")
                } else if eq_lower(e, "bin") {
                    String::from_str("application/octet-stream")
                } else if eq_lower(e, "txt") {
                    String::from_str("text/plain")
                } else {
                    String::from_str("application/octet-stream")
                }
            },
        }
    }

    /// Adds the `Content-Type` header decided by the request path.
    pub fn add_content_type_outgoing_header(headers: &mut Self, request: &Request)
        ensures
            final(headers)@ == insert_spec(
                old(headers)@,
                "Content-Type"@,
                content_type_of(request.path@),
            ),
    {
        let content_type = Self::format_content_type_header_based_on_request_path(
            request.path().as_str(),
        );
        headers.insert(String::from_str("Content-Type"), content_type);
    }

    /// Adds the configured `Cache-Control` policy.
    pub fn add_cache_control_outgoing_header(headers: &mut Self, cache_control: &str)
        ensures
            final(headers)@ == insert_spec(old(headers)@, "Cache-Control"@, cache_control@),
    {
        headers.insert(String::from_str("Cache-Control"), String::from_str(cache_control));
    }

    /// Adds `Content-Encoding: gzip` and `Connection: close` for a
    /// compressed delivery.
    pub fn add_content_encoding_outgoing_header(headers: &mut Self)
        ensures
            final(headers)@ == insert_spec(
                insert_spec(old(headers)@, "Content-Encoding"@, "gzip"@),
                "Connection"@,
                "close"@,
            ),
    {
        headers.insert(String::from_str("Content-Encoding"), String::from_str("gzip"));
        headers.insert(String::from_str("Connection"), String::from_str("close"));
    }

    /// Adds `Content-Length` for an uncompressed delivery: the byte length
    /// of the body.
    pub fn add_content_length_outgoing_header(headers: &mut Self, file: &FileLike)
        ensures
            final(headers)@ == insert_spec(
                old(headers)@,
                "Content-Length"@,
                dec_str(file.byte_view().len()),
            ),
    {
        let len = file.len();
        headers.insert(String::from_str("Content-Length"), usize_to_string(len));
    }

    /// Builds the response headers for a request: `Content-Type` from the
    /// path, the `Cache-Control` policy, and either `Content-Encoding:
    /// gzip` with `Connection: close` (compressed delivery) or
    /// `Content-Length` (uncompressed delivery).
    pub fn construct_outgoing_headers(
        request: &Request,
        file: &FileLike,
        compressed: bool,
        cache_control: &str,
    ) -> (r: Headers)
        ensures
            r@ == outgoing_headers_spec(
                request.path@,
                file.byte_view().len(),
                compressed,
                cache_control@,
            ),
    {
        proof {
            reveal_strlit("Content-Type");
            reveal_strlit("Cache-Control");
            reveal_strlit("Content-Encoding");
            reveal_strlit("Connection");
            reveal_strlit("Content-Length");
            assert("Content-Type"@.len() == 12);
            assert("Cache-Control"@.len() == 13);
            assert("Content-Encoding"@.len() == 16);
            assert("Connection"@.len() == 10);
            assert("Content-Length"@.len() == 14);
        }
        let mut headers = Self::new(Vec::new());
        proof {
            assert(pair_views(Seq::<(String, String)>::empty()) =~= Seq::<(
                Seq<char>,
                Seq<char>,
            )>::empty());
            assert(headers@ =~= Seq::<(Seq<char>, Seq<char>)>::empty());
        }
        Self::add_content_type_outgoing_header(&mut headers, request);
        let ghost h1 = seq![("Content-Type"@, content_type_of(request.path@))];
        proof {
            assert(headers@ =~= h1);
        }
        Self::add_cache_control_outgoing_header(&mut headers, cache_control);
        let ghost h2 = h1.push(("Cache-Control"@, cache_control@));
        proof {
            assert forall|j: int| 0 <= j < h1.len() implies (#[trigger] h1[j]).0
                != "Cache-Control"@ by {
                assert(j == 0);
                assert(h1[0].0 == "Content-Type"@);
            }
            lemma_insert_push(h1, "Cache-Control"@, cache_control@);
            assert(headers@ == h2);
        }
        if compressed {
            Self::add_content_encoding_outgoing_header(&mut headers);
            proof {
                assert forall|j: int| 0 <= j < h2.len() implies (#[trigger] h2[j]).0
                    != "Content-Encoding"@ by {
                    assert(h2[0].0 == "Content-Type"@);
                    assert(h2[1].0 == "Cache-Control"@);
                    assert(j == 0 || j == 1);
                }
                lemma_insert_push(h2, "Content-Encoding"@, "gzip"@);
                let h3 = h2.push(("Content-Encoding"@, "gzip"@));
                assert forall|j: int| 0 <= j < h3.len() implies (#[trigger] h3[j]).0
                    != "Connection"@ by {
                    assert(h3[0].0 == "Content-Type"@);
                    assert(h3[1].0 == "Cache-Control"@);
                    assert(h3[2].0 == "Content-Encoding"@);
                    assert(j == 0 || j == 1 || j == 2);
                }
                lemma_insert_push(h3, "Connection"@, "close"@);
                assert(h3.push(("Connection"@, "close"@)) =~= outgoing_headers_spec(
                    request.path@,
                    file.byte_view().len(),
                    true,
                    cache_control@,
                ));
            }
        } else {
            Self::add_content_length_outgoing_header(&mut headers, file);
            proof {
                assert forall|j: int| 0 <= j < h2.len() implies (#[trigger] h2[j]).0
                    != "Content-Length"@ by {
                    assert(h2[0].0 == "Content-Type"@);
                    assert(h2[1].0 == "Cache-Control"@);
                    assert(j == 0 || j == 1);
                }
                lemma_insert_push(h2, "Content-Length"@, dec_str(file.byte_view().len()));
                assert(h2.push(("Content-Length"@, dec_str(file.byte_view().len())))
                    =~= outgoing_headers_spec(
                    request.path@,
                    file.byte_view().len(),
                    false,
                    cache_control@,
                ));
            }
        }
        headers
    }

    /// The request's `Accept-Encoding` value, if it sent one.
    pub fn get_accept_encoding_header_if_exists(headers: &Headers) -> (r: Option<String>)
        ensures
            match r {
                Some(v) => lookup_spec(headers@, "Accept-Encoding"@) == Some(v@),
                None => lookup_spec(headers@, "Accept-Encoding"@) is None,
            },
    {
        match headers.get_header_by_key("Accept-Encoding") {
            Some(header) => Some(header.clone()),
            None => None,
        }
    }

    /// The request's `Accept` value, if it sent one.
    pub fn get_accept_content_header_if_exists(headers: &Headers) -> (r: Option<String>)
        ensures
            match r {
                Some(v) => lookup_spec(headers@, "Accept"@) == Some(v@),
                None => lookup_spec(headers@, "Accept"@) is None,
            },
    {
        match headers.get_header_by_key("Accept") {
            Some(header) => Some(header.clone()),
            None => None,
        }
    }
}

} // verus!
