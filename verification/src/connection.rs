//! Handling one connection: parse the request, resolve the file with the
//! backup fallback, negotiate compression, and assemble the bytes to write
//! back — or a structured JSON error response when nothing can be served.

use vstd::prelude::*;
use vstd::string::StringSliceAdditionalSpecFns;
use vstd::utf8::encode_utf8;

use crate::file_store::FileStore;
use crate::filelike::FileLike;
use crate::gzip::gzip_of;
use crate::headers::{content_type_of, insert_spec, lookup_spec, outgoing_headers_spec, Headers};
use crate::request::{effective_lines, parsed_headers, request_line_tokens, Request};
use crate::response::{compressed_render_of, plain_render_of, Response};
use crate::static_directory_manager::{resolve_spec, StaticDirectoryManager};
use crate::text::{contains_str, contains_sub, dec_str, has_sub_at, usize_to_string, views_of};

verus! {

/// The quoted, escaped JSON form serde_json gives a string; it depends on
/// the characters alone.
pub uninterp spec fn json_quoted(s: Seq<char>) -> Seq<char>;

/// A string whose JSON form needs no escape: no quote, no backslash, no
/// control character.
pub open spec fn json_plain(s: Seq<char>) -> bool {
    forall|i: int|
        0 <= i < s.len() ==> #[trigger] s[i] != '"' && s[i] != '\\' && (s[i] as u32) >= 32
}

/// Relies on serde_json's string serialization: the result is the quoted,
/// escaped JSON form of the string, and a character that needs no escape is
/// written as it stands.
#[verifier::external_body]
fn json_string_literal(s: &str) -> (r: String)
    ensures
        r@ == json_quoted(s@),
        json_plain(s@) ==> r@ == seq!['"'] + s@ + seq!['"'],
{
    serde_json::Value::String(s.to_string()).to_string()
}

/// The JSON error body: an object with one `error` member holding the
/// message.
pub open spec fn error_json_spec(msg: Seq<char>) -> Seq<char> {
    "{\"error\":"@ + json_quoted(msg) + "}"@
}

/// The headers of an error response: the body's byte length and the JSON
/// content type.
pub open spec fn error_headers_spec(msg: Seq<char>) -> Seq<(Seq<char>, Seq<char>)> {
    seq![
        ("Content-Length"@, dec_str(encode_utf8(error_json_spec(msg)).len())),
        ("Content-Type"@, content_type_of(".json"@)),
    ]
}

/// The bytes of the 500 response that reports `msg` as a JSON error body,
/// delivered uncompressed.
pub open spec fn error_render_spec(msg: Seq<char>) -> Seq<u8> {
    plain_render_of(
        "HTTP/1.1"@,
        500,
        "SERVER ERROR"@,
        error_headers_spec(msg),
        encode_utf8(error_json_spec(msg)),
    )
}

/// Did the request ask for gzip? True exactly when it sent an
/// `Accept-Encoding` value with `gzip` somewhere in it.
pub open spec fn wants_gzip(headers: Seq<(Seq<char>, Seq<char>)>) -> bool {
    match lookup_spec(headers, "Accept-Encoding"@) {
        Some(v) => contains_sub(v, "gzip"@),
        None => false,
    }
}

/// The path under which the backup file is searched: the configured name
/// behind a leading `/`.
pub open spec fn backup_path_spec(backup: Seq<char>) -> Seq<char> {
    "/"@ + backup
}

/// The file served for `path`, falling back to the backup file's path when
/// no approved directory yields `path` itself.
pub open spec fn resolve_with_backup_spec(
    dirs: Seq<Seq<char>>,
    backup: Seq<char>,
    path: Seq<char>,
    store: Seq<(Seq<char>, FileLike)>,
) -> Option<FileLike> {
    if resolve_spec(dirs, path, store) is Some {
        resolve_spec(dirs, path, store)
    } else {
        resolve_spec(dirs, backup_path_spec(backup), store)
    }
}

/// When a path resolves under no approved directory, what is served is
/// exactly what the backup file's path resolves to; when that fails too,
/// nothing is served.
pub proof fn lemma_backup_fallback(
    dirs: Seq<Seq<char>>,
    backup: Seq<char>,
    path: Seq<char>,
    store: Seq<(Seq<char>, FileLike)>,
)
    requires
        resolve_spec(dirs, path, store) is None,
    ensures
        resolve_with_backup_spec(dirs, backup, path, store) == resolve_spec(
            dirs,
            backup_path_spec(backup),
            store,
        ),
{
}

/// A missing resource is answered with the backup file's content, not a
/// 404: when the requested path resolves under no approved directory but
/// the backup file's path resolves to a file, what is served is that file —
/// so the body `handle` owes for a plain delivery is the 200 render around
/// exactly the backup file's bytes.
pub proof fn lemma_backup_content_served(
    dirs: Seq<Seq<char>>,
    backup: Seq<char>,
    path: Seq<char>,
    store: Seq<(Seq<char>, FileLike)>,
)
    requires
        resolve_spec(dirs, path, store) is None,
        resolve_spec(dirs, backup_path_spec(backup), store) is Some,
    ensures
        ({
            let resolved = resolve_with_backup_spec(dirs, backup, path, store);
            &&& resolved is Some
            &&& resolved.unwrap() == resolve_spec(dirs, backup_path_spec(backup), store).unwrap()
        }),
{
}

/// An unrecoverable failure, reported to the client as JSON.
pub struct ConnectionError {
    pub message: String,
}

impl ConnectionError {
    /// An error around the given message.
    pub fn new(message: String) -> (r: Self)
        ensures
            r.message@ == message@,
    {
        Self { message }
    }

    /// The message as the JSON error body: `{"error":<message>}`.
    pub fn get_error_as_json_string(&self) -> (r: String)
        ensures
            r@ == error_json_spec(self.message@),
    {
        let mut json_str = String::from_str("{\"error\":");
        let quoted = json_string_literal(self.message.as_str());
        json_str.append(quoted.as_str());
        json_str.append("}");
        json_str
    }
}

pub struct ConnectionHandler;

impl ConnectionHandler {
    /// The bytes of the 500 response reporting `e`: a JSON error body with
    /// its length and content type, delivered uncompressed.
    pub fn handle_request_with_error(e: String) -> (r: Vec<u8>)
        ensures
            r@ == error_render_spec(e@),
    {
        proof {
            reveal_strlit("Content-Length");
            reveal_strlit("Content-Type");
            assert("Content-Length"@.len() == 14);
            assert("Content-Type"@.len() == 12);
        }
        let connection_error = ConnectionError::new(e);
        let error_body = connection_error.get_error_as_json_string();
        let body_len = error_body.as_str().as_bytes().len();
        let mut response_headers = Headers { map: Vec::new() };
        proof {
            assert(response_headers@ =~= Seq::<(Seq<char>, Seq<char>)>::empty());
        }
        response_headers.insert(String::from_str("Content-Length"), usize_to_string(body_len));
        let ghost h1 = seq![("Content-Length"@, dec_str(body_len as nat))];
        proof {
            assert(response_headers@ =~= h1);
        }
        let content_type = Headers::format_content_type_header_based_on_request_path(".json");
        response_headers.insert(String::from_str("Content-Type"), content_type);
        proof {
            assert(h1[0].0 != "Content-Type"@);
            assert(h1.subrange(1, 1) =~= Seq::<(Seq<char>, Seq<char>)>::empty());
            assert(insert_spec(
                Seq::<(Seq<char>, Seq<char>)>::empty(),
                "Content-Type"@,
                content_type_of(".json"@),
            ) =~= seq![("Content-Type"@, content_type_of(".json"@))]);
            assert(insert_spec(h1, "Content-Type"@, content_type_of(".json"@)) =~= error_headers_spec(
                connection_error.message@,
            ));
        }
        let response = Response::new(
            String::from_str("HTTP/1.1"),
            500,
            String::from_str("SERVER ERROR"),
            response_headers,
            FileLike::TextFile(error_body),
            false,
        );
        response.respond()
    }

    /// Serves one request, given the lines read from the connection, the
    /// approved directories, a snapshot of what their candidate paths hold,
    /// and the configuration: whether compression is globally disabled, and
    /// the cache-control policy. Returns the bytes to write back.
    ///
    /// A request that fails to parse, and a path that resolves neither
    /// directly nor through the backup file, get the 500 JSON error
    /// response. A served file is delivered compressed exactly when the
    /// request accepts gzip and compression is enabled; if the encoder
    /// fails, the uncompressed response is transmitted instead.
    pub fn handle(
        lines: Vec<String>,
        manager: &StaticDirectoryManager,
        store: &FileStore,
        compression_disabled: bool,
        cache_control: &str,
    ) -> (r: Vec<u8>)
        ensures
            ({
                let eff = effective_lines(views_of(lines@));
                let dirs = views_of(manager.directories@);
                &&& eff.len() == 0 ==> r@ == error_render_spec(
                    "Request::new() Exception: HttpRequest String is corrupted."@,
                )
                &&& eff.len() > 0 && request_line_tokens(eff[0]).len() != 3 ==> r@
                    == error_render_spec(
                    "Request::new() Exception: HttpRequest String is corrupted. Request line is misformatted."@,
                )
                &&& eff.len() > 0 && request_line_tokens(eff[0]).len() == 3 ==> {
                    let path = request_line_tokens(eff[0])[1];
                    let resolved = resolve_with_backup_spec(
                        dirs,
                        manager.backup_file@,
                        path,
                        store@,
                    );
                    &&& resolved is None ==> r@ == error_render_spec(
                        "ConnectionHandler::SimpleException Failed to read requested file."@,
                    )
                    &&& resolved is Some ==> {
                        let body = resolved.unwrap().byte_view();
                        let compressed = wants_gzip(
                            parsed_headers(eff.subrange(1, eff.len() as int)),
                        ) && !compression_disabled;
                        &&& !compressed ==> r@ == plain_render_of(
                            "HTTP/1.1"@,
                            200,
                            "OK"@,
                            outgoing_headers_spec(path, body.len(), false, cache_control@),
                            body,
                        )
                        &&& compressed ==> r@ == compressed_render_of(
                            "HTTP/1.1"@,
                            200,
                            "OK"@,
                            outgoing_headers_spec(path, body.len(), true, cache_control@),
                            gzip_of(body),
                        )
                    }
                }
            }),
    {
        let ghost eff = effective_lines(views_of(lines@));
        let request_result = Request::new(lines);
        match request_result {
            Err(e) => {
                proof {
                    assert(eff.len() == 0 || request_line_tokens(eff[0]).len() != 3);
                }
                Self::handle_request_with_error(e.message())
            },
            Ok(request) => {
                let file_result = manager.search_for_file_path_in_approved_directories(
                    request.path().as_str(),
                    store,
                );
                let file = match file_result {
                    Ok(file_contents) => file_contents,
                    Err(_) => {
                        let mut backup_path = String::from_str("/");
                        backup_path.append(manager.backup_file.as_str());
                        let backup_file_result =
                            manager.search_for_file_path_in_approved_directories(
                            backup_path.as_str(),
                            store,
                        );
                        match backup_file_result {
                            Ok(file) => file,
                            Err(_) => {
                                return Self::handle_request_with_error(
                                    String::from_str(
                                        "ConnectionHandler::SimpleException Failed to read requested file.",
                                    ),
                                );
                            },
                        }
                    },
                };
                let accept_encoding_header = match request.headers().get_header_by_key(
                    "Accept-Encoding",
                ) {
                    Some(header) => header.clone(),
                    None => String::new(),
                };
                proof {
                    reveal_strlit("gzip");
                    if lookup_spec(request.headers@, "Accept-Encoding"@) is None {
                        assert(forall|i: int|
                            !has_sub_at(accept_encoding_header@, "gzip"@, i));
                    }
                }
                let asks_gzip = contains_str(accept_encoding_header.as_str(), "gzip");
                let compressed = asks_gzip && !compression_disabled;
                let outgoing = Headers::construct_outgoing_headers(
                    &request,
                    &file,
                    compressed,
                    cache_control,
                );
                let response = Response::new(
                    String::from_str("HTTP/1.1"),
                    200,
                    String::from_str("OK"),
                    outgoing,
                    file,
                    compressed,
                );
                response.respond()
            },
        }
    }
}

} // verus!
