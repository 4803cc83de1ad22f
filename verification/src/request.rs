//! Parsing a line-oriented request buffer into a structured request.

use vstd::prelude::*;

use crate::headers::{convert_raw_spec, inserts_spec, Headers};
use crate::text::{eq_lower, lower_seq, split_spec, split_str, views_of};

verus! {

/// The request methods the server distinguishes; an unrecognized verb is
/// treated as `GET`.
#[derive(Clone, Copy, PartialEq, Eq, Structural, Debug)]
pub enum HttpMethod {
    GET,
    POST,
    PUT,
    DELETE,
    OPTIONS,
}

/// Why a request buffer failed to parse.
#[derive(Clone, Copy, PartialEq, Eq, Structural, Debug)]
pub enum ParseError {
    /// The buffer held no line before its terminating empty line.
    EmptyRequest,
    /// The request line did not split into exactly three tokens.
    MalformedRequestLine,
}

impl ParseError {
    /// The message reported to the client for this failure.
    pub fn message(&self) -> (r: String)
        ensures
            *self is EmptyRequest ==> r@
                == "Request::new() Exception: HttpRequest String is corrupted."@,
            *self is MalformedRequestLine ==> r@
                == "Request::new() Exception: HttpRequest String is corrupted. Request line is misformatted."@,
    {
        match self {
            ParseError::EmptyRequest => String::from_str(
                "Request::new() Exception: HttpRequest String is corrupted.",
            ),
            ParseError::MalformedRequestLine => String::from_str(
                "Request::new() Exception: HttpRequest String is corrupted. Request line is misformatted.",
            ),
        }
    }
}

/// A parsed request: the three request-line tokens and the header map.
#[derive(Clone, Debug)]
pub struct Request {
    pub path: String,
    pub protocol: String,
    pub headers: Headers,
    pub method: HttpMethod,
}

/// The lines a request is parsed from: everything before the first empty
/// line.
pub open spec fn effective_lines(lines: Seq<Seq<char>>) -> Seq<Seq<char>>
    decreases lines.len(),
{
    if lines.len() == 0 {
        Seq::empty()
    } else if lines[0].len() == 0 {
        Seq::empty()
    } else {
        seq![lines[0]] + effective_lines(lines.subrange(1, lines.len() as int))
    }
}

/// The method named by a request-line token, compared case-insensitively;
/// an unrecognized verb is `GET`.
pub open spec fn method_of(s: Seq<char>) -> HttpMethod {
    if lower_seq(s) == "get"@ {
        HttpMethod::GET
    } else if lower_seq(s) == "post"@ {
        HttpMethod::POST
    } else if lower_seq(s) == "put"@ {
        HttpMethod::PUT
    } else if lower_seq(s) == "delete"@ {
        HttpMethod::DELETE
    } else if lower_seq(s) == "options"@ {
        HttpMethod::OPTIONS
    } else {
        HttpMethod::GET
    }
}

/// The space-separated tokens of a request line.
pub open spec fn request_line_tokens(line: Seq<char>) -> Seq<Seq<char>> {
    split_spec(line, " "@)
}

/// The header map parsed from the lines after the request line.
pub open spec fn parsed_headers(lines: Seq<Seq<char>>) -> Seq<(Seq<char>, Seq<char>)> {
    inserts_spec(Seq::empty(), convert_raw_spec(lines))
}

/// If the first `n` lines are non-empty and line `n` is absent or empty,
/// the effective lines are exactly the first `n`.
proof fn lemma_effective_take(v: Seq<Seq<char>>, n: int)
    requires
        0 <= n <= v.len(),
        forall|j: int| 0 <= j < n ==> (#[trigger] v[j]).len() != 0,
        n == v.len() || v[n].len() == 0,
    ensures
        effective_lines(v) == v.take(n),
    decreases v.len(),
{
    if n == 0 {
        assert(v.take(0) =~= Seq::<Seq<char>>::empty());
    } else {
        let tail = v.subrange(1, v.len() as int);
        lemma_effective_take(tail, n - 1);
        assert(seq![v[0]] + tail.take(n - 1) =~= v.take(n));
    }
}

impl Request {
    /// Turns a request-line token into the method it names. Matching is
    /// case-insensitive, and an unrecognized verb falls back to `GET`.
    pub fn get_enumerated_method_from_string(method_as_str: &str) -> (r: HttpMethod)
        ensures
            r == method_of(method_as_str@),
    {
        if eq_lower(method_as_str, "get") {
            return HttpMethod::GET;
        }
        if eq_lower(method_as_str, "post") {
            return HttpMethod::POST;
        }
        if eq_lower(method_as_str, "put") {
            return HttpMethod::PUT;
        }
        if eq_lower(method_as_str, "delete") {
            return HttpMethod::DELETE;
        }
        if eq_lower(method_as_str, "options") {
            return HttpMethod::OPTIONS;
        }
        HttpMethod::GET
    }

    /// Parses the lines read from a connection, up to the first empty line:
    /// the first line must split on single spaces into exactly three tokens
    /// (method, path, protocol), and each further line contributes a header
    /// when it holds a `": "` separator. With no line at all the request is
    /// rejected as empty; with a request line of any other token count it
    /// is rejected as malformed.
    pub fn new(lines: Vec<String>) -> (r: Result<Request, ParseError>)
        ensures
            ({
                let eff = effective_lines(views_of(lines@));
                &&& eff.len() == 0 ==> r == Err::<Request, ParseError>(ParseError::EmptyRequest)
                &&& eff.len() > 0 && request_line_tokens(eff[0]).len() != 3 ==> r == Err::<
                    Request,
                    ParseError,
                >(ParseError::MalformedRequestLine)
                &&& eff.len() > 0 && request_line_tokens(eff[0]).len() == 3 ==> {
                    let toks = request_line_tokens(eff[0]);
                    &&& r is Ok
                    &&& r.unwrap().method == method_of(toks[0])
                    &&& r.unwrap().path@ == toks[1]
                    &&& r.unwrap().protocol@ == toks[2]
                    &&& r.unwrap().headers@ == parsed_headers(
                        eff.subrange(1, eff.len() as int),
                    )
                }
            }),
    {
        let ghost v = views_of(lines@);
        let mut n_eff: usize = 0;
        while n_eff < lines.len() && !lines[n_eff].as_str().is_empty()
            invariant
                v == views_of(lines@),
                n_eff <= lines@.len(),
                forall|j: int| 0 <= j < n_eff ==> (#[trigger] v[j]).len() != 0,
            decreases lines@.len() - n_eff,
        {
            n_eff += 1;
        }
        proof {
            lemma_effective_take(v, n_eff as int);
        }
        let ghost eff = effective_lines(v);
        if n_eff == 0 {
            return Err(ParseError::EmptyRequest);
        }
        assert(eff[0] == v[0]);
        let request_line_split_on_whitespace = split_str(lines[0].as_str(), " ");
        if request_line_split_on_whitespace.len() != 3 {
            return Err(ParseError::MalformedRequestLine);
        }
        let method = request_line_split_on_whitespace[0].as_str();
        let path = request_line_split_on_whitespace[1].clone();
        let protocol = request_line_split_on_whitespace[2].clone();
        let method = Request::get_enumerated_method_from_string(method);

        let mut raw_headers: Vec<String> = Vec::new();
        let mut i: usize = 1;
        while i < n_eff
            invariant
                v == views_of(lines@),
                1 <= i <= n_eff,
                n_eff <= lines@.len(),
                raw_headers@.len() == i - 1,
                forall|j: int| 0 <= j < i - 1 ==> (#[trigger] raw_headers@[j])@ == v[j + 1],
            decreases n_eff - i,
        {
            let line = lines[i].clone();
            proof {
                assert(line@ == v[i as int]);
            }
            raw_headers.push(line);
            i += 1;
        }
        proof {
            assert forall|j: int| 0 <= j < raw_headers@.len() implies #[trigger] views_of(
                raw_headers@,
            )[j] == v.subrange(1, n_eff as int)[j] by {
                assert(raw_headers@[j]@ == v[j + 1]);
            }
            assert(views_of(raw_headers@) =~= v.subrange(1, n_eff as int));
            assert(v.subrange(1, n_eff as int) =~= eff.subrange(1, eff.len() as int));
        }
        let headers = Headers::new(Headers::convert_raw_headers(raw_headers));
        Ok(
            Request {
                path,
                protocol,
                method,
                headers,
            },
        )
    }

    /// The parsed method.
    pub fn method(&self) -> (r: &HttpMethod)
        ensures
            *r == self.method,
    {
        &self.method
    }

    /// The requested path, exactly as sent.
    pub fn path(&self) -> (r: &String)
        ensures
            r@ == self.path@,
    {
        &self.path
    }

    /// The protocol token, exactly as sent.
    pub fn protocol(&self) -> (r: &String)
        ensures
            r@ == self.protocol@,
    {
        &self.protocol
    }

    /// The parsed header map.
    pub fn headers(&self) -> (r: &Headers)
        ensures
            r@ == self.headers@,
    {
        &self.headers
    }
}

} // verus!
