//! HTTP/1.1 requests: the request line, the header lines up to the first
//! empty line, and the remaining lines as the body.

use vstd::prelude::*;
use crate::headers::{HeaderMap, HeaderSeq, insert_header};
use crate::text::{
    chars_of, find_char, has_line, find_char_in, find_space, find_space_in, line_bounds, next_line,
    same_text, skip_spaces, skip_spaces_in, text_end, trim_end_in, trimmed,
};

verus! {

#[derive(Debug, Clone, PartialEq, Eq)]
pub enum Resource {
    Path(String),
}

#[derive(Debug, Clone, Copy, PartialEq, Eq, Structural)]
pub enum Method {
    Get,
    Post,
    Uninitialized,
}

#[derive(Debug, Clone, Copy, PartialEq, Eq, Structural)]
pub enum Version {
    V1_1,
    V2_0,
    Uninitialized,
}

pub open spec fn method_of(s: Seq<char>) -> Method {
    if s == "GET"@ {
        Method::Get
    } else if s == "POST"@ {
        Method::Post
    } else {
        Method::Uninitialized
    }
}

pub open spec fn version_of(s: Seq<char>) -> Version {
    if s == "HTTP/1.1"@ {
        Version::V1_1
    } else {
        Version::Uninitialized
    }
}

impl Method {
    /// The method named by `s`; any other word is `Uninitialized`.
    pub fn parse(s: &str) -> (r: Method)
        ensures
            r == method_of(s@),
    {
        if same_text(s, "GET") {
            Method::Get
        } else if same_text(s, "POST") {
            Method::Post
        } else {
            Method::Uninitialized
        }
    }
}

impl Version {
    /// The version named by `s`; only `HTTP/1.1` is recognised.
    pub fn parse(s: &str) -> (r: Version)
        ensures
            r == version_of(s@),
    {
        if same_text(s, "HTTP/1.1") {
            Version::V1_1
        } else {
            Version::Uninitialized
        }
    }
}

impl<'a> From<&'a str> for Method {
    fn from(s: &'a str) -> (r: Method) {
        Method::parse(s)
    }
}

impl<'a> vstd::std_specs::convert::FromSpecImpl<&'a str> for Method {
    open spec fn obeys_from_spec() -> bool {
        true
    }

    open spec fn from_spec(s: &'a str) -> Method {
        method_of(s@)
    }
}

impl<'a> From<&'a str> for Version {
    fn from(s: &'a str) -> (r: Version) {
        Version::parse(s)
    }
}

impl<'a> vstd::std_specs::convert::FromSpecImpl<&'a str> for Version {
    open spec fn obeys_from_spec() -> bool {
        true
    }

    open spec fn from_spec(s: &'a str) -> Version {
        version_of(s@)
    }
}

/// The word of `[i, end)` that starts at its first non-space character.
pub open spec fn word(s: Seq<char>, i: int, end: int) -> Seq<char> {
    let a = skip_spaces(s, i, end);
    s.subrange(a, find_space(s, a, end))
}

/// Where the word of `[i, end)` ends.
pub open spec fn after_word(s: Seq<char>, i: int, end: int) -> int {
    find_space(s, skip_spaces(s, i, end), end)
}

/// The first three words of the first line: method, path and version.
/// A missing word is empty.
pub open spec fn request_words(s: Seq<char>) -> (Seq<char>, Seq<char>, Seq<char>) {
    let end = text_end(s, 0);
    let p = after_word(s, 0, end);
    let v = after_word(s, p, end);
    (word(s, 0, end), word(s, p, end), word(s, v, end))
}

/// The header map after reading the header line `[a, b)` into `h`: a line
/// without a colon, or with an empty key, changes nothing; the value is the
/// text between the first colon and the next one (or the line's end).
pub open spec fn add_header_line(s: Seq<char>, a: int, b: int, h: HeaderSeq) -> HeaderSeq {
    let c1 = find_char(s, ':', a, b);
    if c1 >= b {
        h
    } else {
        let key = trimmed(s, a, c1);
        let c2 = find_char(s, ':', c1 + 1, b);
        if key.len() == 0 {
            h
        } else {
            insert_header(h, key, trimmed(s, c1 + 1, c2))
        }
    }
}

/// Headers read into `h` from the lines starting at `i`, up to the first
/// empty line or the end of the text.
pub open spec fn header_lines(s: Seq<char>, i: int, h: HeaderSeq) -> HeaderSeq
    decreases s.len() - i,
{
    if has_line(s, i) && text_end(s, i) > i {
        header_lines(s, next_line(s, i), add_header_line(s, i, text_end(s, i), h))
    } else {
        h
    }
}

/// Where the body starts: after the first empty line at or after `i`, or
/// at the end of the text.
pub open spec fn body_start(s: Seq<char>, i: int) -> int
    decreases s.len() - i,
{
    if has_line(s, i) {
        if text_end(s, i) == i {
            next_line(s, i)
        } else {
            body_start(s, next_line(s, i))
        }
    } else {
        i
    }
}

/// The text of the lines from `i` on, joined without their line breaks.
pub open spec fn joined_lines(s: Seq<char>, i: int) -> Seq<char>
    decreases s.len() - i,
{
    if has_line(s, i) {
        s.subrange(i, text_end(s, i)) + joined_lines(s, next_line(s, i))
    } else {
        Seq::empty()
    }
}

pub open spec fn request_headers(s: Seq<char>) -> HeaderSeq {
    header_lines(s, next_line(s, 0), Seq::empty())
}

pub open spec fn request_body(s: Seq<char>) -> Seq<char> {
    joined_lines(s, body_start(s, next_line(s, 0)))
}

#[derive(Debug, Clone)]
pub struct HttpRequest {
    pub method: Method,
    pub version: Version,
    pub resource: Resource,
    pub headers: HeaderMap,
    pub body: String,
}

pub open spec fn path_of(r: Resource) -> Seq<char> {
    match r {
        Resource::Path(p) => p@,
    }
}

/// What `req` holds when it was read from the text `s`.
pub open spec fn parsed_from(req: HttpRequest, s: Seq<char>) -> bool {
    let (m, p, v) = request_words(s);
    &&& req.method == method_of(m)
    &&& path_of(req.resource) == p
    &&& req.version == version_of(v)
    &&& req.headers.wf()
    &&& req.headers@ == request_headers(s)
    &&& req.body@ == request_body(s)
}

/// The method, version and path of the request line `[0, end)`.
fn parse_request_line(data: &str, s: &Vec<char>, end: usize) -> (r: (Method, Version, Resource))
    requires
        s@ == data@,
        end == text_end(s@, 0),
        end <= s@.len(),
    ensures
        r.0 == method_of(request_words(s@).0),
        path_of(r.2) == request_words(s@).1,
        r.1 == version_of(request_words(s@).2),
{
    let a0 = skip_spaces_in(s, 0, end);
    let e0 = find_space_in(s, a0, end);
    let a1 = skip_spaces_in(s, e0, end);
    let e1 = find_space_in(s, a1, end);
    let a2 = skip_spaces_in(s, e1, end);
    let e2 = find_space_in(s, a2, end);
    let method = Method::parse(data.substring_char(a0, e0));
    let path = data.substring_char(a1, e1).to_owned();
    let version = Version::parse(data.substring_char(a2, e2));
    (method, version, Resource::Path(path))
}

/// Reads the header line `[a, b)` into `headers`.
fn parse_header_line(data: &str, s: &Vec<char>, a: usize, b: usize, headers: &mut HeaderMap)
    requires
        s@ == data@,
        a <= b <= s@.len(),
        old(headers).wf(),
    ensures
        final(headers).wf(),
        final(headers)@ == add_header_line(s@, a as int, b as int, old(headers)@),
{
    let c1 = find_char_in(s, ':', a, b);
    if c1 >= b {
        return;
    }
    let k0 = skip_spaces_in(s, a, c1);
    let k1 = trim_end_in(s, k0, c1);
    if k1 == k0 {
        return;
    }
    let c2 = find_char_in(s, ':', c1 + 1, b);
    let v0 = skip_spaces_in(s, c1 + 1, c2);
    let v1 = trim_end_in(s, v0, c2);
    let key = data.substring_char(k0, k1).to_owned();
    let value = data.substring_char(v0, v1).to_owned();
    headers.insert(key, value);
}

/// Reads header lines from `start` up to the first empty line; returns
/// them with the index where the body starts.
fn parse_headers(data: &str, s: &Vec<char>, start: usize) -> (r: (HeaderMap, usize))
    requires
        s@ == data@,
        start <= s@.len(),
    ensures
        r.0.wf(),
        r.0@ == header_lines(s@, start as int, Seq::empty()),
        r.1 == body_start(s@, start as int),
        start <= r.1 <= s@.len(),
{
    let mut headers = HeaderMap::new();
    let mut i = start;
    while i < s.len()
        invariant
            s@ == data@,
            start <= i <= s@.len(),
            headers.wf(),
            header_lines(s@, start as int, Seq::empty()) == header_lines(s@, i as int, headers@),
            body_start(s@, start as int) == body_start(s@, i as int),
        decreases s@.len() - i,
    {
        let (next, t) = line_bounds(s, i);
        if t == i {
            return (headers, next);
        }
        parse_header_line(data, s, i, t, &mut headers);
        i = next;
    }
    (headers, i)
}

impl HttpRequest {
    /// Reads a request from its text. Nothing makes it fail: missing parts
    /// are left uninitialised or empty.
    pub fn parse(data: &str) -> (r: HttpRequest)
        ensures
            parsed_from(r, data@),
    {
        let s = chars_of(data);
        let (second_line, first_text_end) = if s.len() > 0 {
            line_bounds(&s, 0)
        } else {
            (0, 0)
        };
        let (method, version, resource) = parse_request_line(data, &s, first_text_end);
        let (headers, body_at) = parse_headers(data, &s, second_line);
        let mut body = String::new();
        let mut i = body_at;
        while i < s.len()
            invariant
                s@ == data@,
                body_at <= i <= s@.len(),
                body@ + joined_lines(s@, i as int) == joined_lines(s@, body_at as int),
            decreases s@.len() - i,
        {
            let (e, t) = line_bounds(&s, i);
            let ghost before = body@;
            body.append(data.substring_char(i, t));
            proof {
                assert(before + joined_lines(s@, i as int) == before + (s@.subrange(i as int, t as int) + joined_lines(s@, e as int)));
                assert(body@ + joined_lines(s@, e as int) =~= before + (s@.subrange(i as int, t as int) + joined_lines(s@, e as int)));
            }
            i = e;
        }
        assert(joined_lines(s@, i as int) =~= Seq::<char>::empty());
        assert(body@ =~= body@ + joined_lines(s@, i as int));
        HttpRequest { method, version, resource, headers, body }
    }
}

impl<'a> From<&'a str> for HttpRequest {
    fn from(data: &'a str) -> (r: HttpRequest) {
        HttpRequest::parse(data)
    }
}

impl<'a> vstd::std_specs::convert::FromSpecImpl<&'a str> for HttpRequest {
    open spec fn obeys_from_spec() -> bool {
        false
    }

    open spec fn from_spec(data: &'a str) -> HttpRequest {
        arbitrary()
    }
}

impl From<String> for HttpRequest {
    fn from(data: String) -> (r: HttpRequest) {
        HttpRequest::parse(data.as_str())
    }
}

impl vstd::std_specs::convert::FromSpecImpl<String> for HttpRequest {
    open spec fn obeys_from_spec() -> bool {
        false
    }

    open spec fn from_spec(data: String) -> HttpRequest {
        arbitrary()
    }
}

} // verus!
