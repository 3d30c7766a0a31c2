//! Routing of plain requests to static pages. Loading the files is the
//! caller's part: the router names the page, the handlers build the answer
//! from what was loaded.

use vstd::prelude::*;
use crate::headers::{HeaderMap, HeaderSeq, insert_header};
use crate::request::{HttpRequest, Method, Resource, path_of};
use crate::response::{HttpResponse, default_headers};
use crate::text::{find_char, find_char_in, chars_of, same_text};

verus! {

/// The page that a request asks for.
#[derive(Debug, Clone, PartialEq, Eq)]
pub enum Route {
    /// The site's index, `index.html`.
    Index,
    /// The file named by the first path segment.
    File(String),
    /// No page: the not-found page answers.
    NotFound,
}

/// The text between the first `/` of `p` and the next one (or the end);
/// none when `p` holds no `/`.
pub open spec fn first_segment(p: Seq<char>) -> Option<Seq<char>> {
    let k = find_char(p, '/', 0, p.len() as int);
    if k >= p.len() {
        None
    } else {
        Some(p.subrange(k + 1, find_char(p, '/', k + 1, p.len() as int)))
    }
}

/// Where the route of a request with method `m` and path `p` leads: a GET
/// for an empty first segment is the index, one for another segment is
/// that file, anything else is not found.
pub open spec fn route_of(m: Method, p: Seq<char>) -> Option<Seq<char>> {
    if m == Method::Get {
        first_segment(p)
    } else {
        None
    }
}

/// The index just after the last `.` in `s[..j]`, or 0 without one.
pub open spec fn after_last_dot(s: Seq<char>, j: int) -> int
    decreases j,
{
    if j <= 0 {
        0
    } else if s[j - 1] == '.' {
        j
    } else {
        after_last_dot(s, j - 1)
    }
}

/// The text after the last `.` of a file name, or the whole name.
pub open spec fn extension(s: Seq<char>) -> Seq<char> {
    s.subrange(after_last_dot(s, s.len() as int), s.len() as int)
}

pub open spec fn content_type_of(ext: Seq<char>) -> Seq<char> {
    if ext == "css"@ {
        "text/css"@
    } else if ext == "js"@ {
        "text/javascript"@
    } else if ext == "html"@ {
        "text/html"@
    } else {
        "text/plain"@
    }
}

pub open spec fn file_headers(name: Seq<char>) -> HeaderSeq {
    insert_header(Seq::empty(), "Content-Type"@, content_type_of(extension(name)))
}

/// A `Content-Type` header for a file name, from its extension.
fn get_headers_base_on_extension(file_name: &str) -> (r: HeaderMap)
    ensures
        r@ == file_headers(file_name@),
        r.wf(),
{
    let s = chars_of(file_name);
    let mut j = s.len();
    while j > 0 && s[j - 1] != '.'
        invariant
            j <= s@.len(),
            after_last_dot(s@, j as int) == after_last_dot(s@, s@.len() as int),
        decreases j,
    {
        j = j - 1;
    }
    let ext = file_name.substring_char(j, s.len());
    let content_type = if same_text(ext, "css") {
        "text/css"
    } else if same_text(ext, "js") {
        "text/javascript"
    } else if same_text(ext, "html") {
        "text/html"
    } else {
        "text/plain"
    };
    let mut headers = HeaderMap::new();
    headers.insert(String::from_str("Content-Type"), String::from_str(content_type));
    headers
}

pub struct Router;

impl Router {
    /// The page that `req` asks for.
    pub fn route(req: &HttpRequest) -> (r: Route)
        ensures
            match route_of(req.method, path_of(req.resource)) {
                None => r == Route::NotFound,
                Some(seg) => if seg.len() == 0 {
                    r == Route::Index
                } else {
                    r is File && r->File_0@ == seg
                },
            },
    {
        match req.method {
            Method::Get => {},
            _ => return Route::NotFound,
        }
        let path = match &req.resource {
            Resource::Path(p) => p.as_str(),
        };
        let s = chars_of(path);
        let k = find_char_in(&s, '/', 0, s.len());
        if k >= s.len() {
            return Route::NotFound;
        }
        let e = find_char_in(&s, '/', k + 1, s.len());
        if e == k + 1 {
            Route::Index
        } else {
            Route::File(path.substring_char(k + 1, e).to_owned())
        }
    }
}

pub struct StaticPageHandler;

pub struct PageNotFoundHandler;

impl StaticPageHandler {
    /// The answer for the index: `200` with the default headers, and the
    /// page if it could be loaded.
    pub fn index_page(contents: Option<String>) -> (r: HttpResponse)
        ensures
            r.status_code@ == "200"@,
            r.status_text@ == "OK"@,
            r.headers@ == default_headers(),
            r.body == contents,
    {
        HttpResponse::new("200", None, contents)
    }

    /// The answer for a loaded file: `200`, its content type, its contents.
    pub fn file_page(file_name: &str, contents: String) -> (r: HttpResponse)
        ensures
            r.status_code@ == "200"@,
            r.status_text@ == "OK"@,
            r.headers@ == file_headers(file_name@),
            r.body == Some(contents),
    {
        HttpResponse::new("200", Some(get_headers_base_on_extension(file_name)), Some(contents))
    }
}

impl PageNotFoundHandler {
    /// The answer when no page is found: `404`, with the not-found page if
    /// it could be loaded.
    pub fn handle(contents: Option<String>) -> (r: HttpResponse)
        ensures
            r.status_code@ == "404"@,
            r.status_text@ == "Not Found"@,
            r.headers@ == default_headers(),
            r.body == contents,
    {
        proof {
            reveal_strlit("404");
            reveal_strlit("200");
            reveal_strlit("400");
            assert("404"@[0] != "200"@[0]);
            assert("404"@[2] != "400"@[2]);
        }
        HttpResponse::new("404", None, contents)
    }
}

} // verus!
