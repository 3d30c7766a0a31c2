//! HTTP/1.1 responses and their wire form.

use vstd::prelude::*;
use vstd::utf8::encode_utf8;
use crate::headers::{HeaderMap, HeaderSeq, headers_text, insert_header};

verus! {

pub open spec fn status_text_of(code: Seq<char>) -> Seq<char> {
    if code == "200"@ {
        "OK"@
    } else if code == "400"@ {
        "Bad request"@
    } else if code == "404"@ {
        "Not Found"@
    } else if code == "500"@ {
        "Server error"@
    } else {
        "Unknown"@
    }
}

/// The headers of a response made without headers of its own.
pub open spec fn default_headers() -> HeaderSeq {
    insert_header(
        insert_header(Seq::empty(), "Content-Type"@, "text/html"@),
        "Connection"@,
        "keep-alive"@,
    )
}

pub open spec fn digit_char(d: nat) -> char {
    "0123456789"@[d as int]
}

/// The decimal digits of `n`, most significant first.
pub open spec fn decimal(n: nat) -> Seq<char>
    decreases n,
{
    if n < 10 {
        seq![digit_char(n)]
    } else {
        decimal(n / 10) + seq![digit_char(n % 10)]
    }
}

/// The decimal form of `n`.
pub fn decimal_text(n: usize) -> (r: String)
    ensures
        r@ == decimal(n as nat),
{
    proof {
        reveal_strlit("0123456789");
    }
    if n == 0 {
        return String::from_str("0123456789".substring_char(0, 1));
    }
    let mut out = String::new();
    let mut m = n;
    while m > 0
        invariant
            decimal(n as nat) == (if m > 0 {
                decimal(m as nat)
            } else {
                Seq::empty()
            }) + out@,
            "0123456789"@.len() == 10,
        decreases m,
    {
        let d = m % 10;
        let piece = String::from_str("0123456789".substring_char(d, d + 1));
        assert(piece@ =~= seq![digit_char(d as nat)]);
        out = piece.concat(out.as_str());
        proof {
            if m >= 10 {
                assert(decimal(m as nat) == decimal((m / 10) as nat) + seq![digit_char(d as nat)]);
                assert(decimal(n as nat) =~= decimal((m / 10) as nat) + out@);
            } else {
                assert(decimal(m as nat) == seq![digit_char(d as nat)]);
                assert(decimal(n as nat) =~= Seq::<char>::empty() + out@);
            }
        }
        m = m / 10;
    }
    assert(decimal(n as nat) =~= out@);
    out
}

#[derive(Debug, Clone)]
pub struct HttpResponse {
    pub version: String,
    pub status_code: String,
    pub status_text: String,
    pub headers: HeaderMap,
    pub body: Option<String>,
}

pub open spec fn body_chars(body: Option<String>) -> Seq<char> {
    match body {
        Some(b) => b@,
        None => Seq::empty(),
    }
}

/// The length in bytes of the body's UTF-8 encoding.
pub open spec fn body_len(body: Option<String>) -> nat {
    encode_utf8(body_chars(body)).len()
}

/// The wire form: status line, header lines, an empty line, then the body.
pub open spec fn response_text(r: HttpResponse) -> Seq<char> {
    r.version@ + " "@ + r.status_code@ + " "@ + r.status_text@ + "\r\n"@ + headers_text(r.headers@)
        + "\r\n"@ + body_chars(r.body)
}

impl Default for HttpResponse {
    fn default() -> (r: HttpResponse)
        ensures
            r.version@ == "HTTP/1.1"@,
            r.status_code@ == "200"@,
            r.status_text@ == "OK"@,
            r.headers@ == Seq::<(Seq<char>, Seq<char>)>::empty(),
            r.headers.wf(),
            r.body is None,
    {
        HttpResponse {
            version: String::from_str("HTTP/1.1"),
            status_code: String::from_str("200"),
            status_text: String::from_str("OK"),
            headers: HeaderMap::new(),
            body: None,
        }
    }
}

fn status_text_for(code: &str) -> (r: String)
    ensures
        r@ == status_text_of(code@),
{
    let c = code.to_owned();
    if c == String::from_str("200") {
        String::from_str("OK")
    } else if c == String::from_str("400") {
        String::from_str("Bad request")
    } else if c == String::from_str("404") {
        String::from_str("Not Found")
    } else if c == String::from_str("500") {
        String::from_str("Server error")
    } else {
        String::from_str("Unknown")
    }
}

impl HttpResponse {
    /// An HTTP/1.1 response with the given status code, headers and body.
    /// Without headers it carries `Content-Type: text/html` and
    /// `Connection: keep-alive`.
    pub fn new(status_code: &str, headers: Option<HeaderMap>, body: Option<String>) -> (r: HttpResponse)
        ensures
            r.version@ == "HTTP/1.1"@,
            r.status_code@ == status_code@,
            r.status_text@ == status_text_of(status_code@),
            match headers {
                Some(h) => r.headers@ == h@ && (h.wf() ==> r.headers.wf()),
                None => r.headers@ == default_headers() && r.headers.wf(),
            },
            r.body == body,
    {
        let mut response = HttpResponse::default();
        response.status_code = String::from_str(status_code);
        match headers {
            Some(h) => {
                response.headers = h;
            },
            None => {
                response.headers.insert(String::from_str("Content-Type"), String::from_str("text/html"));
                response.headers.insert(String::from_str("Connection"), String::from_str("keep-alive"));
            },
        }
        response.status_text = status_text_for(status_code);
        response.body = body;
        response
    }

    /// The header lines, each `key: value` followed by CRLF, in order.
    pub fn get_headers_as_string(&self) -> (r: String)
        ensures
            r@ == headers_text(self.headers@),
    {
        self.headers.to_text()
    }

    /// Sets `Content-Length` to the body's length in bytes (0 without a body).
    fn set_content_length_header(&mut self)
        ensures
            final(self).headers@ == insert_header(
                old(self).headers@,
                "Content-Length"@,
                decimal(body_len(old(self).body)),
            ),
            old(self).headers.wf() ==> final(self).headers.wf(),
            final(self).version == old(self).version,
            final(self).status_code == old(self).status_code,
            final(self).status_text == old(self).status_text,
            final(self).body == old(self).body,
    {
        let body_length = match &self.body {
            Some(body) => {
                let n = body.as_str().as_bytes().len();
                assert(n == encode_utf8(body@).len());
                decimal_text(n)
            },
            None => {
                assert(encode_utf8(Seq::<char>::empty()).len() == 0);
                decimal_text(0)
            },
        };
        self.headers.insert(String::from_str("Content-Length"), body_length);
    }

    /// The wire form of this response.
    pub fn to_text(&self) -> (r: String)
        ensures
            r@ == response_text(*self),
    {
        let mut out = self.version.clone();
        out.append(" ");
        out.append(self.status_code.as_str());
        out.append(" ");
        out.append(self.status_text.as_str());
        out.append("\r\n");
        let headers = self.get_headers_as_string();
        out.append(headers.as_str());
        out.append("\r\n");
        match &self.body {
            Some(body) => out.append(body.as_str()),
            None => {},
        }
        assert(out@ =~= response_text(*self));
        out
    }

    /// Completes the response for sending: sets `Content-Length`, then
    /// returns the UTF-8 bytes of its wire form, for the caller to write.
    pub fn send_response(&mut self) -> (r: Vec<u8>)
        ensures
            final(self).headers@ == insert_header(
                old(self).headers@,
                "Content-Length"@,
                decimal(body_len(old(self).body)),
            ),
            old(self).headers.wf() ==> final(self).headers.wf(),
            final(self).version == old(self).version,
            final(self).status_code == old(self).status_code,
            final(self).status_text == old(self).status_text,
            final(self).body == old(self).body,
            r@ == encode_utf8(response_text(*final(self))),
    {
        self.set_content_length_header();
        let text = self.to_text();
        text.as_str().as_bytes_vec()
    }
}

impl From<HttpResponse> for String {
    fn from(response: HttpResponse) -> (r: String) {
        response.to_text()
    }
}

impl vstd::std_specs::convert::FromSpecImpl<HttpResponse> for String {
    open spec fn obeys_from_spec() -> bool {
        false
    }

    open spec fn from_spec(response: HttpResponse) -> String {
        arbitrary()
    }
}

} // verus!
