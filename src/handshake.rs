//! The WebSocket opening handshake: checking the upgrade headers and
//! answering with `101` and the accept key.

use vstd::prelude::*;
use vstd::utf8::encode_utf8;
use base64::Engine;
use sha1::Digest;
use crate::headers::{HeaderMap, HeaderSeq, insert_header, lookup};
use crate::request::HttpRequest;
use crate::response::{HttpResponse, status_text_of};

verus! {

/// The SHA-1 digest of `data`.
pub uninterp spec fn sha1_of(data: Seq<u8>) -> Seq<u8>;

/// Relies on sha1's `Sha1::digest` (the `Digest` trait): the 20-byte SHA-1
/// digest of the input, which depends on the input alone.
#[verifier::external_body]
fn sha1_digest(data: &[u8]) -> (r: Vec<u8>)
    ensures
        r@ == sha1_of(data@),
        r@.len() == 20,
{
    sha1::Sha1::digest(data).to_vec()
}

pub open spec fn base64_char(v: u8) -> char {
    "ABCDEFGHIJKLMNOPQRSTUVWXYZabcdefghijklmnopqrstuvwxyz0123456789+/"@[v as int]
}

/// Standard base64 (RFC 4648 alphabet) with `=` padding: each three bytes
/// become four characters, six bits each, most significant first.
pub open spec fn base64_of(b: Seq<u8>) -> Seq<char>
    decreases b.len(),
{
    if b.len() == 0 {
        Seq::empty()
    } else if b.len() == 1 {
        seq![base64_char(b[0] >> 2), base64_char(((b[0] & 3) << 4) as u8), '=', '=']
    } else if b.len() == 2 {
        seq![
            base64_char(b[0] >> 2),
            base64_char((((b[0] & 3) << 4) | (b[1] >> 4)) as u8),
            base64_char(((b[1] & 15) << 2) as u8),
            '=',
        ]
    } else {
        seq![
            base64_char(b[0] >> 2),
            base64_char((((b[0] & 3) << 4) | (b[1] >> 4)) as u8),
            base64_char((((b[1] & 15) << 2) | (b[2] >> 6)) as u8),
            base64_char(b[2] & 63),
        ] + base64_of(b.subrange(3, b.len() as int))
    }
}

/// Relies on base64's `general_purpose::STANDARD.encode`: standard alphabet,
/// with padding. It panics when the encoded length overflows `usize`, which
/// the bound on the input rules out.
#[verifier::external_body]
fn base64_standard(data: &[u8]) -> (r: String)
    requires
        data@.len() <= usize::MAX / 2,
    ensures
        r@ == base64_of(data@),
{
    base64::engine::general_purpose::STANDARD.encode(data)
}

pub open spec fn hex_char(v: u8) -> char {
    "0123456789abcdef"@[v as int]
}

/// Two lower-case hexadecimal digits per byte, in order.
pub open spec fn hex_of(b: Seq<u8>) -> Seq<char>
    decreases b.len(),
{
    if b.len() == 0 {
        Seq::empty()
    } else {
        hex_of(b.drop_last()) + seq![hex_char(b.last() >> 4), hex_char(b.last() & 15)]
    }
}

/// The GUID that RFC 6455 appends to the client's key.
pub open spec fn web_socket_guid() -> Seq<char> {
    "258EAFA5-E914-47DA-95CA-C5AB0DC85B11"@
}

/// `Sec-WebSocket-Accept` for a client key: base64 of the SHA-1 of the key
/// followed by the GUID, as UTF-8.
pub open spec fn accept_key_of(key: Seq<char>) -> Seq<char> {
    base64_of(sha1_of(encode_utf8(key + web_socket_guid())))
}

/// The accept key answering `request_key`.
pub fn get_web_socket_accept_key(request_key: &String) -> (r: String)
    ensures
        r@ == accept_key_of(request_key@),
{
    let magic = request_key.clone().concat("258EAFA5-E914-47DA-95CA-C5AB0DC85B11");
    let digest = sha1_digest(magic.as_str().as_bytes());
    base64_standard(digest.as_slice())
}

/// Two lower-case hexadecimal digits for each byte, in order.
pub fn hex_string(bytes: &[u8]) -> (r: String)
    ensures
        r@ == hex_of(bytes@),
{
    proof {
        reveal_strlit("0123456789abcdef");
    }
    let mut out = String::new();
    let mut i: usize = 0;
    while i < bytes.len()
        invariant
            i <= bytes@.len(),
            out@ == hex_of(bytes@.subrange(0, i as int)),
            "0123456789abcdef"@.len() == 16,
        decreases bytes@.len() - i,
    {
        let byte = bytes[i];
        let high = (byte >> 4) as usize;
        let low = (byte & 15) as usize;
        assert(byte >> 4 < 16) by (bit_vector);
        assert(byte & 15 < 16) by (bit_vector);
        out.append("0123456789abcdef".substring_char(high, high + 1));
        out.append("0123456789abcdef".substring_char(low, low + 1));
        proof {
            let b = bytes@.subrange(0, i + 1);
            assert(b.drop_last() =~= bytes@.subrange(0, i as int));
            assert(out@ =~= hex_of(b));
        }
        i = i + 1;
    }
    assert(bytes@.subrange(0, bytes@.len() as int) =~= bytes@);
    out
}

/// The lower-case hexadecimal SHA-1 digest of `text` as UTF-8.
pub fn hash_to_string(text: String) -> (r: String)
    ensures
        r@ == hex_of(sha1_of(encode_utf8(text@))),
{
    let digest = sha1_digest(text.as_str().as_bytes());
    hex_string(digest.as_slice())
}

/// Why a request is not answered with a handshake.
#[derive(Debug, Clone, Copy, PartialEq, Eq, Structural)]
pub enum UpgradeError {
    /// `Upgrade`, `Connection` or `Sec-WebSocket-Version` is missing or differs.
    NotWebSocketUpgrade,
    /// The upgrade headers match but `Sec-WebSocket-Key` is missing.
    MissingKey,
}

/// The three header values that ask for a WebSocket upgrade, compared exactly.
pub open spec fn upgrade_requested(h: HeaderSeq) -> bool {
    &&& lookup(h, "Upgrade"@) == Some("websocket"@)
    &&& lookup(h, "Connection"@) == Some("Upgrade"@)
    &&& lookup(h, "Sec-WebSocket-Version"@) == Some("13"@)
}

/// The headers of the `101` answer, in order.
pub open spec fn upgrade_headers(accept: Seq<char>) -> HeaderSeq {
    insert_header(
        insert_header(
            insert_header(Seq::empty(), "Upgrade"@, "websocket"@),
            "Connection"@,
            "Upgrade"@,
        ),
        "Sec-WebSocket-Accept"@,
        accept,
    )
}

/// Whether `headers` holds `key` with exactly the value `match_value`.
fn validate_header(key: &str, match_value: &str, headers: &HeaderMap) -> (r: bool)
    ensures
        r == (lookup(headers@, key@) == Some(match_value@)),
{
    match headers.get(key) {
        None => false,
        Some(value) => value == String::from_str(match_value),
    }
}

fn validate_upgrade_headers(headers: &HeaderMap) -> (r: bool)
    ensures
        r == upgrade_requested(headers@),
{
    validate_header("Upgrade", "websocket", headers)
        && validate_header("Connection", "Upgrade", headers)
        && validate_header("Sec-WebSocket-Version", "13", headers)
}

/// The `101 Switching Protocols` answer to a WebSocket upgrade request, or
/// why the request is not one. The caller writes the answer, and only once
/// that succeeded treats the connection as a WebSocket.
pub fn handle_web_socket_upgrade(req: &HttpRequest) -> (r: Result<HttpResponse, UpgradeError>)
    ensures
        !upgrade_requested(req.headers@) ==> r == Err::<HttpResponse, UpgradeError>(
            UpgradeError::NotWebSocketUpgrade,
        ),
        upgrade_requested(req.headers@) && lookup(req.headers@, "Sec-WebSocket-Key"@) is None
            ==> r == Err::<HttpResponse, UpgradeError>(UpgradeError::MissingKey),
        upgrade_requested(req.headers@) && lookup(req.headers@, "Sec-WebSocket-Key"@) is Some
            ==> r is Ok,
        r is Ok ==> ({
            let res = r->Ok_0;
            &&& res.version@ == "HTTP/1.1"@
            &&& res.status_code@ == "101"@
            &&& res.status_text@ == status_text_of("101"@)
            &&& res.headers@ == upgrade_headers(
                accept_key_of(lookup(req.headers@, "Sec-WebSocket-Key"@)->0),
            )
            &&& res.headers.wf()
            &&& res.body is None
        }),
{
    if !validate_upgrade_headers(&req.headers) {
        return Err(UpgradeError::NotWebSocketUpgrade);
    }
    let key = match req.headers.get("Sec-WebSocket-Key") {
        Some(key) => key,
        None => return Err(UpgradeError::MissingKey),
    };
    Ok(switching_protocols_response(get_web_socket_accept_key(&key)))
}

/// The `101` answer that carries the accept key `accept`.
pub fn switching_protocols_response(accept: String) -> (r: HttpResponse)
    ensures
        r.version@ == "HTTP/1.1"@,
        r.status_code@ == "101"@,
        r.status_text@ == status_text_of("101"@),
        r.headers@ == upgrade_headers(accept@),
        r.headers.wf(),
        r.body is None,
{
    let mut headers = HeaderMap::new();
    headers.insert(String::from_str("Upgrade"), String::from_str("websocket"));
    headers.insert(String::from_str("Connection"), String::from_str("Upgrade"));
    headers.insert(String::from_str("Sec-WebSocket-Accept"), accept);
    HttpResponse::new("101", Some(headers), None)
}

} // verus!
