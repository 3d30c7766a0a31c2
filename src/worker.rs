//! The decisions of one worker step. The caller performs the read, hands
//! its outcome here, and carries out the action that comes back.

use vstd::prelude::*;
use vstd::utf8::{decode_utf8, valid_utf8};
use crate::frame::{Frame, decode_error, decodes_to, read_web_socket_message};
use crate::handshake::{
    accept_key_of, handle_web_socket_upgrade, upgrade_headers, upgrade_requested,
};
use crate::headers::lookup;
use crate::request::{HttpRequest, parsed_from, request_headers};
use crate::response::HttpResponse;

verus! {

/// The outcome of one non-blocking read from a connection.
pub enum ReadOutcome {
    /// The read returned no bytes: the peer closed the stream.
    Closed,
    /// No data was ready.
    WouldBlock,
    /// The read failed.
    Failed,
    /// The bytes that were read.
    Data(Vec<u8>),
}

/// What to do with a plain HTTP connection after its read.
pub enum HttpAction {
    /// Close the connection and drop it.
    Close,
    /// Put the connection back unchanged.
    Requeue,
    /// Write this handshake answer; if that succeeds move the connection to
    /// the WebSocket registry, else close it.
    Upgrade(HttpResponse),
    /// Route this request, write the answer, record the activity and put the
    /// connection back.
    Serve(HttpRequest),
}

/// What to do with a WebSocket connection after its read.
pub enum WsAction {
    Close,
    Requeue,
    /// Process this frame, then put the connection back.
    Received(Frame),
}

/// Relies on `std::str::from_utf8`: it succeeds exactly on valid UTF-8, and
/// the text then holds the characters that the bytes encode.
#[verifier::external_body]
fn utf8_text<'a>(bytes: &'a [u8]) -> (r: Option<&'a str>)
    ensures
        r is Some <==> valid_utf8(bytes@),
        r is Some ==> r->0@ == decode_utf8(bytes@),
{
    std::str::from_utf8(bytes).ok()
}

/// The request carries valid upgrade headers and a key.
pub open spec fn upgrade_ready(s: Seq<char>) -> bool {
    &&& upgrade_requested(request_headers(s))
    &&& lookup(request_headers(s), "Sec-WebSocket-Key"@) is Some
}

/// Decides the step of a plain HTTP connection from what its read gave:
/// a closed or failed read, or bytes that are not UTF-8, close it; no data
/// requeues it; a request with valid upgrade headers and a key is answered
/// with the handshake; any other request is served.
pub fn handle_connection(read: ReadOutcome) -> (r: HttpAction)
    ensures
        match read {
            ReadOutcome::Closed => r is Close,
            ReadOutcome::Failed => r is Close,
            ReadOutcome::WouldBlock => r is Requeue,
            ReadOutcome::Data(b) => if !valid_utf8(b@) {
                r is Close
            } else {
                let s = decode_utf8(b@);
                if upgrade_ready(s) {
                    r is Upgrade && ({
                        let res = r->Upgrade_0;
                        &&& res.status_code@ == "101"@
                        &&& res.headers@ == upgrade_headers(
                            accept_key_of(lookup(request_headers(s), "Sec-WebSocket-Key"@)->0),
                        )
                        &&& res.body is None
                    })
                } else {
                    r is Serve && parsed_from(r->Serve_0, s)
                }
            },
        },
{
    match read {
        ReadOutcome::Closed => HttpAction::Close,
        ReadOutcome::Failed => HttpAction::Close,
        ReadOutcome::WouldBlock => HttpAction::Requeue,
        ReadOutcome::Data(bytes) => {
            let text = match utf8_text(bytes.as_slice()) {
                Some(text) => text,
                None => return HttpAction::Close,
            };
            let req = HttpRequest::parse(text);
            match handle_web_socket_upgrade(&req) {
                Ok(response) => HttpAction::Upgrade(response),
                Err(_) => HttpAction::Serve(req),
            }
        },
    }
}

/// Decides the step of a WebSocket connection from what its read gave: a
/// closed or failed read, or bytes that are not one whole supported frame,
/// close it; no data requeues it; a frame is handed on.
pub fn handle_web_socket_connection(read: ReadOutcome) -> (r: WsAction)
    ensures
        match read {
            ReadOutcome::Closed => r is Close,
            ReadOutcome::Failed => r is Close,
            ReadOutcome::WouldBlock => r is Requeue,
            ReadOutcome::Data(b) => match decode_error(b@) {
                Some(_) => r is Close,
                None => r is Received && decodes_to(b@, r->Received_0),
            },
        },
{
    match read {
        ReadOutcome::Closed => WsAction::Close,
        ReadOutcome::Failed => WsAction::Close,
        ReadOutcome::WouldBlock => WsAction::Requeue,
        ReadOutcome::Data(bytes) => match read_web_socket_message(bytes.as_slice()) {
            Ok(frame) => WsAction::Received(frame),
            Err(_) => WsAction::Close,
        },
    }
}

} // verus!
