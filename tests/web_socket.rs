use http_server::frame::{get_payload_len, read_web_socket_message, Frame, FrameError, Opcode};
use http_server::handshake::{get_web_socket_accept_key, handle_web_socket_upgrade, hash_to_string, UpgradeError};
use http_server::request::HttpRequest;

#[test]
fn accept_key_of_rfc_sample() {
    let key = "dGhlIHNhbXBsZSBub25jZQ==".to_string();
    assert_eq!(get_web_socket_accept_key(&key), "s3pPLMBiTxaQ9kYGzzhZRbK+xOo=");
}

#[test]
fn hash_to_string_is_lower_hex_sha1() {
    assert_eq!(hash_to_string("abc".to_string()), "a9993e364706816aba3e25717850c26c9cd0d89d");
}

#[test]
fn unmasked_text_frame_round_trip() {
    let bytes = vec![0x81, 0x05, b'H', b'e', b'l', b'l', b'o'];
    let frame = read_web_socket_message(&bytes).unwrap();
    assert!(frame.fin);
    assert_eq!(frame.opcode, Opcode::TextFrame);
    assert_eq!(frame.mask_key, None);
    assert_eq!(frame.payload, b"Hello".to_vec());
    assert_eq!(frame.to_bytes(), bytes);
}

#[test]
fn empty_and_longest_unmasked_frames_round_trip() {
    let empty = vec![0x01, 0x00];
    assert_eq!(read_web_socket_message(&empty).unwrap().to_bytes(), empty);
    let mut longest = vec![0x81, 125];
    longest.extend((0..125u8).map(|i| i.wrapping_mul(7)));
    let frame = read_web_socket_message(&longest).unwrap();
    assert_eq!(frame.payload.len(), 125);
    assert_eq!(frame.to_bytes(), longest);
}

#[test]
fn masked_frame_is_unmasked_with_cycling_key() {
    let key = [0x37, 0xfa, 0x21, 0x3d];
    let payload = b"Hello";
    let mut bytes = vec![0x81, 0x80 | payload.len() as u8];
    bytes.extend_from_slice(&key);
    bytes.extend(payload.iter().enumerate().map(|(i, b)| b ^ key[i % 4]));
    assert_eq!(bytes, vec![0x81, 0x85, 0x37, 0xfa, 0x21, 0x3d, 0x7f, 0x9f, 0x4d, 0x51, 0x58]);
    let frame = read_web_socket_message(&bytes).unwrap();
    assert_eq!(frame.mask_key, Some(key));
    assert_eq!(frame.payload, payload.to_vec());
    assert_eq!(frame.to_bytes(), bytes);
}

#[test]
fn extended_lengths_are_unsupported() {
    assert_eq!(get_payload_len(&126).unwrap_err(), FrameError::UnsupportedLength);
    assert_eq!(get_payload_len(&(0x80 | 127)).unwrap_err(), FrameError::UnsupportedLength);
    assert_eq!(get_payload_len(&(0x80 | 125)).unwrap(), 125);
    let bytes = vec![0x81, 126, 0, 200];
    assert_eq!(read_web_socket_message(&bytes).unwrap_err(), FrameError::UnsupportedLength);
    let bytes = vec![0x82, 0xff, 0, 0, 0, 0, 0, 0, 1, 0];
    assert_eq!(read_web_socket_message(&bytes).unwrap_err(), FrameError::UnsupportedLength);
}

#[test]
fn truncated_frames_are_errors() {
    assert_eq!(read_web_socket_message(&[]).unwrap_err(), FrameError::TruncatedFrame);
    assert_eq!(read_web_socket_message(&[0x81]).unwrap_err(), FrameError::TruncatedFrame);
    assert_eq!(read_web_socket_message(&[0x81, 0x03, b'a']).unwrap_err(), FrameError::TruncatedFrame);
    assert_eq!(read_web_socket_message(&[0x81, 0x81, 1, 2, 3]).unwrap_err(), FrameError::TruncatedFrame);
}

#[test]
fn opcodes_are_mapped_and_unknown_kept() {
    let cases = [
        (0x0, Opcode::ContinuationFrame),
        (0x2, Opcode::BinaryFrame),
        (0x8, Opcode::ConnectionCloseFrame),
        (0x9, Opcode::PingFrame),
        (0xA, Opcode::PongFrame),
        (0x3, Opcode::Unknown(3)),
    ];
    for (code, op) in cases {
        let frame = read_web_socket_message(&[code, 0x00]).unwrap();
        assert!(!frame.fin);
        assert_eq!(frame.opcode, op);
        assert_eq!(frame.opcode.code(), code);
    }
}

#[test]
fn encoder_masks_payload() {
    let frame = Frame { fin: true, opcode: Opcode::BinaryFrame, mask_key: Some([1, 2, 3, 4]), payload: vec![1, 2, 3, 4, 5] };
    assert_eq!(frame.to_bytes(), vec![0x82, 0x85, 1, 2, 3, 4, 0, 0, 0, 0, 4]);
}

fn upgrade_request(extra: &str) -> HttpRequest {
    HttpRequest::parse(&format!(
        "GET /chat HTTP/1.1\r\nHost: localhost\r\nUpgrade: websocket\r\nConnection: Upgrade\r\nSec-WebSocket-Version: 13\r\n{extra}\r\n"
    ))
}

#[test]
fn upgrade_answers_101_with_accept_key_and_no_body() {
    let req = upgrade_request("Sec-WebSocket-Key: dGhlIHNhbXBsZSBub25jZQ==\r\n");
    let mut response = handle_web_socket_upgrade(&req).unwrap();
    assert_eq!(response.status_code, "101");
    assert_eq!(response.body, None);
    let bytes = response.send_response();
    let expected = "HTTP/1.1 101 Unknown\r\nUpgrade: websocket\r\nConnection: Upgrade\r\nSec-WebSocket-Accept: s3pPLMBiTxaQ9kYGzzhZRbK+xOo=\r\nContent-Length: 0\r\n\r\n";
    assert_eq!(String::from_utf8(bytes).unwrap(), expected);
}

#[test]
fn upgrade_without_key_or_headers_fails() {
    let req = upgrade_request("");
    assert_eq!(handle_web_socket_upgrade(&req).unwrap_err(), UpgradeError::MissingKey);
    let req = HttpRequest::parse("GET / HTTP/1.1\r\nUpgrade: WebSocket\r\nConnection: Upgrade\r\nSec-WebSocket-Version: 13\r\nSec-WebSocket-Key: abc\r\n\r\n");
    assert_eq!(handle_web_socket_upgrade(&req).unwrap_err(), UpgradeError::NotWebSocketUpgrade);
    let req = HttpRequest::parse("GET / HTTP/1.1\r\nUpgrade: websocket\r\nConnection: Upgrade\r\nSec-WebSocket-Key: abc\r\n\r\n");
    assert_eq!(handle_web_socket_upgrade(&req).unwrap_err(), UpgradeError::NotWebSocketUpgrade);
}

#[test]
fn hex_string_digits() {
    assert_eq!(http_server::handshake::hex_string(&[]), "");
    assert_eq!(http_server::handshake::hex_string(&[0x00, 0x0f, 0xa5, 0xff]), "000fa5ff");
}
