//! Decoding and encoding of one WebSocket frame (RFC 6455 framing, with
//! payloads of at most 125 bytes).

use vstd::prelude::*;

verus! {

/// The purpose of a frame, from the low four bits of its first byte.
#[derive(Debug, Clone, Copy, PartialEq, Eq, Structural)]
pub enum Opcode {
    ContinuationFrame,
    TextFrame,
    BinaryFrame,
    ConnectionCloseFrame,
    PingFrame,
    PongFrame,
    /// A code that RFC 6455 does not assign; kept so that it can be reported.
    Unknown(u8),
}

/// Why a byte slice does not decode to a frame.
#[derive(Debug, Clone, Copy, PartialEq, Eq, Structural)]
pub enum FrameError {
    /// The bytes end before the header, masking key or payload does.
    TruncatedFrame,
    /// The length field asks for a 16- or 64-bit extended length.
    UnsupportedLength,
}

pub open spec fn opcode_of(code: u8) -> Opcode {
    if code == 0 {
        Opcode::ContinuationFrame
    } else if code == 1 {
        Opcode::TextFrame
    } else if code == 2 {
        Opcode::BinaryFrame
    } else if code == 8 {
        Opcode::ConnectionCloseFrame
    } else if code == 9 {
        Opcode::PingFrame
    } else if code == 10 {
        Opcode::PongFrame
    } else {
        Opcode::Unknown(code)
    }
}

pub open spec fn code_of(op: Opcode) -> u8 {
    match op {
        Opcode::ContinuationFrame => 0,
        Opcode::TextFrame => 1,
        Opcode::BinaryFrame => 2,
        Opcode::ConnectionCloseFrame => 8,
        Opcode::PingFrame => 9,
        Opcode::PongFrame => 10,
        Opcode::Unknown(c) => c,
    }
}

impl Opcode {
    pub fn from_code(code: u8) -> (r: Opcode)
        ensures
            r == opcode_of(code),
    {
        match code {
            0 => Opcode::ContinuationFrame,
            1 => Opcode::TextFrame,
            2 => Opcode::BinaryFrame,
            8 => Opcode::ConnectionCloseFrame,
            9 => Opcode::PingFrame,
            10 => Opcode::PongFrame,
            _ => Opcode::Unknown(code),
        }
    }

    pub fn code(&self) -> (r: u8)
        ensures
            r == code_of(*self),
    {
        match self {
            Opcode::ContinuationFrame => 0,
            Opcode::TextFrame => 1,
            Opcode::BinaryFrame => 2,
            Opcode::ConnectionCloseFrame => 8,
            Opcode::PingFrame => 9,
            Opcode::PongFrame => 10,
            Opcode::Unknown(c) => *c,
        }
    }
}

/// One decoded frame. The payload is held unmasked.
#[derive(Debug, Clone)]
pub struct Frame {
    pub fin: bool,
    pub opcode: Opcode,
    /// The masking key, present exactly when the mask bit was set.
    pub mask_key: Option<[u8; 4]>,
    pub payload: Vec<u8>,
}

/// The seven-bit length field of the second byte.
pub open spec fn length_field(second: u8) -> u8 {
    second & 0x7f
}

pub open spec fn mask_bit(second: u8) -> bool {
    second & 0x80 != 0
}

pub open spec fn fin_bit(first: u8) -> bool {
    first & 0x80 != 0
}

/// Bytes before the payload: two, and four more for a masking key.
pub open spec fn header_len(b: Seq<u8>) -> int {
    if mask_bit(b[1]) {
        6
    } else {
        2
    }
}

/// Header and payload together, for a frame whose length field is below 126.
pub open spec fn frame_len(b: Seq<u8>) -> int {
    header_len(b) + length_field(b[1])
}

/// The error that decoding `b` gives, if any.
pub open spec fn decode_error(b: Seq<u8>) -> Option<FrameError> {
    if b.len() < 2 {
        Some(FrameError::TruncatedFrame)
    } else if length_field(b[1]) >= 126 {
        Some(FrameError::UnsupportedLength)
    } else if b.len() < frame_len(b) {
        Some(FrameError::TruncatedFrame)
    } else {
        None
    }
}

/// XOR of each byte `i` of `data` with `key[i mod 4]`.
pub open spec fn apply_mask(data: Seq<u8>, key: Seq<u8>) -> Seq<u8> {
    Seq::new(data.len(), |i: int| data[i] ^ key[i % 4])
}

/// The unmasked payload of a frame that decodes.
pub open spec fn payload_of(b: Seq<u8>) -> Seq<u8> {
    let len = length_field(b[1]) as int;
    if mask_bit(b[1]) {
        apply_mask(b.subrange(6, 6 + len), b.subrange(2, 6))
    } else {
        b.subrange(2, 2 + len)
    }
}

pub open spec fn key_view(k: Option<[u8; 4]>) -> Option<Seq<u8>> {
    match k {
        Some(a) => Some(a@),
        None => None,
    }
}

/// What a frame that decodes from `b` holds.
pub open spec fn decodes_to(b: Seq<u8>, f: Frame) -> bool {
    &&& f.fin == fin_bit(b[0])
    &&& f.opcode == opcode_of(b[0] & 0x0f)
    &&& key_view(f.mask_key) == if mask_bit(b[1]) {
        Some(b.subrange(2, 6))
    } else {
        None::<Seq<u8>>
    }
    &&& f.payload@ == payload_of(b)
}

/// The wire form of a frame with the given fields and a payload under 126 bytes.
pub open spec fn frame_bytes(fin: bool, opcode: Opcode, key: Option<Seq<u8>>, payload: Seq<u8>) -> Seq<u8> {
    let first: u8 = ((if fin { 0x80u8 } else { 0u8 }) | (code_of(opcode) & 0x0f)) as u8;
    let len = payload.len() as u8;
    match key {
        Some(k) => seq![first, (0x80u8 | len) as u8] + k + apply_mask(payload, k),
        None => seq![first, len] + payload,
    }
}

/// Reads the payload length from a frame's second byte; lengths that need
/// the extended encodings are refused.
pub fn get_payload_len(second_byte: &u8) -> (r: Result<usize, FrameError>)
    ensures
        length_field(*second_byte) < 126 ==> r == Ok::<usize, FrameError>(
            length_field(*second_byte) as usize,
        ),
        length_field(*second_byte) >= 126 ==> r == Err::<usize, FrameError>(
            FrameError::UnsupportedLength,
        ),
{
    let len = *second_byte & 0x7f;
    if len < 126 {
        Ok(len as usize)
    } else {
        Err(FrameError::UnsupportedLength)
    }
}

/// Decodes the frame at the start of `buffer`, unmasking its payload.
/// Bytes after the frame are ignored.
pub fn read_web_socket_message(buffer: &[u8]) -> (r: Result<Frame, FrameError>)
    ensures
        match r {
            Ok(f) => decode_error(buffer@) is None && decodes_to(buffer@, f),
            Err(e) => decode_error(buffer@) == Some(e),
        },
{
    if buffer.len() < 2 {
        return Err(FrameError::TruncatedFrame);
    }
    let first = buffer[0];
    let second = buffer[1];
    let len = match get_payload_len(&second) {
        Ok(n) => n,
        Err(e) => return Err(e),
    };
    let masked = second & 0x80 != 0;
    let header: usize = if masked { 6 } else { 2 };
    if buffer.len() < header + len {
        return Err(FrameError::TruncatedFrame);
    }
    let mask_key = if masked {
        Some([buffer[2], buffer[3], buffer[4], buffer[5]])
    } else {
        None
    };
    let ghost b = buffer@;
    proof {
        if masked {
            assert(mask_key->0@ =~= b.subrange(2, 6));
        }
    }
    let mut payload: Vec<u8> = Vec::with_capacity(len);
    let mut i: usize = 0;
    while i < len
        invariant
            i <= len,
            len == length_field(b[1]),
            header == header_len(b),
            header + len <= b.len(),
            b == buffer@,
            masked == mask_bit(b[1]),
            masked ==> mask_key is Some && mask_key->0@ == b.subrange(2, 6),
            !masked ==> mask_key is None,
            payload@ =~= payload_of(b).subrange(0, i as int),
        decreases len - i,
    {
        let byte = buffer[header + i];
        let value = match mask_key {
            Some(key) => byte ^ key[i % 4],
            None => byte,
        };
        payload.push(value);
        i = i + 1;
    }
    assert(payload@ =~= payload_of(b));
    Ok(Frame { fin: first & 0x80 != 0, opcode: Opcode::from_code(first & 0x0f), mask_key, payload })
}

impl Frame {
    /// The wire form of this frame; a masked frame carries its key and its
    /// payload masked with it.
    pub fn to_bytes(&self) -> (r: Vec<u8>)
        requires
            self.payload@.len() < 126,
        ensures
            r@ == frame_bytes(self.fin, self.opcode, key_view(self.mask_key), self.payload@),
    {
        let fin_part: u8 = if self.fin { 0x80 } else { 0 };
        let first: u8 = fin_part | (self.opcode.code() & 0x0f);
        let len = self.payload.len() as u8;
        let mut out: Vec<u8> = Vec::with_capacity(self.payload.len() + 6);
        out.push(first);
        match self.mask_key {
            Some(key) => {
                out.push(0x80 | len);
                out.push(key[0]);
                out.push(key[1]);
                out.push(key[2]);
                out.push(key[3]);
            },
            None => {
                out.push(len);
            },
        }
        let ghost head = out@;
        let mut i: usize = 0;
        while i < self.payload.len()
            invariant
                i <= self.payload@.len(),
                out@ =~= head + match self.mask_key {
                    Some(k) => apply_mask(self.payload@, k@),
                    None => self.payload@,
                }.subrange(0, i as int),
            decreases self.payload@.len() - i,
        {
            let byte = self.payload[i];
            let value = match self.mask_key {
                Some(key) => byte ^ key[i % 4],
                None => byte,
            };
            out.push(value);
            i = i + 1;
        }
        proof {
            let body = match self.mask_key {
                Some(k) => apply_mask(self.payload@, k@),
                None => self.payload@,
            };
            assert(body.subrange(0, body.len() as int) =~= body);
            match self.mask_key {
                Some(k) => {
                    assert(head =~= seq![first, (0x80u8 | len) as u8] + k@);
                },
                None => {},
            }
        }
        out
    }
}

proof fn lemma_code_of_opcode_of(c: u8)
    ensures
        code_of(opcode_of(c)) == c,
{
}

proof fn lemma_apply_mask_twice(data: Seq<u8>, key: Seq<u8>)
    requires
        key.len() == 4,
    ensures
        apply_mask(apply_mask(data, key), key) == data,
{
    assert forall|i: int| 0 <= i < data.len() implies #[trigger] apply_mask(
        apply_mask(data, key),
        key,
    )[i] == data[i] by {
        let x = data[i];
        let k = key[i % 4];
        assert((x ^ k) ^ k == x) by (bit_vector);
    }
    assert(apply_mask(apply_mask(data, key), key) =~= data);
}

/// Decoding then encoding gives back the bytes: for every byte string that
/// is exactly one frame, with the reserved bits clear and a payload under
/// 126 bytes, masked or not, the decoded fields encode to that string.
pub proof fn lemma_decode_encode_round_trip(b: Seq<u8>)
    requires
        decode_error(b) is None,
        b.len() == frame_len(b),
        b[0] & 0x70 == 0,
    ensures
        frame_bytes(
            fin_bit(b[0]),
            opcode_of(b[0] & 0x0f),
            if mask_bit(b[1]) {
                Some(b.subrange(2, 6))
            } else {
                None::<Seq<u8>>
            },
            payload_of(b),
        ) == b,
{
    let b0 = b[0];
    let b1 = b[1];
    lemma_code_of_opcode_of(b0 & 0x0f);
    let first: u8 = ((if fin_bit(b0) { 0x80u8 } else { 0u8 }) | (code_of(opcode_of(b0 & 0x0f)) & 0x0f)) as u8;
    assert(first == b0) by {
        assert(b0 & 0x70 == 0 ==> ((if b0 & 0x80 != 0 { 0x80u8 } else { 0u8 }) | ((b0 & 0x0f) & 0x0f)) == b0) by (bit_vector);
    }
    let len = payload_of(b).len() as u8;
    assert(len == b1 & 0x7f);
    if mask_bit(b1) {
        assert(b1 & 0x80 != 0 ==> (0x80u8 | (b1 & 0x7f)) == b1) by (bit_vector);
        lemma_apply_mask_twice(b.subrange(6, b.len() as int), b.subrange(2, 6));
        assert(b =~= seq![b0, b1] + b.subrange(2, 6) + b.subrange(6, b.len() as int));
    } else {
        assert(b1 & 0x80 == 0 ==> (b1 & 0x7f) == b1) by (bit_vector);
        assert(b =~= seq![b0, b1] + b.subrange(2, b.len() as int));
    }
}

/// Encoding then decoding gives back the fields: a frame with a payload
/// under 126 bytes, a four-byte key if any, and an opcode that its own code
/// names, decodes from its wire form to itself.
pub proof fn lemma_encode_decode_round_trip(
    fin: bool,
    opcode: Opcode,
    key: Option<Seq<u8>>,
    payload: Seq<u8>,
)
    requires
        payload.len() < 126,
        key is Some ==> key->0.len() == 4,
        code_of(opcode) < 16,
        opcode_of(code_of(opcode)) == opcode,
    ensures
        ({
            let b = frame_bytes(fin, opcode, key, payload);
            &&& decode_error(b) is None
            &&& b.len() == frame_len(b)
            &&& fin_bit(b[0]) == fin
            &&& opcode_of(b[0] & 0x0f) == opcode
            &&& (if mask_bit(b[1]) {
                Some(b.subrange(2, 6))
            } else {
                None::<Seq<u8>>
            }) == key
            &&& payload_of(b) == payload
        }),
{
    let b = frame_bytes(fin, opcode, key, payload);
    let c = code_of(opcode);
    let fv: u8 = if fin { 0x80u8 } else { 0u8 };
    let first: u8 = (fv | (c & 0x0f)) as u8;
    assert(b[0] == first);
    assert((fv == 0x80u8 || fv == 0u8) && c < 16 ==> ((fv | (c & 0x0f)) & 0x80 != 0 <==> fv == 0x80u8)
        && (fv | (c & 0x0f)) & 0x0f == c) by (bit_vector);
    let len = payload.len() as u8;
    match key {
        Some(k) => {
            assert(b[1] == (0x80u8 | len) as u8);
            assert(len < 126 ==> (0x80u8 | len) & 0x7f == len && (0x80u8 | len) & 0x80 != 0) by (bit_vector);
            assert(b.subrange(2, 6) =~= k);
            assert(b.subrange(6, 6 + payload.len() as int) =~= apply_mask(payload, k));
            lemma_apply_mask_twice(payload, k);
        },
        None => {
            assert(b[1] == len);
            assert(len < 126 ==> len & 0x7f == len && len & 0x80 == 0) by (bit_vector);
            assert(b.subrange(2, 2 + payload.len() as int) =~= payload);
        },
    }
}

} // verus!
