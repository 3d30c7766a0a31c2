//! An HTTP/1.1 server core with WebSocket upgrade: request parsing and
//! response serialisation, the opening handshake, single-frame decoding,
//! and the queues and per-step decisions that drive connections.

pub mod frame;
pub mod handshake;
pub mod headers;
pub mod pool;
pub mod request;
pub mod response;
pub mod router;
pub mod text;
pub mod worker;
