//! A small chat server's verified core: WebSocket framing, the opening
//! handshake, the per-connection chat session, HTTP request and response
//! handling, and the text helpers they share.

pub mod bytes;
pub mod frame;
pub mod headers;
pub mod http;
pub mod socket;
pub mod text;
