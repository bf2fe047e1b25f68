//! Message framing for HTTP/1.0 and HTTP/1.1.
//!
//! The library reads the head of a message from the bytes that have arrived,
//! decides from the head how the body is delimited, and takes the body off
//! the wire or puts it on the wire accordingly. It does no input or output of
//! its own: the caller owns the connection and its buffers.

pub mod error;
pub mod header;
pub mod http;
pub mod method;
pub mod status;
pub mod text;
pub mod uri;
pub mod version;

pub use crate::error::Error;
pub use crate::header::Headers;
pub use crate::http::h1::decode::{ChunkPhase, Decoded, Decoder};
pub use crate::http::h1::encode::Encoder;
pub use crate::http::h1::role::{ClientTransaction, ServerTransaction};
pub use crate::http::request::{PeerAddr, Request, RequestHead, RequestLine};
pub use crate::http::response::{Response, ResponseHead};
pub use crate::http::{expecting_continue, should_keep_alive, Http1Transaction, MessageHead};
pub use crate::method::Method;
pub use crate::status::StatusCode;
pub use crate::uri::Uri;
pub use crate::version::HttpVersion;
