//! Framing of HTTP/1 messages: the parser of heads, and the decoder and the
//! encoder of bodies.

pub mod agreement;
pub mod decode;
pub mod encode;
pub mod message;
pub mod parse;
pub mod plain;
pub mod resume;
pub mod role;
pub mod round_trip;
pub mod wire;
