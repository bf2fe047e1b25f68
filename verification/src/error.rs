//! The ways in which a message can fail to be framed.

use vstd::prelude::*;

verus! {

/// Why a head was refused, a body could not be delimited, or a write was
/// turned down.
///
/// The first six say that a head is malformed; `Framing` that its length
/// headers contradict each other; `Chunk` that the chunked coding of a body
/// is broken; `Write` that the local caller wrote more than it declared, or
/// wrote after the body was complete.
#[derive(Clone, Copy, Debug, PartialEq, Eq, Structural)]
pub enum Error {
    /// The request line does not begin with a method token.
    Method,
    /// The request target is missing or holds a byte that no target may hold.
    Uri,
    /// The protocol version is neither `HTTP/1.0` nor `HTTP/1.1`.
    Version,
    /// The status line does not hold a three-digit status code.
    Status,
    /// A header line, or the value of a length header, is malformed.
    Header,
    /// The head is longer, or has more header lines, than the limits allow.
    TooLarge,
    /// The length headers of the head contradict each other.
    Framing,
    /// A chunk-size line, a chunk boundary or a trailer line is malformed.
    Chunk,
    /// The caller wrote past the declared length or after the end of the body.
    Write,
}

} // verus!
