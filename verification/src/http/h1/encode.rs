//! The write side: a state machine that puts the body of an outgoing message
//! on the wire in the framing that its head announced.

use vstd::prelude::*;
use crate::error::Error;
use crate::text::{extend, hex_digits, spec_hex, CR, LF};

verus! {

/// How the body of an outgoing message is delimited, and how much of it may
/// still be written.
#[derive(Clone, Copy, Debug, PartialEq, Eq, Structural)]
pub enum Encoder {
    /// There is no body.
    Zero,
    /// The body has a declared length, of which so many bytes are still to be
    /// written.
    Fixed(u64),
    /// The body goes out in the chunked coding; the flag says whether the last
    /// chunk has been written.
    Chunked(bool),
    /// The body is everything that is written until the connection is closed.
    CloseDelimited,
}

/// What a write does.
pub struct Written {
    /// The encoder after the write.
    pub next: Encoder,
    /// The bytes that the write puts on the wire.
    pub wire: Seq<u8>,
}

/// One chunk on the wire: its size in hexadecimal, CR LF, its bytes, CR LF.
pub open spec fn spec_chunk(msg: Seq<u8>) -> Seq<u8> {
    spec_hex(msg.len()) + seq![CR, LF] + msg + seq![CR, LF]
}

/// The chunk of size zero that ends a chunked body, with an empty trailer.
pub open spec fn spec_last_chunk() -> Seq<u8> {
    seq!['0' as u8, CR, LF, CR, LF]
}

/// What writing `msg` through an encoder does.
///
/// - `Zero` refuses every write.
/// - `Fixed` refuses a write once nothing is left to write, and a write that
///   is longer than what is left; it passes any other one on as it is.
/// - `Chunked` refuses a write after the last chunk; it passes an empty write
///   on as nothing and wraps any other one in a chunk.
/// - `CloseDelimited` passes every write on as it is.
pub open spec fn spec_encode(e: Encoder, msg: Seq<u8>) -> Result<Written, Error> {
    match e {
        Encoder::Zero => Err(Error::Write),
        Encoder::Fixed(rem) => if rem == 0 || msg.len() > rem {
            Err(Error::Write)
        } else {
            Ok(Written { next: Encoder::Fixed((rem - msg.len()) as u64), wire: msg })
        },
        Encoder::Chunked(ended) => if ended {
            Err(Error::Write)
        } else if msg.len() == 0 {
            Ok(Written { next: e, wire: msg })
        } else {
            Ok(Written { next: e, wire: spec_chunk(msg) })
        },
        Encoder::CloseDelimited => Ok(Written { next: e, wire: msg }),
    }
}

/// What the end of the body does to an encoder.
///
/// - `Fixed` refuses it while bytes are still owed.
/// - `Chunked` writes the last chunk, once; a second end writes nothing.
/// - The others write nothing.
pub open spec fn spec_end(e: Encoder) -> Result<Written, Error> {
    match e {
        Encoder::Fixed(rem) => if rem > 0 {
            Err(Error::Write)
        } else {
            Ok(Written { next: e, wire: Seq::<u8>::empty() })
        },
        Encoder::Chunked(ended) => if ended {
            Ok(Written { next: e, wire: Seq::<u8>::empty() })
        } else {
            Ok(Written { next: Encoder::Chunked(true), wire: spec_last_chunk() })
        },
        _ => Ok(Written { next: e, wire: Seq::<u8>::empty() }),
    }
}

/// Whether nothing more can be written through the encoder.
pub open spec fn spec_is_eof(e: Encoder) -> bool {
    e == Encoder::Zero || e == Encoder::Fixed(0) || e == Encoder::Chunked(true)
}

impl Encoder {
    /// Tells whether nothing more can be written.
    pub fn is_eof(&self) -> (r: bool)
        ensures
            r == spec_is_eof(*self),
    {
        match self {
            Encoder::Zero => true,
            Encoder::Fixed(rem) => *rem == 0,
            Encoder::Chunked(ended) => *ended,
            Encoder::CloseDelimited => false,
        }
    }

    /// Tells whether the body ends only when the connection is closed.
    pub fn is_close_delimited(&self) -> (r: bool)
        ensures
            r == (*self == Encoder::CloseDelimited),
    {
        match self {
            Encoder::CloseDelimited => true,
            _ => false,
        }
    }

    /// Writes `msg` as the next part of the body, appending to `dst`. A write
    /// that is refused appends nothing and leaves the encoder as it was.
    pub fn encode(&mut self, msg: &[u8], dst: &mut Vec<u8>) -> (r: Result<(), Error>)
        ensures
            match spec_encode(*old(self), msg@) {
                Ok(w) => {
                    &&& r is Ok
                    &&& final(dst)@ == old(dst)@ + w.wire
                    &&& *final(self) == w.next
                },
                Err(e) => {
                    &&& r == Err::<(), Error>(e)
                    &&& final(dst)@ == old(dst)@
                    &&& *final(self) == *old(self)
                },
            },
    {
        match *self {
            Encoder::Zero => Err(Error::Write),
            Encoder::Fixed(rem) => {
                if rem == 0 || msg.len() as u64 > rem {
                    Err(Error::Write)
                } else {
                    extend(dst, msg);
                    *self = Encoder::Fixed(rem - msg.len() as u64);
                    Ok(())
                }
            },
            Encoder::Chunked(ended) => {
                if ended {
                    Err(Error::Write)
                } else if msg.len() == 0 {
                    assert(dst@ =~= old(dst)@ + msg@);
                    Ok(())
                } else {
                    let size = hex_digits(msg.len() as u64);
                    extend(dst, size.as_slice());
                    dst.push(CR);
                    dst.push(LF);
                    extend(dst, msg);
                    dst.push(CR);
                    dst.push(LF);
                    assert(dst@ =~= old(dst)@ + spec_chunk(msg@));
                    Ok(())
                }
            },
            Encoder::CloseDelimited => {
                extend(dst, msg);
                Ok(())
            },
        }
    }

    /// Ends the body. A chunked body gets its last chunk, once. An end that
    /// is refused appends nothing and leaves the encoder as it was.
    pub fn end(&mut self, dst: &mut Vec<u8>) -> (r: Result<(), Error>)
        ensures
            match spec_end(*old(self)) {
                Ok(w) => {
                    &&& r is Ok
                    &&& final(dst)@ == old(dst)@ + w.wire
                    &&& *final(self) == w.next
                },
                Err(e) => {
                    &&& r == Err::<(), Error>(e)
                    &&& final(dst)@ == old(dst)@
                    &&& *final(self) == *old(self)
                },
            },
    {
        match *self {
            Encoder::Fixed(rem) => {
                if rem > 0 {
                    Err(Error::Write)
                } else {
                    assert(dst@ =~= old(dst)@ + Seq::<u8>::empty());
                    Ok(())
                }
            },
            Encoder::Chunked(ended) => {
                if ended {
                    assert(dst@ =~= old(dst)@ + Seq::<u8>::empty());
                    Ok(())
                } else {
                    let last: [u8; 5] = ['0' as u8, CR, LF, CR, LF];
                    assert(last@ =~= spec_last_chunk());
                    extend(dst, &last);
                    *self = Encoder::Chunked(true);
                    Ok(())
                }
            },
            _ => {
                assert(dst@ =~= old(dst)@ + Seq::<u8>::empty());
                Ok(())
            },
        }
    }
}

} // verus!
