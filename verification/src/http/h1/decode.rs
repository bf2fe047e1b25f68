//! The read side: a state machine that tells, of the bytes that arrive, which
//! belong to the body of the message and where that body ends.

use vstd::prelude::*;
use crate::error::Error;
use crate::header::line::{parse_header_line, spec_header_line};
use crate::text::{
    find_crlf, is_hex, is_ows, lemma_find_crlf, parse_hex, spec_all_field_bytes, spec_find_crlf, spec_is_hex,
    spec_is_ows, spec_parse_hex, to_vec, all_field_bytes, CR, LF,
};

verus! {

/// The semicolon that begins a chunk extension.
pub const SEMICOLON: u8 = 59;

/// Where a chunked body stands.
#[derive(Clone, Copy, Debug, PartialEq, Eq, Structural)]
pub enum ChunkPhase {
    /// The next line gives the size of a chunk.
    Size,
    /// So many bytes of the current chunk are still to come; at zero, the
    /// CR LF that closes the chunk is.
    Data(u64),
    /// The last chunk has been seen; trailer lines follow, up to an empty line.
    Trailer,
    /// The body is complete.
    Done,
}

/// How the body of an incoming message is delimited, and how much of it is
/// still to come.
#[derive(Clone, Copy, Debug, PartialEq, Eq, Structural)]
pub enum Decoder {
    /// There is no body.
    Zero,
    /// The body has a declared length, of which so many bytes are still to come.
    Fixed(u64),
    /// The body is in the chunked coding.
    Chunked(ChunkPhase),
    /// The body is everything that arrives until the connection ends.
    CloseDelimited,
}

/// What one step of a decoder does.
pub struct Step {
    /// The decoder after the step.
    pub next: Decoder,
    /// How many bytes the step takes from the front of the input.
    pub consumed: int,
    /// The body bytes that the step yields.
    pub data: Seq<u8>,
}

/// What a call of `decode` hands back.
#[derive(Debug)]
pub struct Decoded {
    /// How many bytes the caller drops from the front of its input.
    pub consumed: usize,
    /// The body bytes found among them.
    pub data: Vec<u8>,
}

/// The number of hexadecimal digits at the front of `s`, from `from` on.
pub open spec fn spec_hex_run(s: Seq<u8>, from: int) -> int
    decreases s.len() - from,
{
    if from < 0 || from >= s.len() {
        s.len() as int
    } else if !spec_is_hex(s[from]) {
        from
    } else {
        spec_hex_run(s, from + 1)
    }
}

/// The size that a chunk-size line declares. The line is given without its
/// CR LF. It begins with one or more hexadecimal digits, whose value fits in
/// 64 bits. What follows them, if anything, begins with a semicolon or white
/// space, holds no control character but the horizontal tab, and is ignored.
pub open spec fn spec_chunk_size(line: Seq<u8>) -> Option<u64> {
    let k = spec_hex_run(line, 0);
    let rest = line.skip(k);
    if rest.len() == 0 || ((rest[0] == SEMICOLON || spec_is_ows(rest[0])) && spec_all_field_bytes(
        rest,
    )) {
        spec_parse_hex(line.take(k))
    } else {
        None
    }
}

/// A step that takes nothing and leaves the decoder as it is.
pub open spec fn spec_wait(d: Decoder) -> Step {
    Step { next: d, consumed: 0, data: Seq::<u8>::empty() }
}

/// One step of a decoder in the chunked coding.
pub open spec fn spec_decode_chunked(phase: ChunkPhase, input: Seq<u8>) -> Result<Step, Error> {
    match phase {
        ChunkPhase::Size => match spec_find_crlf(input, 0) {
            None => Ok(spec_wait(Decoder::Chunked(phase))),
            Some(e) => match spec_chunk_size(input.take(e)) {
                None => Err(Error::Chunk),
                Some(n) => Ok(
                    Step {
                        next: Decoder::Chunked(
                            if n == 0 {
                                ChunkPhase::Trailer
                            } else {
                                ChunkPhase::Data(n)
                            },
                        ),
                        consumed: e + 2,
                        data: Seq::<u8>::empty(),
                    },
                ),
            },
        },
        ChunkPhase::Data(rem) => if rem > 0 {
            let k = if rem <= input.len() {
                rem as int
            } else {
                input.len() as int
            };
            Ok(
                Step {
                    next: Decoder::Chunked(ChunkPhase::Data((rem - k) as u64)),
                    consumed: k,
                    data: input.take(k),
                },
            )
        } else if input.len() >= 1 && input[0] != CR {
            Err(Error::Chunk)
        } else if input.len() >= 2 && input[1] != LF {
            Err(Error::Chunk)
        } else if input.len() < 2 {
            Ok(spec_wait(Decoder::Chunked(phase)))
        } else {
            Ok(
                Step {
                    next: Decoder::Chunked(ChunkPhase::Size),
                    consumed: 2,
                    data: Seq::<u8>::empty(),
                },
            )
        },
        ChunkPhase::Trailer => match spec_find_crlf(input, 0) {
            None => Ok(spec_wait(Decoder::Chunked(phase))),
            Some(e) => if e == 0 {
                Ok(
                    Step {
                        next: Decoder::Chunked(ChunkPhase::Done),
                        consumed: 2,
                        data: Seq::<u8>::empty(),
                    },
                )
            } else if spec_header_line(input.take(e)).is_none() {
                Err(Error::Chunk)
            } else {
                Ok(
                    Step {
                        next: Decoder::Chunked(ChunkPhase::Trailer),
                        consumed: e + 2,
                        data: Seq::<u8>::empty(),
                    },
                )
            },
        },
        ChunkPhase::Done => Ok(spec_wait(Decoder::Chunked(phase))),
    }
}

/// One step of a decoder on the bytes that have arrived.
///
/// - `Zero` takes nothing.
/// - `Fixed` takes body bytes, as many as have arrived and no more than are
///   still to come.
/// - `CloseDelimited` takes everything as body.
/// - `Chunked` takes one piece of the coding: a whole chunk-size line, or
///   bytes of the current chunk and no more than it still holds, or the CR LF
///   that closes a chunk, or one whole trailer line. A line that has not
///   arrived whole is left where it is: the step takes nothing.
pub open spec fn spec_decode(d: Decoder, input: Seq<u8>) -> Result<Step, Error> {
    match d {
        Decoder::Zero => Ok(spec_wait(d)),
        Decoder::Fixed(rem) => {
            let k = if rem <= input.len() {
                rem as int
            } else {
                input.len() as int
            };
            Ok(Step { next: Decoder::Fixed((rem - k) as u64), consumed: k, data: input.take(k) })
        },
        Decoder::Chunked(phase) => spec_decode_chunked(phase, input),
        Decoder::CloseDelimited => Ok(
            Step { next: Decoder::CloseDelimited, consumed: input.len() as int, data: input },
        ),
    }
}

/// Steps of a decoder, one after the other, until a step takes nothing: the
/// decoder at the end, the bytes taken in all, and the body bytes in order.
pub open spec fn spec_decode_all(d: Decoder, input: Seq<u8>) -> Result<Step, Error>
    decreases input.len(),
{
    match spec_decode(d, input) {
        Err(e) => Err(e),
        Ok(s) => if s.consumed <= 0 || s.consumed > input.len() {
            Ok(spec_wait(d))
        } else {
            spec_after(s.consumed, s.data, spec_decode_all(s.next, input.skip(s.consumed)))
        },
    }
}

/// The outcome of steps that follow a first part: the bytes taken and the
/// body bytes of the first part, then those of the steps.
pub open spec fn spec_after(consumed: int, data: Seq<u8>, rest: Result<Step, Error>) -> Result<
    Step,
    Error,
> {
    match rest {
        Err(e) => Err(e),
        Ok(t) => Ok(Step { next: t.next, consumed: consumed + t.consumed, data: data + t.data }),
    }
}

/// Whether the body is complete, so that what arrives next belongs to the
/// next message.
pub open spec fn spec_is_done(d: Decoder) -> bool {
    d == Decoder::Zero || d == Decoder::Fixed(0) || d == Decoder::Chunked(ChunkPhase::Done)
}

/// Counts the hexadecimal digits at the front of `s`.
fn hex_run(s: &[u8]) -> (r: usize)
    ensures
        r == spec_hex_run(s@, 0),
        r <= s.len(),
{
    let mut i: usize = 0;
    while i < s.len() && is_hex(s[i])
        invariant
            i <= s.len(),
            spec_hex_run(s@, 0) == spec_hex_run(s@, i as int),
        decreases s.len() - i,
    {
        i += 1;
    }
    i
}

/// Reads the size that a chunk-size line declares.
pub fn chunk_size(line: &[u8]) -> (r: Option<u64>)
    ensures
        r == spec_chunk_size(line@),
{
    let k = hex_run(line);
    let rest = &line[k..line.len()];
    assert(rest@ =~= line@.skip(k as int));
    assert(line@.subrange(0, k as int) =~= line@.take(k as int));
    if rest.len() == 0 || ((rest[0] == SEMICOLON || is_ows(rest[0])) && all_field_bytes(rest)) {
        parse_hex(&line[0..k])
    } else {
        None
    }
}

impl Decoder {
    /// Tells whether the body is complete.
    pub fn is_done(&self) -> (r: bool)
        ensures
            r == spec_is_done(*self),
    {
        match self {
            Decoder::Zero => true,
            Decoder::Fixed(rem) => *rem == 0,
            Decoder::Chunked(phase) => match phase {
                ChunkPhase::Done => true,
                _ => false,
            },
            Decoder::CloseDelimited => false,
        }
    }

    /// Takes one step on the bytes that have arrived, which begin where the
    /// last step stopped. On an error the decoder is left as it was.
    pub fn decode(&mut self, input: &[u8]) -> (r: Result<Decoded, Error>)
        ensures
            match spec_decode(*old(self), input@) {
                Ok(step) => {
                    &&& r matches Ok(d)
                    &&& d.consumed == step.consumed
                    &&& d.consumed <= input@.len()
                    &&& d.data@ == step.data
                    &&& *final(self) == step.next
                },
                Err(e) => {
                    &&& r matches Err(x)
                    &&& x == e
                    &&& *final(self) == *old(self)
                },
            },
    {
        match *self {
            Decoder::Zero => Ok(Decoded { consumed: 0, data: Vec::new() }),
            Decoder::Fixed(rem) => {
                let k: usize = if rem <= input.len() as u64 {
                    rem as usize
                } else {
                    input.len()
                };
                *self = Decoder::Fixed(rem - k as u64);
                let data = to_vec(&input[0..k]);
                assert(input@.subrange(0, k as int) =~= input@.take(k as int));
                Ok(Decoded { consumed: k, data })
            },
            Decoder::CloseDelimited => {
                Ok(Decoded { consumed: input.len(), data: to_vec(input) })
            },
            Decoder::Chunked(phase) => match phase {
                ChunkPhase::Size => match find_crlf(input, 0) {
                    None => Ok(Decoded { consumed: 0, data: Vec::new() }),
                    Some(e) => {
                        assert(input@.subrange(0, e as int) =~= input@.take(e as int));
                        match chunk_size(&input[0..e]) {
                            None => Err(Error::Chunk),
                            Some(n) => {
                                if n == 0 {
                                    *self = Decoder::Chunked(ChunkPhase::Trailer);
                                } else {
                                    *self = Decoder::Chunked(ChunkPhase::Data(n));
                                }
                                Ok(Decoded { consumed: e + 2, data: Vec::new() })
                            },
                        }
                    },
                },
                ChunkPhase::Data(rem) => {
                    if rem > 0 {
                        let k: usize = if rem <= input.len() as u64 {
                            rem as usize
                        } else {
                            input.len()
                        };
                        *self = Decoder::Chunked(ChunkPhase::Data(rem - k as u64));
                        let data = to_vec(&input[0..k]);
                        assert(input@.subrange(0, k as int) =~= input@.take(k as int));
                        Ok(Decoded { consumed: k, data })
                    } else if input.len() >= 1 && input[0] != CR {
                        Err(Error::Chunk)
                    } else if input.len() >= 2 && input[1] != LF {
                        Err(Error::Chunk)
                    } else if input.len() < 2 {
                        Ok(Decoded { consumed: 0, data: Vec::new() })
                    } else {
                        *self = Decoder::Chunked(ChunkPhase::Size);
                        Ok(Decoded { consumed: 2, data: Vec::new() })
                    }
                },
                ChunkPhase::Trailer => match find_crlf(input, 0) {
                    None => Ok(Decoded { consumed: 0, data: Vec::new() }),
                    Some(e) => {
                        assert(input@.subrange(0, e as int) =~= input@.take(e as int));
                        if e == 0 {
                            *self = Decoder::Chunked(ChunkPhase::Done);
                            Ok(Decoded { consumed: 2, data: Vec::new() })
                        } else if parse_header_line(&input[0..e]).is_none() {
                            Err(Error::Chunk)
                        } else {
                            Ok(Decoded { consumed: e + 2, data: Vec::new() })
                        }
                    },
                },
                ChunkPhase::Done => Ok(Decoded { consumed: 0, data: Vec::new() }),
            },
        }
    }

    /// Takes step after step on the bytes that have arrived, until a step
    /// takes nothing: the body is complete, or the input is used up, or the
    /// next line has not arrived whole. On an error the decoder is left as it
    /// was and nothing is handed back.
    pub fn decode_all(&mut self, input: &[u8]) -> (r: Result<Decoded, Error>)
        ensures
            match spec_decode_all(*old(self), input@) {
                Ok(step) => {
                    &&& r matches Ok(d)
                    &&& d.consumed == step.consumed
                    &&& d.consumed <= input@.len()
                    &&& d.data@ == step.data
                    &&& *final(self) == step.next
                },
                Err(e) => {
                    &&& r matches Err(x)
                    &&& x == e
                    &&& *final(self) == *old(self)
                },
            },
    {
        let start = *self;
        let mut pos: usize = 0;
        let mut data: Vec<u8> = Vec::new();
        proof {
            assert(input@.skip(0) =~= input@);
            lemma_after_nothing(spec_decode_all(start, input@));
        }
        loop
            invariant
                pos <= input.len(),
                start == *old(self),
                spec_decode_all(start, input@) == spec_after(
                    pos as int,
                    data@,
                    spec_decode_all(*self, input@.skip(pos as int)),
                ),
            decreases input.len() - pos,
        {
            let ghost cur = *self;
            let ghost rest = input@.skip(pos as int);
            let ghost before = data@;
            assert(input@.subrange(pos as int, input@.len() as int) =~= rest);
            match self.decode(&input[pos..input.len()]) {
                Err(e) => {
                    *self = start;
                    return Err(e);
                },
                Ok(d) => {
                    proof {
                        lemma_decode_step(cur, rest);
                    }
                    if d.consumed == 0 {
                        assert(before + Seq::<u8>::empty() =~= before);
                        return Ok(Decoded { consumed: pos, data });
                    }
                    proof {
                        let s = spec_decode(cur, rest).unwrap();
                        assert(rest.skip(s.consumed) =~= input@.skip(pos + s.consumed));
                        lemma_after_after(
                            pos as int,
                            before,
                            s.consumed,
                            s.data,
                            spec_decode_all(s.next, rest.skip(s.consumed)),
                        );
                    }
                    pos = pos + d.consumed;
                    let mut part = d.data;
                    data.append(&mut part);
                },
            }
        }
    }
}

/// What is still to come of a body whose end is declared: of the body, for a
/// decoder of a fixed length; of the current chunk, for a chunked one.
pub open spec fn spec_remainder(d: Decoder) -> Option<u64> {
    match d {
        Decoder::Zero => Some(0),
        Decoder::Fixed(rem) => Some(rem),
        Decoder::Chunked(ChunkPhase::Data(rem)) => Some(rem),
        Decoder::Chunked(_) => Some(0),
        Decoder::CloseDelimited => None,
    }
}

/// A step takes no more than has arrived, and yields no more than it takes,
/// nor more than is still to come of the body or of the current chunk; the
/// bytes it yields are the first it takes; one that takes nothing yields
/// nothing and leaves the decoder as it is.
pub proof fn lemma_decode_step(d: Decoder, input: Seq<u8>)
    ensures
        match spec_decode(d, input) {
            Ok(s) => {
                &&& 0 <= s.consumed <= input.len()
                &&& s.data.len() <= s.consumed
                &&& s.data == input.take(s.data.len() as int)
                &&& spec_remainder(d) matches Some(rem) ==> s.data.len() <= rem
                &&& s.consumed == 0 ==> s.next == d && s.data == Seq::<u8>::empty()
            },
            Err(_) => true,
        },
{
    lemma_find_crlf(input, 0);
    match spec_decode(d, input) {
        Ok(s) => {
            if s.consumed == 0 {
                assert(s.data =~= Seq::<u8>::empty());
            }
            assert(s.data =~= input.take(s.data.len() as int));
        },
        Err(_) => {},
    }
}

/// Steps, one after the other, take no more than has arrived.
pub proof fn lemma_decode_all_bounds(d: Decoder, input: Seq<u8>)
    ensures
        spec_decode_all(d, input) matches Ok(t) ==> 0 <= t.consumed <= input.len(),
    decreases input.len(),
{
    lemma_decode_step(d, input);
    match spec_decode(d, input) {
        Ok(s) => {
            if 0 < s.consumed <= input.len() {
                lemma_decode_all_bounds(s.next, input.skip(s.consumed));
            }
        },
        Err(_) => {},
    }
}

/// Nothing in front of an outcome leaves it as it is.
pub proof fn lemma_after_nothing(rest: Result<Step, Error>)
    ensures
        spec_after(0, Seq::<u8>::empty(), rest) == rest,
{
    match rest {
        Ok(t) => {
            assert(Seq::<u8>::empty() + t.data =~= t.data);
        },
        Err(_) => {},
    }
}

/// Two parts in front of an outcome are one part made of both.
pub proof fn lemma_after_after(
    c1: int,
    d1: Seq<u8>,
    c2: int,
    d2: Seq<u8>,
    rest: Result<Step, Error>,
)
    ensures
        spec_after(c1, d1, spec_after(c2, d2, rest)) == spec_after(c1 + c2, d1 + d2, rest),
{
    match rest {
        Ok(t) => {
            assert(d1 + (d2 + t.data) =~= (d1 + d2) + t.data);
        },
        Err(_) => {},
    }
}

} // verus!
