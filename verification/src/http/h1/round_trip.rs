//! What the write side puts on the wire, the read side takes off it again:
//! the same bytes, in the same order, and not one byte more.

use vstd::prelude::*;
use crate::error::Error;
use crate::http::h1::decode::{
    lemma_after_after, spec_after, spec_chunk_size, spec_decode, spec_decode_all, spec_hex_run,
    spec_wait, ChunkPhase, Decoder, Step,
};
use crate::http::h1::encode::{spec_chunk, spec_encode, spec_end, spec_last_chunk, Encoder, Written};
use crate::text::{
    lemma_find_crlf_at, lemma_hex_round_trip, spec_all_hex, spec_find_crlf, spec_hex, spec_is_hex,
    CR, LF,
};

verus! {

/// The parts of a body, one after the other.
pub open spec fn spec_concat(parts: Seq<Seq<u8>>) -> Seq<u8>
    decreases parts.len(),
{
    if parts.len() == 0 {
        Seq::<u8>::empty()
    } else {
        parts[0] + spec_concat(parts.skip(1))
    }
}

/// What writing a whole body does: each part through `encode`, in order, and
/// then `end`.
pub open spec fn spec_encode_all(e: Encoder, parts: Seq<Seq<u8>>) -> Result<Written, Error>
    decreases parts.len(),
{
    if parts.len() == 0 {
        spec_end(e)
    } else {
        match spec_encode(e, parts[0]) {
            Err(x) => Err(x),
            Ok(w) => match spec_encode_all(w.next, parts.skip(1)) {
                Err(x) => Err(x),
                Ok(t) => Ok(Written { next: t.next, wire: w.wire + t.wire }),
            },
        }
    }
}

/// A run of hexadecimal digits is as long as the digits go.
proof fn lemma_hex_run_all(s: Seq<u8>, from: int)
    requires
        0 <= from <= s.len(),
        spec_all_hex(s),
    ensures
        spec_hex_run(s, from) == s.len(),
    decreases s.len() - from,
{
    if from < s.len() {
        assert(spec_is_hex(s[from]));
        lemma_hex_run_all(s, from + 1);
    }
}

/// A step that takes something is followed by the steps on what is left.
proof fn lemma_decode_all_step(d: Decoder, input: Seq<u8>, s: Step)
    requires
        spec_decode(d, input) == Ok::<Step, Error>(s),
        0 < s.consumed <= input.len(),
    ensures
        spec_decode_all(d, input) == spec_after(
            s.consumed,
            s.data,
            spec_decode_all(s.next, input.skip(s.consumed)),
        ),
{
}

/// A decoder whose body is complete takes nothing more.
proof fn lemma_decode_all_done(d: Decoder, input: Seq<u8>)
    requires
        d == Decoder::Fixed(0) || d == Decoder::Chunked(ChunkPhase::Done) || d == Decoder::Zero,
    ensures
        spec_decode_all(d, input) == Ok::<Step, Error>(spec_wait(d)),
{
}

/// The size line of a chunk is read back as the size of the chunk.
proof fn lemma_chunk_size_of_hex(n: nat)
    requires
        n <= u64::MAX,
    ensures
        spec_chunk_size(spec_hex(n)) == Some(n as u64),
{
    let hex = spec_hex(n);
    lemma_hex_round_trip(n);
    lemma_hex_run_all(hex, 0);
    assert(hex.skip(hex.len() as int) =~= Seq::<u8>::empty());
    assert(hex.take(hex.len() as int) =~= hex);
}

/// One chunk on the wire, decoded from the start of a chunk, yields the
/// bytes of the chunk, and the decoder is at the start of the next one.
proof fn lemma_decode_chunk(p: Seq<u8>, tail: Seq<u8>)
    requires
        0 < p.len() <= u64::MAX,
    ensures
        spec_decode_all(Decoder::Chunked(ChunkPhase::Size), spec_chunk(p) + tail) == spec_after(
            spec_chunk(p).len() as int,
            p,
            spec_decode_all(Decoder::Chunked(ChunkPhase::Size), tail),
        ),
{
    let n = p.len();
    let hex = spec_hex(n);
    let h = hex.len() as int;
    let input = spec_chunk(p) + tail;
    let empty = Seq::<u8>::empty();
    lemma_hex_round_trip(n);
    lemma_chunk_size_of_hex(n);
    assert forall|j: int| 0 <= j < h implies input[j] != CR by {
        assert(input[j] == hex[j]);
        assert(spec_is_hex(hex[j]));
    }
    assert(input[h] == CR);
    assert(input[h + 1] == LF);
    lemma_find_crlf_at(input, 0, h);
    assert(input.take(h) =~= hex);
    let s1 = Step { next: Decoder::Chunked(ChunkPhase::Data(n as u64)), consumed: h + 2, data: empty };
    assert(spec_decode(Decoder::Chunked(ChunkPhase::Size), input) == Ok::<Step, Error>(s1));
    lemma_decode_all_step(Decoder::Chunked(ChunkPhase::Size), input, s1);

    let input2 = input.skip(h + 2);
    assert(input2 =~= p + seq![CR, LF] + tail);
    assert(input2.take(n as int) =~= p);
    let s2 = Step { next: Decoder::Chunked(ChunkPhase::Data(0)), consumed: n as int, data: p };
    assert(spec_decode(Decoder::Chunked(ChunkPhase::Data(n as u64)), input2) == Ok::<Step, Error>(s2));
    lemma_decode_all_step(Decoder::Chunked(ChunkPhase::Data(n as u64)), input2, s2);

    let input3 = input2.skip(n as int);
    assert(input3 =~= seq![CR, LF] + tail);
    assert(input3[0] == CR && input3[1] == LF);
    let s3 = Step { next: Decoder::Chunked(ChunkPhase::Size), consumed: 2, data: empty };
    assert(spec_decode(Decoder::Chunked(ChunkPhase::Data(0)), input3) == Ok::<Step, Error>(s3));
    lemma_decode_all_step(Decoder::Chunked(ChunkPhase::Data(0)), input3, s3);
    assert(input3.skip(2) =~= tail);

    let rest = spec_decode_all(Decoder::Chunked(ChunkPhase::Size), tail);
    lemma_after_after(n as int, p, 2, empty, rest);
    lemma_after_after(h + 2, empty, n as int + 2, p + empty, rest);
    assert(empty + (p + empty) =~= p);
}

/// The last chunk on the wire, decoded from the start of a chunk, completes
/// the body and yields nothing; what follows it is left alone.
proof fn lemma_decode_last_chunk(tail: Seq<u8>)
    ensures
        spec_decode_all(Decoder::Chunked(ChunkPhase::Size), spec_last_chunk() + tail) == Ok::<
            Step,
            Error,
        >(
            Step {
                next: Decoder::Chunked(ChunkPhase::Done),
                consumed: 5,
                data: Seq::<u8>::empty(),
            },
        ),
{
    let input = spec_last_chunk() + tail;
    let empty = Seq::<u8>::empty();
    let zero = seq!['0' as u8];
    assert(input[0] == '0' as u8 && input[1] == CR && input[2] == LF && input[3] == CR && input[4]
        == LF);
    lemma_find_crlf_at(input, 0, 1);
    assert(input.take(1) =~= zero);
    assert(spec_hex(0) =~= zero);
    lemma_chunk_size_of_hex(0);
    let s1 = Step { next: Decoder::Chunked(ChunkPhase::Trailer), consumed: 3, data: empty };
    assert(spec_decode(Decoder::Chunked(ChunkPhase::Size), input) == Ok::<Step, Error>(s1));
    lemma_decode_all_step(Decoder::Chunked(ChunkPhase::Size), input, s1);

    let input2 = input.skip(3);
    assert(input2[0] == CR && input2[1] == LF);
    assert(spec_find_crlf(input2, 0) == Some(0int));
    let s2 = Step { next: Decoder::Chunked(ChunkPhase::Done), consumed: 2, data: empty };
    assert(spec_decode(Decoder::Chunked(ChunkPhase::Trailer), input2) == Ok::<Step, Error>(s2));
    lemma_decode_all_step(Decoder::Chunked(ChunkPhase::Trailer), input2, s2);
    lemma_decode_all_done(Decoder::Chunked(ChunkPhase::Done), input2.skip(2));
    assert(empty + (empty + empty) =~= empty);
}

/// A body written part by part through a chunked encoder, each part of it
/// non-empty, and then ended, is read back whole by a chunked decoder: the
/// decoder yields the parts in order, takes exactly the bytes that were
/// written, the last chunk among them, and is done. Bytes that follow on the
/// wire are not touched.
pub proof fn lemma_chunked_round_trip(parts: Seq<Seq<u8>>, more: Seq<u8>)
    requires
        forall|i: int| 0 <= i < parts.len() ==> 0 < (#[trigger] parts[i]).len() <= u64::MAX,
    ensures
        spec_encode_all(Encoder::Chunked(false), parts) matches Ok(w) && {
            &&& w.next == Encoder::Chunked(true)
            &&& spec_decode_all(Decoder::Chunked(ChunkPhase::Size), w.wire + more) == Ok::<
                Step,
                Error,
            >(
                Step {
                    next: Decoder::Chunked(ChunkPhase::Done),
                    consumed: w.wire.len() as int,
                    data: spec_concat(parts),
                },
            )
        },
    decreases parts.len(),
{
    if parts.len() == 0 {
        lemma_decode_last_chunk(more);
    } else {
        let p = parts[0];
        let rest = parts.skip(1);
        assert forall|i: int| 0 <= i < rest.len() implies 0 < (#[trigger] rest[i]).len()
            <= u64::MAX by {
            assert(rest[i] == parts[i + 1]);
        }
        lemma_chunked_round_trip(rest, more);
        let t = spec_encode_all(Encoder::Chunked(false), rest).unwrap();
        let w = spec_encode_all(Encoder::Chunked(false), parts).unwrap();
        assert(w.wire == spec_chunk(p) + t.wire);
        assert(w.wire + more =~= spec_chunk(p) + (t.wire + more));
        lemma_decode_chunk(p, t.wire + more);
    }
}

/// A body of a declared length, written part by part through a fixed-length
/// encoder, each part of it non-empty, and then ended, goes on the wire as it
/// is, and a fixed-length decoder for the same length reads back exactly that
/// many bytes and is done. Bytes that follow on the wire are not touched.
pub proof fn lemma_fixed_round_trip(parts: Seq<Seq<u8>>, more: Seq<u8>)
    requires
        forall|i: int| 0 <= i < parts.len() ==> (#[trigger] parts[i]).len() > 0,
        spec_concat(parts).len() <= u64::MAX,
    ensures
        spec_encode_all(Encoder::Fixed(spec_concat(parts).len() as u64), parts) == Ok::<
            Written,
            Error,
        >(Written { next: Encoder::Fixed(0), wire: spec_concat(parts) }),
        spec_decode_all(Decoder::Fixed(spec_concat(parts).len() as u64), spec_concat(parts) + more)
            == Ok::<Step, Error>(
            Step {
                next: Decoder::Fixed(0),
                consumed: spec_concat(parts).len() as int,
                data: spec_concat(parts),
            },
        ),
    decreases parts.len(),
{
    let body = spec_concat(parts);
    let n = body.len();
    let input = body + more;
    let empty = Seq::<u8>::empty();
    if n > 0 {
        assert(input.take(n as int) =~= body);
        let s = Step { next: Decoder::Fixed(0), consumed: n as int, data: body };
        assert(spec_decode(Decoder::Fixed(n as u64), input) == Ok::<Step, Error>(s));
        lemma_decode_all_step(Decoder::Fixed(n as u64), input, s);
        lemma_decode_all_done(Decoder::Fixed(0), input.skip(n as int));
        assert(body + empty =~= body);
    } else {
        lemma_decode_all_done(Decoder::Fixed(0), input);
        assert(body =~= empty);
    }
    if parts.len() > 0 {
        let rest = parts.skip(1);
        assert forall|i: int| 0 <= i < rest.len() implies (#[trigger] rest[i]).len() > 0 by {
            assert(rest[i] == parts[i + 1]);
        }
        lemma_fixed_round_trip(rest, more);
    } else {
        assert(body =~= empty);
    }
}

/// A body that a fixed-length encoder takes whole is exactly as long as was
/// declared, and goes on the wire as it is: whatever the parts, if each
/// write and the end are accepted, the bytes written are the parts in order,
/// and there are as many of them as the encoder was made for.
pub proof fn lemma_fixed_is_exact(n: u64, parts: Seq<Seq<u8>>)
    ensures
        spec_encode_all(Encoder::Fixed(n), parts) matches Ok(w) ==> {
            &&& w.next == Encoder::Fixed(0)
            &&& w.wire == spec_concat(parts)
            &&& spec_concat(parts).len() == n
        },
    decreases parts.len(),
{
    if parts.len() > 0 {
        match spec_encode(Encoder::Fixed(n), parts[0]) {
            Ok(w) => {
                lemma_fixed_is_exact((n - parts[0].len()) as u64, parts.skip(1));
            },
            Err(_) => {},
        }
    } else {
        assert(spec_concat(parts) =~= Seq::<u8>::empty());
    }
}

/// The last chunk is written once: after the end of a chunked body, a
/// second end writes nothing, and every write is refused.
pub proof fn lemma_chunked_ends_once(msg: Seq<u8>)
    ensures
        spec_end(Encoder::Chunked(false)) == Ok::<Written, Error>(
            Written { next: Encoder::Chunked(true), wire: spec_last_chunk() },
        ),
        spec_end(Encoder::Chunked(true)) == Ok::<Written, Error>(
            Written { next: Encoder::Chunked(true), wire: Seq::<u8>::empty() },
        ),
        spec_encode(Encoder::Chunked(true), msg) == Err::<Written, Error>(Error::Write),
{
}

} // verus!
