//! A body may arrive in any number of pieces: decoding what has arrived, and
//! then going on when more arrives, gives what decoding all of it at once
//! gives.

use vstd::prelude::*;
use crate::error::Error;
use crate::http::h1::decode::{
    lemma_after_after, lemma_after_nothing, lemma_decode_all_bounds, lemma_decode_step,
    spec_after, spec_decode,
    spec_decode_all, spec_wait, ChunkPhase, Decoder, Step,
};
use crate::http::h1::parse::{lemma_find_crlf_front, spec_is_front};
use crate::text::{lemma_find_crlf, spec_find_crlf};

verus! {

/// Whether the next step of a decoder takes body bytes, as many as there
/// are and as the body or the chunk still holds.
pub open spec fn spec_takes_data(d: Decoder) -> bool {
    match d {
        Decoder::Fixed(rem) => rem > 0,
        Decoder::Chunked(ChunkPhase::Data(rem)) => rem > 0,
        Decoder::CloseDelimited => true,
        _ => false,
    }
}

/// How many body bytes the next step of a decoder may take at most, of
/// `len` bytes that have arrived.
pub open spec fn spec_room(d: Decoder, len: int) -> int {
    match d {
        Decoder::Fixed(rem) => if rem <= len {
            rem as int
        } else {
            len
        },
        Decoder::Chunked(ChunkPhase::Data(rem)) => if rem <= len {
            rem as int
        } else {
            len
        },
        Decoder::CloseDelimited => len,
        _ => 0,
    }
}

/// A decoder after it has taken `k` body bytes, no more than it had room for.
pub open spec fn spec_less(d: Decoder, k: int) -> Decoder {
    match d {
        Decoder::Fixed(rem) => Decoder::Fixed((rem - k) as u64),
        Decoder::Chunked(ChunkPhase::Data(rem)) => Decoder::Chunked(
            ChunkPhase::Data((rem - k) as u64),
        ),
        _ => d,
    }
}

/// A step that reads a line, or the end of a chunk, and does not wait, does
/// the same whatever follows on the wire.
proof fn lemma_step_stands(d: Decoder, a: Seq<u8>, b: Seq<u8>)
    requires
        !spec_takes_data(d),
        spec_decode(d, a) != Ok::<Step, Error>(spec_wait(d)),
    ensures
        spec_decode(d, a + b) == spec_decode(d, a),
{
    let ab = a + b;
    assert(spec_is_front(a, ab));
    lemma_find_crlf(a, 0);
    match d {
        Decoder::Chunked(ChunkPhase::Size) => {
            lemma_find_crlf_front(a, ab, 0);
            let e = spec_find_crlf(a, 0).unwrap();
            assert(ab.take(e) =~= a.take(e));
        },
        Decoder::Chunked(ChunkPhase::Trailer) => {
            lemma_find_crlf_front(a, ab, 0);
            let e = spec_find_crlf(a, 0).unwrap();
            assert(ab.take(e) =~= a.take(e));
        },
        Decoder::Chunked(ChunkPhase::Data(rem)) => {
            if a.len() >= 1 {
                assert(ab[0] == a[0]);
            }
            if a.len() >= 2 {
                assert(ab[1] == a[1]);
            }
        },
        _ => {
            assert(a.take(0) =~= ab.take(0));
        },
    }
}

/// A step that takes body bytes may as well take fewer of them and leave the
/// rest to the steps that follow.
proof fn lemma_data_step_splits(d: Decoder, x: Seq<u8>, k: int)
    requires
        spec_takes_data(d),
        0 < k <= spec_room(d, x.len() as int),
    ensures
        spec_decode_all(d, x) == spec_after(
            k,
            x.take(k),
            spec_decode_all(spec_less(d, k), x.skip(k)),
        ),
{
    let k2 = spec_room(d, x.len() as int);
    let s = spec_decode(d, x).unwrap();
    assert(s.consumed == k2);
    assert(s.data =~= x.take(k2));
    assert(s.next == spec_less(d, k2));
    if k < k2 {
        let d1 = spec_less(d, k);
        let x1 = x.skip(k);
        let k3 = k2 - k;
        let s1 = spec_decode(d1, x1).unwrap();
        assert(spec_takes_data(d1));
        assert(s1.consumed == k3);
        assert(s1.data =~= x1.take(k3));
        assert(s1.next == spec_less(d, k2));
        assert(x1.skip(k3) =~= x.skip(k2));
        assert(x.take(k) + x1.take(k3) =~= x.take(k2));
        lemma_after_after(
            k,
            x.take(k),
            k3,
            x1.take(k3),
            spec_decode_all(spec_less(d, k2), x.skip(k2)),
        );
    }
}

/// Decoding what has arrived, and then going on when more arrives, gives
/// what decoding all of it at once gives: the same error, if what has
/// arrived is broken; else the bytes taken and yielded so far, then what the
/// decoder, from where it stopped, makes of the bytes it has left and of the
/// bytes that arrived since.
pub proof fn lemma_decode_resumes(d: Decoder, a: Seq<u8>, b: Seq<u8>)
    ensures
        match spec_decode_all(d, a) {
            Err(e) => spec_decode_all(d, a + b) == Err::<Step, Error>(e),
            Ok(s) => spec_decode_all(d, a + b) == spec_after(
                s.consumed,
                s.data,
                spec_decode_all(s.next, (a + b).skip(s.consumed)),
            ),
        },
    decreases a.len(),
{
    let ab = a + b;
    lemma_decode_step(d, a);
    match spec_decode(d, a) {
        Err(e) => {
            lemma_step_stands(d, a, b);
        },
        Ok(s) => {
            let c = s.consumed;
            if c == 0 {
                assert(ab.skip(0) =~= ab);
                lemma_after_nothing(spec_decode_all(d, ab));
            } else {
                let rest = spec_decode_all(s.next, ab.skip(c));
                if spec_takes_data(d) {
                    lemma_data_step_splits(d, ab, c);
                    assert(ab.take(c) =~= a.take(c));
                    assert(s.data =~= a.take(c));
                } else {
                    lemma_step_stands(d, a, b);
                }
                assert(spec_decode_all(d, ab) == spec_after(c, s.data, rest));
                assert(ab.skip(c) =~= a.skip(c) + b);
                lemma_decode_resumes(s.next, a.skip(c), b);
                match spec_decode_all(s.next, a.skip(c)) {
                    Err(e) => {},
                    Ok(t) => {
                        lemma_decode_all_bounds(s.next, a.skip(c));
                        assert((a.skip(c) + b).skip(t.consumed) =~= ab.skip(c + t.consumed));
                        lemma_after_after(
                            c,
                            s.data,
                            t.consumed,
                            t.data,
                            spec_decode_all(t.next, ab.skip(c + t.consumed)),
                        );
                    },
                }
            }
        },
    }
}

} // verus!
