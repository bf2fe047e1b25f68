//! The two ends of a connection agree on where a body ends: the headers that
//! the writing side sends make the reading side pick the decoder that matches
//! the encoder.

use vstd::prelude::*;
use crate::error::Error;
use crate::header::fields::{
    lemma_lacks_values, lemma_list_short, lemma_without_lacks, spec_chunked_token, spec_close_token,
    spec_connection_name, spec_content_length_name, spec_is_chunked, spec_keep_alive_token,
    spec_list_has, spec_list_last, spec_transfer_encoding_name, spec_values, COMMA,
};
use crate::header::{spec_without, Lines};
use crate::http::h1::decode::{ChunkPhase, Decoder};
use crate::http::h1::encode::Encoder;
use crate::http::h1::role::{spec_body_framing, spec_length_decoder};
use crate::http::spec_should_keep_alive;
use crate::text::{spec_eq_ignore_case, spec_is_ows, spec_rfind_byte};
use crate::version::HttpVersion;

verus! {

/// Removing the lines of one name leaves the values of a name of another
/// length as they were.
proof fn lemma_values_without(h: Lines, other: Seq<u8>, name: Seq<u8>)
    requires
        other.len() != name.len(),
    ensures
        spec_values(spec_without(h, other), name) == spec_values(h, name),
    decreases h.len(),
{
    if h.len() > 0 {
        lemma_values_without(h.drop_last(), other, name);
        if !spec_eq_ignore_case(h.last().0, other) {
            let g = spec_without(h.drop_last(), other).push(h.last());
            assert(g.drop_last() =~= spec_without(h.drop_last(), other));
            assert(g.last() == h.last());
        }
    }
}

/// A byte string that does not hold a byte has no last place of it.
proof fn lemma_rfind_none(s: Seq<u8>, b: u8, to: int)
    requires
        0 <= to <= s.len(),
        forall|j: int| 0 <= j < to ==> s[j] != b,
    ensures
        spec_rfind_byte(s, b, to) == -1,
    decreases to,
{
    if to > 0 {
        lemma_rfind_none(s, b, to - 1);
    }
}

/// The token `chunked`, standing alone as a value, is its own last coding.
proof fn lemma_chunked_alone()
    ensures
        spec_list_last(spec_chunked_token()) == spec_chunked_token(),
{
    let t = spec_chunked_token();
    assert(t.len() == 7);
    assert(t[0] == 'c' as u8 && t[1] == 'h' as u8 && t[2] == 'u' as u8 && t[3] == 'n' as u8 && t[4]
        == 'k' as u8 && t[5] == 'e' as u8 && t[6] == 'd' as u8);
    lemma_rfind_none(t, COMMA, 7);
    assert(t.subrange(0, 7) =~= t);
    assert(!spec_is_ows(t[0]));
    assert(!spec_is_ows(t.last()));
}

/// Where the encoder for a body is `Fixed`, the headers that go out make the
/// peer pick a decoder for a body of the same length: `Fixed` with that
/// length, or `Zero` where the length is zero.
pub proof fn lemma_fixed_agreement(version: HttpVersion, h: Lines, fallback: Decoder)
    requires
        spec_body_framing(version, h).0 is Fixed,
    ensures
        ({
            let n = spec_body_framing(version, h).0->Fixed_0;
            spec_length_decoder(spec_body_framing(version, h).1, fallback) == Ok::<Decoder, Error>(
                if n == 0 {
                    Decoder::Zero
                } else {
                    Decoder::Fixed(n)
                },
            )
        }),
{
    reveal(spec_body_framing);
    reveal(spec_length_decoder);
    let te = spec_transfer_encoding_name();
    let cl = spec_content_length_name();
    lemma_without_lacks(h, te, te);
    lemma_lacks_values(spec_without(h, te), te);
    lemma_values_without(h, te, cl);
}

/// Where the encoder for a body is `Chunked`, the headers that go out make
/// the peer pick a chunked decoder, at the start of the first chunk.
pub proof fn lemma_chunked_agreement(version: HttpVersion, h: Lines, fallback: Decoder)
    requires
        spec_body_framing(version, h).0 is Chunked,
    ensures
        spec_body_framing(version, h).0 == Encoder::Chunked(false),
        spec_length_decoder(spec_body_framing(version, h).1, fallback) == Ok::<Decoder, Error>(
            Decoder::Chunked(ChunkPhase::Size),
        ),
{
    reveal(spec_body_framing);
    reveal(spec_length_decoder);
    let te = spec_transfer_encoding_name();
    let cl = spec_content_length_name();
    let g = spec_without(h, cl);
    let out = spec_body_framing(version, h).1;
    lemma_without_lacks(h, cl, cl);
    if spec_is_chunked(g) {
        lemma_lacks_values(g, cl);
    } else {
        lemma_chunked_alone();
        assert(out.last() == (te, spec_chunked_token()));
        assert(spec_eq_ignore_case(te, te));
        assert(spec_eq_ignore_case(spec_chunked_token(), spec_chunked_token()));
        assert forall|i: int| 0 <= i < out.len() implies !spec_eq_ignore_case(
            #[trigger] out[i].0,
            cl,
        ) by {
            if i < g.len() {
                assert(out[i] == g[i]);
            }
        }
        lemma_lacks_values(out, cl);
    }
}

/// Where the encoder for a body is `CloseDelimited`, the version is 1.0, the
/// headers that go out forbid the use of the connection for another message,
/// whatever the caller's headers said, and a peer that reads them as the
/// head of a response picks a close-delimited decoder.
pub proof fn lemma_close_delimited_closes(version: HttpVersion, h: Lines)
    requires
        spec_body_framing(version, h).0 is CloseDelimited,
    ensures
        version == HttpVersion::Http10,
        !spec_should_keep_alive(version, spec_body_framing(version, h).1),
        spec_length_decoder(spec_body_framing(version, h).1, Decoder::CloseDelimited) == Ok::<
            Decoder,
            Error,
        >(Decoder::CloseDelimited),
{
    reveal(spec_body_framing);
    reveal(spec_length_decoder);
    let te = spec_transfer_encoding_name();
    let cl = spec_content_length_name();
    let conn = spec_connection_name();
    let g = spec_without(h, cl);
    let g2 = spec_without(g, te);
    let w = spec_without(g2, conn);
    let out = spec_body_framing(version, h).1;
    assert(out == w.push((conn, spec_close_token())));
    lemma_without_lacks(h, cl, cl);
    lemma_without_lacks(g, te, cl);
    lemma_without_lacks(g2, conn, cl);
    lemma_without_lacks(g, te, te);
    lemma_without_lacks(g2, conn, te);
    lemma_without_lacks(g2, conn, conn);
    lemma_list_short(spec_close_token(), spec_keep_alive_token(), 0);
    assert forall|i: int| 0 <= i < out.len() implies !(spec_eq_ignore_case(
        #[trigger] out[i].0,
        conn,
    ) && spec_list_has(out[i].1, spec_keep_alive_token())) by {
        if i < w.len() {
            assert(out[i] == w[i]);
        }
    }
    assert forall|i: int| 0 <= i < out.len() implies !spec_eq_ignore_case(
        #[trigger] out[i].0,
        te,
    ) by {
        if i < w.len() {
            assert(out[i] == w[i]);
        }
    }
    assert forall|i: int| 0 <= i < out.len() implies !spec_eq_ignore_case(
        #[trigger] out[i].0,
        cl,
    ) by {
        if i < w.len() {
            assert(out[i] == w[i]);
        }
    }
    lemma_lacks_values(out, te);
    lemma_lacks_values(out, cl);
}

} // verus!
