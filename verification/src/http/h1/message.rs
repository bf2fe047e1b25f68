//! A whole message, from one end of a connection to the other: what one side
//! writes, head and body, the other side reads back, and it knows where the
//! message ends.

use vstd::prelude::*;
use crate::error::Error;
use crate::header::Lines;
use crate::http::h1::agreement::{lemma_chunked_agreement, lemma_fixed_agreement};
use crate::http::h1::decode::{spec_decode_all, spec_is_done, ChunkPhase, Decoder, Step};
use crate::http::h1::encode::Encoder;
use crate::http::h1::parse::{
    spec_parse_request, spec_parse_response, HeadView, MAX_HEADERS, MAX_HEAD_SIZE,
};
use crate::http::h1::role::{
    spec_request_decoder, spec_request_framing, spec_request_head_bytes, spec_response_decoder,
    spec_response_framing, spec_response_head_bytes,
};
use crate::http::h1::plain::{lemma_framing_keeps_plain, spec_lines_are_plain};
use crate::http::h1::round_trip::{
    lemma_chunked_round_trip, lemma_fixed_round_trip, spec_concat, spec_encode_all,
};
use crate::http::h1::wire::{lemma_request_head_round_trip, lemma_response_head_round_trip};
use crate::status::StatusCode;
use crate::text::{spec_all_tchar, spec_all_visible};
use crate::version::HttpVersion;

verus! {

/// What is read back of a message that was written: the head that the
/// parser finds and its length, the decoder that the head asks for, and what
/// that decoder makes of the bytes after the head.
pub struct Received<S> {
    /// What the parser gives.
    pub head: Result<Option<(HeadView<S>, int)>, Error>,
    /// The decoder that is picked for the body.
    pub decoder: Result<Decoder, Error>,
    /// What the decoder reads from the bytes after the head.
    pub body: Result<Step, Error>,
}

/// A request on the wire, read by a server: `head_len` bytes of head, then
/// the rest.
pub open spec fn spec_receive_request(wire: Seq<u8>) -> Received<(Seq<u8>, Seq<u8>)> {
    let head = spec_parse_request(wire);
    let view = head.unwrap().unwrap();
    let decoder = spec_request_decoder(view.0.headers);
    Received { head, decoder, body: spec_decode_all(decoder.unwrap(), wire.skip(view.1)) }
}

/// A response on the wire, read by a client that has the method of its
/// request in the slot.
pub open spec fn spec_receive_response(wire: Seq<u8>, method: Option<Seq<u8>>) -> Received<
    StatusCode,
> {
    let head = spec_parse_response(wire);
    let view = head.unwrap().unwrap();
    let decoder = spec_response_decoder(view.0.subject, view.0.headers, method);
    Received { head, decoder, body: spec_decode_all(decoder.unwrap(), wire.skip(view.1)) }
}

/// A response with a body of a declared length goes from the server to the
/// client whole. The server has a body for it and frames it with `Fixed`;
/// it writes the head and then the body, part by part, each part non-empty,
/// as many bytes in all as were declared. The client, whatever follows on the
/// wire, reads back the head as it went out, picks a decoder for a body of
/// that length, reads exactly the bytes of the body, and is done.
#[verifier::rlimit(40)]
pub proof fn lemma_fixed_response_round_trip(
    status: StatusCode,
    version: HttpVersion,
    h: Lines,
    method: Option<Seq<u8>>,
    parts: Seq<Seq<u8>>,
    more: Seq<u8>,
)
    requires
        status.spec_valid(),
        spec_lines_are_plain(h),
        h.len() < MAX_HEADERS,
        forall|i: int| 0 <= i < parts.len() ==> (#[trigger] parts[i]).len() > 0,
        spec_response_framing(version, status, h, true, method).0 == Encoder::Fixed(
            spec_concat(parts).len() as u64,
        ),
        spec_concat(parts).len() <= u64::MAX,
        spec_response_head_bytes(
            status,
            version,
            spec_response_framing(version, status, h, true, method).1,
        ).len() <= MAX_HEAD_SIZE,
    ensures
        ({
            let framing = spec_response_framing(version, status, h, true, method);
            let head = spec_response_head_bytes(status, version, framing.1);
            let body = spec_encode_all(framing.0, parts);
            let got = spec_receive_response(head + body.unwrap().wire + more, method);
            &&& body matches Ok(w) && w.wire == spec_concat(parts)
            &&& got.head == Ok::<Option<(HeadView<StatusCode>, int)>, Error>(
                Some((HeadView { version, subject: status, headers: framing.1 }, head.len() as int)),
            )
            &&& got.decoder is Ok
            &&& got.body matches Ok(step) && {
                &&& step.consumed == spec_concat(parts).len()
                &&& step.data == spec_concat(parts)
                &&& spec_is_done(step.next)
            }
        }),
{
    let framing = spec_response_framing(version, status, h, true, method);
    let head = spec_response_head_bytes(status, version, framing.1);
    let body = spec_concat(parts);
    let wire = head + body + more;
    lemma_framing_keeps_plain(version, h);
    lemma_fixed_round_trip(parts, more);
    lemma_response_head_round_trip(status, version, framing.1, body + more);
    assert(wire =~= head + (body + more));
    assert(wire.skip(head.len() as int) =~= body + more);
    lemma_fixed_agreement(version, h, Decoder::CloseDelimited);
    if body.len() == 0 {
        assert(body =~= Seq::<u8>::empty());
    }
}

/// A request with a body of a declared length goes from the client to the
/// server whole. The client frames it with `Fixed`; it writes the head and
/// then the body, part by part, each part non-empty, as many bytes in all as
/// were declared. The server, whatever follows on the wire, reads back the
/// head as it went out, picks a decoder for a body of that length, reads
/// exactly the bytes of the body, and is done.
#[verifier::rlimit(40)]
pub proof fn lemma_fixed_request_round_trip(
    subject: (Seq<u8>, Seq<u8>),
    version: HttpVersion,
    h: Lines,
    parts: Seq<Seq<u8>>,
    more: Seq<u8>,
)
    requires
        subject.0.len() > 0,
        spec_all_tchar(subject.0),
        subject.1.len() > 0,
        spec_all_visible(subject.1),
        spec_lines_are_plain(h),
        h.len() < MAX_HEADERS,
        forall|i: int| 0 <= i < parts.len() ==> (#[trigger] parts[i]).len() > 0,
        spec_request_framing(version, h, true).0 == Encoder::Fixed(spec_concat(parts).len() as u64),
        spec_concat(parts).len() <= u64::MAX,
        spec_request_head_bytes(subject, version, spec_request_framing(version, h, true).1).len()
            <= MAX_HEAD_SIZE,
    ensures
        ({
            let framing = spec_request_framing(version, h, true);
            let head = spec_request_head_bytes(subject, version, framing.1);
            let body = spec_encode_all(framing.0, parts);
            let got = spec_receive_request(head + body.unwrap().wire + more);
            &&& body matches Ok(w) && w.wire == spec_concat(parts)
            &&& got.head == Ok::<Option<(HeadView<(Seq<u8>, Seq<u8>)>, int)>, Error>(
                Some((HeadView { version, subject, headers: framing.1 }, head.len() as int)),
            )
            &&& got.decoder is Ok
            &&& got.body matches Ok(step) && {
                &&& step.consumed == spec_concat(parts).len()
                &&& step.data == spec_concat(parts)
                &&& spec_is_done(step.next)
            }
        }),
{
    let framing = spec_request_framing(version, h, true);
    let head = spec_request_head_bytes(subject, version, framing.1);
    let body = spec_concat(parts);
    let wire = head + body + more;
    lemma_framing_keeps_plain(version, h);
    lemma_fixed_round_trip(parts, more);
    lemma_request_head_round_trip(subject, version, framing.1, body + more);
    assert(wire =~= head + (body + more));
    assert(wire.skip(head.len() as int) =~= body + more);
    lemma_fixed_agreement(version, h, Decoder::Zero);
    if body.len() == 0 {
        assert(body =~= Seq::<u8>::empty());
    }
}

/// A response with a chunked body goes from the server to the client whole.
/// The server has a body for it and frames it with `Chunked`; it writes the
/// head, then the body, part by part, each part non-empty, and then the end.
/// The client, whatever follows on the wire, reads back the head as it went
/// out, picks a chunked decoder, reads the parts in order, takes exactly the
/// bytes that were written, the last chunk among them, and is done.
#[verifier::rlimit(40)]
pub proof fn lemma_chunked_response_round_trip(
    status: StatusCode,
    version: HttpVersion,
    h: Lines,
    method: Option<Seq<u8>>,
    parts: Seq<Seq<u8>>,
    more: Seq<u8>,
)
    requires
        status.spec_valid(),
        spec_lines_are_plain(h),
        h.len() < MAX_HEADERS,
        forall|i: int| 0 <= i < parts.len() ==> 0 < (#[trigger] parts[i]).len() <= u64::MAX,
        spec_response_framing(version, status, h, true, method).0 is Chunked,
        spec_response_head_bytes(
            status,
            version,
            spec_response_framing(version, status, h, true, method).1,
        ).len() <= MAX_HEAD_SIZE,
    ensures
        ({
            let framing = spec_response_framing(version, status, h, true, method);
            let head = spec_response_head_bytes(status, version, framing.1);
            let body = spec_encode_all(framing.0, parts);
            let got = spec_receive_response(head + body.unwrap().wire + more, method);
            &&& body matches Ok(w) && w.next == Encoder::Chunked(true)
            &&& got.head == Ok::<Option<(HeadView<StatusCode>, int)>, Error>(
                Some((HeadView { version, subject: status, headers: framing.1 }, head.len() as int)),
            )
            &&& got.decoder == Ok::<Decoder, Error>(Decoder::Chunked(ChunkPhase::Size))
            &&& got.body == Ok::<Step, Error>(
                Step {
                    next: Decoder::Chunked(ChunkPhase::Done),
                    consumed: body.unwrap().wire.len() as int,
                    data: spec_concat(parts),
                },
            )
        }),
{
    let framing = spec_response_framing(version, status, h, true, method);
    let head = spec_response_head_bytes(status, version, framing.1);
    lemma_framing_keeps_plain(version, h);
    lemma_chunked_round_trip(parts, more);
    let body = spec_encode_all(Encoder::Chunked(false), parts).unwrap().wire;
    let wire = head + body + more;
    lemma_response_head_round_trip(status, version, framing.1, body + more);
    assert(wire =~= head + (body + more));
    assert(wire.skip(head.len() as int) =~= body + more);
    lemma_chunked_agreement(version, h, Decoder::CloseDelimited);
}

/// A request with a chunked body goes from the client to the server whole.
/// The client frames it with `Chunked`; it writes the head, then the body,
/// part by part, each part non-empty, and then the end. The server, whatever
/// follows on the wire, reads back the head as it went out, picks a chunked
/// decoder, reads the parts in order, takes exactly the bytes that were
/// written, the last chunk among them, and is done.
#[verifier::rlimit(40)]
pub proof fn lemma_chunked_request_round_trip(
    subject: (Seq<u8>, Seq<u8>),
    version: HttpVersion,
    h: Lines,
    parts: Seq<Seq<u8>>,
    more: Seq<u8>,
)
    requires
        subject.0.len() > 0,
        spec_all_tchar(subject.0),
        subject.1.len() > 0,
        spec_all_visible(subject.1),
        spec_lines_are_plain(h),
        h.len() < MAX_HEADERS,
        forall|i: int| 0 <= i < parts.len() ==> 0 < (#[trigger] parts[i]).len() <= u64::MAX,
        spec_request_framing(version, h, true).0 is Chunked,
        spec_request_head_bytes(subject, version, spec_request_framing(version, h, true).1).len()
            <= MAX_HEAD_SIZE,
    ensures
        ({
            let framing = spec_request_framing(version, h, true);
            let head = spec_request_head_bytes(subject, version, framing.1);
            let body = spec_encode_all(framing.0, parts);
            let got = spec_receive_request(head + body.unwrap().wire + more);
            &&& body matches Ok(w) && w.next == Encoder::Chunked(true)
            &&& got.head == Ok::<Option<(HeadView<(Seq<u8>, Seq<u8>)>, int)>, Error>(
                Some((HeadView { version, subject, headers: framing.1 }, head.len() as int)),
            )
            &&& got.decoder == Ok::<Decoder, Error>(Decoder::Chunked(ChunkPhase::Size))
            &&& got.body == Ok::<Step, Error>(
                Step {
                    next: Decoder::Chunked(ChunkPhase::Done),
                    consumed: body.unwrap().wire.len() as int,
                    data: spec_concat(parts),
                },
            )
        }),
{
    let framing = spec_request_framing(version, h, true);
    let head = spec_request_head_bytes(subject, version, framing.1);
    lemma_framing_keeps_plain(version, h);
    lemma_chunked_round_trip(parts, more);
    let body = spec_encode_all(Encoder::Chunked(false), parts).unwrap().wire;
    let wire = head + body + more;
    lemma_request_head_round_trip(subject, version, framing.1, body + more);
    assert(wire =~= head + (body + more));
    assert(wire.skip(head.len() as int) =~= body + more);
    lemma_chunked_agreement(version, h, Decoder::Zero);
}

} // verus!
