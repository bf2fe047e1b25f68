//! The two sides of an exchange. A server reads requests and writes
//! responses; a client writes requests and reads responses. Each side picks
//! the decoder for what it reads and the encoder for what it writes, and the
//! method of the request is handed from one to the other in a slot that the
//! connection owns.

use vstd::prelude::*;
use bytes::BytesMut;
use crate::error::Error;
use crate::header::fields::{
    chunked_token, close_token, connection_name, content_length, content_length_name,
    is_chunked, spec_chunked_token, spec_close_token, spec_connection_name,
    spec_content_length, spec_content_length_name, spec_is_chunked,
    spec_transfer_encoding_name, transfer_encoding_name,
};
use crate::header::{spec_has, spec_lines_bytes, spec_without, Headers, Lines};
use crate::http::buf::{buffer_bytes, buffered};
use crate::http::h1::decode::{ChunkPhase, Decoder};
use crate::http::h1::encode::Encoder;
use crate::http::h1::parse::{
    parse_request, parse_response, spec_parse_request, spec_parse_response,
};
use crate::http::request::RequestLine;
use crate::http::{Http1Transaction, MessageHead};
use crate::method::{spec_connect, spec_head, Method};
use crate::status::{spec_status_forbids_body, StatusCode};
use crate::text::{CR, LF, SP};
use crate::version::HttpVersion;

verus! {

/// The token of the method in the slot, if there is one.
pub open spec fn spec_method_token(slot: Option<Method>) -> Option<Seq<u8>> {
    match slot {
        Some(m) => Some(m@),
        None => None,
    }
}

/// Whether a response never has a body, whatever its headers say: it answers
/// a `HEAD` request, or it answers a `CONNECT` request with a 2xx status, or
/// its status is 1xx, 204 or 304.
pub open spec fn spec_bodiless(method: Option<Seq<u8>>, status: StatusCode) -> bool {
    ||| method == Some(spec_head())
    ||| (method == Some(spec_connect()) && 200 <= status.0 && status.0 < 300)
    ||| spec_status_forbids_body(status.0)
}

/// The decoder that the length headers of a head ask for.
///
/// A `Transfer-Encoding` whose final coding is `chunked` asks for a chunked
/// decoder, and is refused with `Error::Framing` where a `Content-Length`
/// stands beside it. Else a `Content-Length` asks for a decoder of that
/// length, or for none where the length is zero, and is refused where its
/// lines are malformed or differ. Else the decoder is `fallback`.
#[verifier::opaque]
pub open spec fn spec_length_decoder(h: Lines, fallback: Decoder) -> Result<Decoder, Error> {
    if spec_is_chunked(h) {
        if spec_has(h, spec_content_length_name()) {
            Err(Error::Framing)
        } else {
            Ok(Decoder::Chunked(ChunkPhase::Size))
        }
    } else {
        match spec_content_length(h) {
            Err(e) => Err(e),
            Ok(Some(n)) => Ok(
                if n == 0 {
                    Decoder::Zero
                } else {
                    Decoder::Fixed(n)
                },
            ),
            Ok(None) => Ok(fallback),
        }
    }
}

/// The decoder for the body of a request with these headers. A request
/// without a length header has no body.
pub open spec fn spec_request_decoder(h: Lines) -> Result<Decoder, Error> {
    spec_length_decoder(h, Decoder::Zero)
}

/// The decoder for the body of a response with this status and these
/// headers, to a request of the method in the slot. A response without a
/// length header has a body that ends with the connection.
pub open spec fn spec_response_decoder(status: StatusCode, h: Lines, method: Option<Seq<u8>>)
    -> Result<Decoder, Error> {
    if spec_bodiless(method, status) {
        Ok(Decoder::Zero)
    } else {
        spec_length_decoder(h, Decoder::CloseDelimited)
    }
}

/// The encoder for a message that has a body, and the headers that go out
/// with it.
///
/// - A `Content-Length` that declares a length gives `Fixed` with that
///   length; a `Transfer-Encoding` beside it is dropped.
/// - Else, under version 1.1, the encoder is `Chunked`, and the headers gain
///   `Transfer-Encoding: chunked` unless their final coding is `chunked`
///   already.
/// - Else, under version 1.0, the encoder is `CloseDelimited`, a
///   `Transfer-Encoding` is dropped, and the `Connection` header becomes
///   `close`.
///
/// `Content-Length` lines that declare no length, because they are malformed
/// or differ, are dropped.
#[verifier::opaque]
pub open spec fn spec_body_framing(version: HttpVersion, h: Lines) -> (Encoder, Lines) {
    match spec_content_length(h) {
        Ok(Some(n)) => (Encoder::Fixed(n), spec_without(h, spec_transfer_encoding_name())),
        _ => {
            let g = spec_without(h, spec_content_length_name());
            if version == HttpVersion::Http11 {
                (
                    Encoder::Chunked(false),
                    if spec_is_chunked(g) {
                        g
                    } else {
                        g.push((spec_transfer_encoding_name(), spec_chunked_token()))
                    },
                )
            } else {
                (
                    Encoder::CloseDelimited,
                    spec_without(
                        spec_without(g, spec_transfer_encoding_name()),
                        spec_connection_name(),
                    ).push((spec_connection_name(), spec_close_token())),
                )
            }
        },
    }
}

/// The encoder for a request, and the headers that go out with it. A request
/// without a body goes out without a length header.
pub open spec fn spec_request_framing(version: HttpVersion, h: Lines, has_body: bool) -> (
    Encoder,
    Lines,
) {
    if has_body {
        spec_body_framing(version, h)
    } else {
        (
            Encoder::Zero,
            spec_without(
                spec_without(h, spec_transfer_encoding_name()),
                spec_content_length_name(),
            ),
        )
    }
}

/// The encoder for a response to a request of the method in the slot, and
/// the headers that go out with it. A response for which the caller has no
/// body, or which never has one, goes out without a length header; only a
/// response to `HEAD` keeps its `Content-Length`.
pub open spec fn spec_response_framing(
    version: HttpVersion,
    status: StatusCode,
    h: Lines,
    has_body: bool,
    method: Option<Seq<u8>>,
) -> (Encoder, Lines) {
    if has_body && !spec_bodiless(method, status) {
        spec_body_framing(version, h)
    } else if method == Some(spec_head()) {
        (Encoder::Zero, spec_without(h, spec_transfer_encoding_name()))
    } else {
        (
            Encoder::Zero,
            spec_without(
                spec_without(h, spec_transfer_encoding_name()),
                spec_content_length_name(),
            ),
        )
    }
}

/// The head of a request on the wire: the request line, the header lines,
/// and an empty line.
pub open spec fn spec_request_head_bytes(subject: (Seq<u8>, Seq<u8>), version: HttpVersion, h: Lines)
    -> Seq<u8> {
    RequestLine::spec_bytes(subject).push(SP) + version.spec_bytes() + seq![CR, LF]
        + spec_lines_bytes(h) + seq![CR, LF]
}

/// The head of a response on the wire: the status line, the header lines,
/// and an empty line.
pub open spec fn spec_response_head_bytes(status: StatusCode, version: HttpVersion, h: Lines)
    -> Seq<u8> {
    version.spec_bytes().push(SP) + status.spec_bytes() + seq![CR, LF] + spec_lines_bytes(h)
        + seq![CR, LF]
}

/// Tells whether a response never has a body.
pub fn bodiless(method: &Option<Method>, status: StatusCode) -> (r: bool)
    ensures
        r == spec_bodiless(spec_method_token(*method), status),
{
    match method {
        Some(m) => {
            if m.is_head() {
                true
            } else if m.is_connect() && status.is_success() {
                true
            } else {
                status.forbids_body()
            }
        },
        None => status.forbids_body(),
    }
}

/// Picks the decoder that the length headers ask for.
pub fn length_decoder(headers: &Headers, fallback: Decoder) -> (r: Result<Decoder, Error>)
    ensures
        r == spec_length_decoder(headers@, fallback),
{
    proof {
        reveal(spec_length_decoder);
    }
    if is_chunked(headers) {
        let name = content_length_name();
        if headers.has_raw(&name) {
            Err(Error::Framing)
        } else {
            Ok(Decoder::Chunked(ChunkPhase::Size))
        }
    } else {
        match content_length(headers) {
            Err(e) => Err(e),
            Ok(Some(n)) => {
                if n == 0 {
                    Ok(Decoder::Zero)
                } else {
                    Ok(Decoder::Fixed(n))
                }
            },
            Ok(None) => Ok(fallback),
        }
    }
}

/// Settles how a message with a body is framed, and puts its headers in
/// line with that.
pub fn frame_body(version: HttpVersion, headers: &mut Headers) -> (r: Encoder)
    ensures
        (r, final(headers)@) == spec_body_framing(version, old(headers)@),
{
    proof {
        reveal(spec_body_framing);
    }
    let te = transfer_encoding_name();
    match content_length(headers) {
        Ok(Some(n)) => {
            headers.remove_raw(&te);
            Encoder::Fixed(n)
        },
        _ => {
            let cl = content_length_name();
            headers.remove_raw(&cl);
            match version {
                HttpVersion::Http11 => {
                    if !is_chunked(headers) {
                        let chunked = chunked_token();
                        headers.append_raw(&te, &chunked);
                    }
                    Encoder::Chunked(false)
                },
                HttpVersion::Http10 => {
                    let conn = connection_name();
                    let close = close_token();
                    headers.remove_raw(&te);
                    headers.set_raw(&conn, &close);
                    Encoder::CloseDelimited
                },
            }
        },
    }
}

/// Settles how a request is framed, and puts its headers in line with that.
pub fn frame_request(head: &mut MessageHead<RequestLine>, has_body: bool) -> (r: Encoder)
    ensures
        (r, final(head).headers@) == spec_request_framing(
            old(head).version,
            old(head).headers@,
            has_body,
        ),
        final(head).version == old(head).version,
        final(head).subject == old(head).subject,
{
    if has_body {
        frame_body(head.version, &mut head.headers)
    } else {
        let te = transfer_encoding_name();
        let cl = content_length_name();
        head.headers.remove_raw(&te);
        head.headers.remove_raw(&cl);
        Encoder::Zero
    }
}

/// Settles how a response to a request of the method in the slot is framed,
/// and puts its headers in line with that.
pub fn frame_response(
    head: &mut MessageHead<StatusCode>,
    has_body: bool,
    method: &Option<Method>,
) -> (r: Encoder)
    ensures
        (r, final(head).headers@) == spec_response_framing(
            old(head).version,
            old(head).subject,
            old(head).headers@,
            has_body,
            spec_method_token(*method),
        ),
        final(head).version == old(head).version,
        final(head).subject == old(head).subject,
{
    if has_body && !bodiless(method, head.subject) {
        frame_body(head.version, &mut head.headers)
    } else {
        let te = transfer_encoding_name();
        head.headers.remove_raw(&te);
        let answers_head = match method {
            Some(m) => m.is_head(),
            None => false,
        };
        if !answers_head {
            let cl = content_length_name();
            head.headers.remove_raw(&cl);
        }
        Encoder::Zero
    }
}

/// The side that reads requests and writes responses.
#[derive(Debug)]
pub enum ServerTransaction {
    /// The one value of the type; the role is chosen by the type alone.
    Server,
}

/// The side that writes requests and reads responses.
#[derive(Debug)]
pub enum ClientTransaction {
    /// The one value of the type; the role is chosen by the type alone.
    Client,
}

impl Http1Transaction for ServerTransaction {
    type Incoming = RequestLine;

    type Outgoing = StatusCode;

    /// Reads the head of a request from the front of the buffer. The buffer
    /// is left as it is: once a head and its length are handed back, the
    /// caller drops that many bytes; while the head is incomplete, the caller
    /// reads more into the buffer and calls again.
    fn parse(bytes: &mut BytesMut) -> (r: Result<Option<(MessageHead<RequestLine>, usize)>, Error>)
        ensures
            match spec_parse_request(buffered(*old(bytes))) {
                Ok(Some((view, n))) => {
                    &&& r matches Ok(Some((head, k)))
                    &&& head.version == view.version
                    &&& head.subject@ == view.subject
                    &&& head.headers@ == view.headers
                    &&& k == n
                    &&& 0 < k <= buffered(*old(bytes)).len()
                },
                Ok(None) => r matches Ok(None),
                Err(e) => r matches Err(x) && x == e,
            },
    {
        parse_request(buffer_bytes(bytes))
    }

    /// Picks the decoder for the body of a request, and puts the method of
    /// the request in the slot, where the encoder of the response finds it.
    fn decoder(head: &MessageHead<RequestLine>, method: &mut Option<Method>) -> (r: Result<
        Decoder,
        Error,
    >)
        ensures
            r == spec_request_decoder(head.headers@),
            spec_method_token(*final(method)) == Some(head.subject.method@),
    {
        *method = Some(head.subject.method.clone());
        length_decoder(&head.headers, Decoder::Zero)
    }

    /// Writes the head of a response and picks the encoder for its body. The
    /// slot is emptied, unless the response is an interim one, with a 1xx
    /// status, after which the response proper is still to come.
    fn encode(
        head: MessageHead<StatusCode>,
        has_body: bool,
        method: &mut Option<Method>,
        dst: &mut Vec<u8>,
    ) -> (r: Encoder)
        ensures
            ({
                let framing = spec_response_framing(
                    head.version,
                    head.subject,
                    head.headers@,
                    has_body,
                    spec_method_token(*old(method)),
                );
                &&& r == framing.0
                &&& final(dst)@ == old(dst)@ + spec_response_head_bytes(
                    head.subject,
                    head.version,
                    framing.1,
                )
            }),
            *final(method) == (if 100 <= head.subject.0 && head.subject.0 < 200 {
                *old(method)
            } else {
                None
            }),
    {
        let mut head = head;
        let encoder = frame_response(&mut head, has_body, method);
        let ghost start = dst@;
        head.version.write_to(dst);
        dst.push(SP);
        head.subject.write_to(dst);
        dst.push(CR);
        dst.push(LF);
        head.headers.write_to(dst);
        dst.push(CR);
        dst.push(LF);
        assert(dst@ =~= start + spec_response_head_bytes(head.subject, head.version, head.headers@));
        if !head.subject.is_informational() {
            *method = None;
        }
        encoder
    }
}

impl Http1Transaction for ClientTransaction {
    type Incoming = StatusCode;

    type Outgoing = RequestLine;

    /// Reads the head of a response from the front of the buffer. The buffer
    /// is left as it is: once a head and its length are handed back, the
    /// caller drops that many bytes; while the head is incomplete, the caller
    /// reads more into the buffer and calls again.
    fn parse(bytes: &mut BytesMut) -> (r: Result<Option<(MessageHead<StatusCode>, usize)>, Error>)
        ensures
            match spec_parse_response(buffered(*old(bytes))) {
                Ok(Some((view, n))) => {
                    &&& r matches Ok(Some((head, k)))
                    &&& head.version == view.version
                    &&& head.subject == view.subject
                    &&& head.headers@ == view.headers
                    &&& k == n
                    &&& 0 < k <= buffered(*old(bytes)).len()
                },
                Ok(None) => r matches Ok(None),
                Err(e) => r matches Err(x) && x == e,
            },
    {
        parse_response(buffer_bytes(bytes))
    }

    /// Picks the decoder for the body of a response to a request of the
    /// method in the slot. The slot is emptied, unless the response is an
    /// interim one, with a 1xx status, after which the response proper is
    /// still to come.
    fn decoder(head: &MessageHead<StatusCode>, method: &mut Option<Method>) -> (r: Result<
        Decoder,
        Error,
    >)
        ensures
            r == spec_response_decoder(
                head.subject,
                head.headers@,
                spec_method_token(*old(method)),
            ),
            *final(method) == (if 100 <= head.subject.0 && head.subject.0 < 200 {
                *old(method)
            } else {
                None
            }),
    {
        let r = if bodiless(method, head.subject) {
            Ok(Decoder::Zero)
        } else {
            length_decoder(&head.headers, Decoder::CloseDelimited)
        };
        if !head.subject.is_informational() {
            *method = None;
        }
        r
    }

    /// Writes the head of a request and picks the encoder for its body, and
    /// puts the method of the request in the slot, where the decoder of the
    /// response finds it.
    fn encode(
        head: MessageHead<RequestLine>,
        has_body: bool,
        method: &mut Option<Method>,
        dst: &mut Vec<u8>,
    ) -> (r: Encoder)
        ensures
            ({
                let framing = spec_request_framing(head.version, head.headers@, has_body);
                &&& r == framing.0
                &&& final(dst)@ == old(dst)@ + spec_request_head_bytes(
                    head.subject@,
                    head.version,
                    framing.1,
                )
            }),
            spec_method_token(*final(method)) == Some(head.subject.method@),
    {
        let mut head = head;
        *method = Some(head.subject.method.clone());
        let encoder = frame_request(&mut head, has_body);
        let ghost start = dst@;
        head.subject.write_to(dst);
        dst.push(SP);
        head.version.write_to(dst);
        dst.push(CR);
        dst.push(LF);
        head.headers.write_to(dst);
        dst.push(CR);
        dst.push(LF);
        assert(dst@ =~= start + spec_request_head_bytes(head.subject@, head.version, head.headers@));
        encoder
    }
}

} // verus!
