//! The head of a message and the two decisions that are read off it: whether
//! the connection may be used again, and whether the peer waits for
//! `100 Continue`.

use vstd::prelude::*;
use bytes::BytesMut;
use crate::error::Error;
use crate::header::fields::{
    close_token, connection_name, expects_continue, has_token, keep_alive_token,
    lemma_connection_set, lemma_expect_set, spec_close_token, spec_connection_name,
    spec_continue_token, spec_expect_name, spec_expects_continue, spec_has_token,
    spec_keep_alive_token, Connection,
};
use crate::header::{spec_has, spec_without, Header, Headers, Lines};
use crate::http::buf::buffered;
use crate::method::Method;
use crate::version::HttpVersion;

pub use self::h1::decode::{ChunkPhase, Decoded, Decoder};
pub use self::h1::encode::Encoder;
pub use self::h1::role::{ClientTransaction, ServerTransaction};
pub use self::request::{RequestHead, RequestLine};
pub use self::response::ResponseHead;

pub mod buf;
pub mod h1;
pub mod request;
pub mod response;

verus! {

/// The head of a message: the version, the subject, and the headers. The
/// subject is the request line of a request and the status code of a response.
#[derive(Debug)]
pub struct MessageHead<S> {
    /// The protocol version of the message.
    pub version: HttpVersion,
    /// The request line or the status code.
    pub subject: S,
    /// The headers of the message.
    pub headers: Headers,
}

impl<S> MessageHead<S> {
    /// Makes a head with the given version and subject and no header.
    pub fn new(version: HttpVersion, subject: S) -> (r: MessageHead<S>)
        ensures
            r.version == version,
            r.subject == subject,
            r.headers@ == Seq::<(Seq<u8>, Seq<u8>)>::empty(),
    {
        MessageHead { version, subject, headers: Headers::new() }
    }
}

/// Whether a connection may be used again after a message of this version
/// with these headers.
///
/// | version | `Connection` header | result |
/// |---|---|---|
/// | 1.0 | absent | no |
/// | 1.0 | present, does not list `keep-alive` | no |
/// | 1.1 | present, lists `close` | no |
/// | anything else | | yes |
pub open spec fn spec_should_keep_alive(version: HttpVersion, h: Lines) -> bool {
    let present = spec_has(h, spec_connection_name());
    let keep_alive = spec_has_token(h, spec_connection_name(), spec_keep_alive_token());
    let close = spec_has_token(h, spec_connection_name(), spec_close_token());
    if version == HttpVersion::Http10 && !present {
        false
    } else if version == HttpVersion::Http10 && present && !keep_alive {
        false
    } else if version == HttpVersion::Http11 && present && close {
        false
    } else {
        true
    }
}

/// Whether the sender of a message of this version with these headers waits
/// for `100 Continue` before it sends the body: the version is 1.1 and the
/// `Expect` header is `100-continue`.
pub open spec fn spec_expecting_continue(version: HttpVersion, h: Lines) -> bool {
    version == HttpVersion::Http11 && spec_expects_continue(h)
}

/// Checks if a connection should be kept alive.
pub fn should_keep_alive<S>(head: &MessageHead<S>) -> (r: bool)
    ensures
        r == spec_should_keep_alive(head.version, head.headers@),
{
    let name = connection_name();
    match head.version {
        HttpVersion::Http10 => {
            let keep_alive = keep_alive_token();
            has_token(&head.headers, &name, &keep_alive)
        },
        HttpVersion::Http11 => {
            let close = close_token();
            !has_token(&head.headers, &name, &close)
        },
    }
}

/// Checks if a connection is expecting a `100 Continue` before sending its body.
pub fn expecting_continue<S>(head: &MessageHead<S>) -> (r: bool)
    ensures
        r == spec_expecting_continue(head.version, head.headers@),
{
    match head.version {
        HttpVersion::Http11 => expects_continue(&head.headers),
        HttpVersion::Http10 => false,
    }
}

/// What one side of an exchange does: it reads the heads of the messages
/// that come in, picks the decoder for their bodies, and writes the heads of
/// the messages that go out, picking the encoder for theirs.
pub trait Http1Transaction {
    /// The subject of the messages that come in.
    type Incoming;

    /// The subject of the messages that go out.
    type Outgoing: Default;

    /// Reads one head from the front of the buffer, which is left as it is.
    fn parse(bytes: &mut BytesMut) -> (r: Result<Option<(MessageHead<Self::Incoming>, usize)>, Error>)
        ensures
            buffered(*final(bytes)) == buffered(*old(bytes)),
            r matches Ok(Some((_, n))) ==> 0 < n <= buffered(*old(bytes)).len(),
    ;

    /// Picks the decoder for the body that follows a head.
    fn decoder(head: &MessageHead<Self::Incoming>, method: &mut Option<Method>) -> (r: Result<
        Decoder,
        Error,
    >)
    ;

    /// Appends a head to `dst` and picks the encoder for the body that
    /// follows it.
    fn encode(
        head: MessageHead<Self::Outgoing>,
        has_body: bool,
        method: &mut Option<Method>,
        dst: &mut Vec<u8>,
    ) -> (r: Encoder)
        ensures
            old(dst)@.is_prefix_of(final(dst)@),
    ;
}

/// Once the `Connection` header of a head is set, it decides alone whether
/// the connection is kept: `keep-alive` keeps it and `close` does not, under
/// either version and whatever the head held before.
pub proof fn lemma_connection_decides(version: HttpVersion, h: Lines, c: Connection)
    ensures
        spec_should_keep_alive(
            version,
            spec_without(h, c.spec_name()).push((c.spec_name(), c.spec_value())),
        ) == (c == Connection::KeepAlive),
{
    lemma_connection_set(h, c);
}

/// Once the `Expect` header of a head is set to `100-continue`, the sender
/// waits for `100 Continue` under version 1.1, and under no other.
pub proof fn lemma_expect_decides(version: HttpVersion, h: Lines)
    ensures
        spec_expecting_continue(
            version,
            spec_without(h, spec_expect_name()).push((spec_expect_name(), spec_continue_token())),
        ) == (version == HttpVersion::Http11),
{
    lemma_expect_set(h);
}

/// A message of version 1.0 never makes its sender wait for `100 Continue`,
/// whatever its `Expect` header says.
pub proof fn lemma_no_continue_in_http10(h: Lines)
    ensures
        !spec_expecting_continue(HttpVersion::Http10, h),
{
}

} // verus!
