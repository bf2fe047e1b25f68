//! The read buffer of a connection, as the parser sees it.

use vstd::prelude::*;
use bytes::BytesMut;

verus! {

/// `bytes::BytesMut`, declared so that it can stand in signatures. Nothing
/// is known of what is inside it but what `buffered` names.
#[verifier::external_type_specification]
#[verifier::external_body]
pub struct ExBytesMut(BytesMut);

/// The bytes that a buffer holds, in order: what `BytesMut::as_ref` shows.
pub uninterp spec fn buffered(buf: BytesMut) -> Seq<u8>;

/// `BytesMut::as_ref`: the slice that it gives holds the bytes of the
/// buffer, all of them and in order. This is taken from the source of
/// `bytes`, not proved.
#[verifier::external_body]
pub(crate) fn buffer_bytes(buf: &BytesMut) -> (r: &[u8])
    ensures
        r@ == buffered(*buf),
{
    buf.as_ref()
}

} // verus!
