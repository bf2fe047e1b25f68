//! The protocol version of a message.

use vstd::prelude::*;
use crate::text::{eq_bytes, extend};

verus! {

/// The two versions of the protocol that this library frames.
#[derive(Clone, Copy, Debug, PartialEq, Eq, Structural)]
pub enum HttpVersion {
    /// `HTTP/1.0`
    Http10,
    /// `HTTP/1.1`
    Http11,
}

/// The bytes `HTTP/1.0`.
pub open spec fn spec_http10() -> Seq<u8> {
    seq!['H' as u8, 'T' as u8, 'T' as u8, 'P' as u8, '/' as u8, '1' as u8, '.' as u8, '0' as u8]
}

/// The bytes `HTTP/1.1`.
pub open spec fn spec_http11() -> Seq<u8> {
    seq!['H' as u8, 'T' as u8, 'T' as u8, 'P' as u8, '/' as u8, '1' as u8, '.' as u8, '1' as u8]
}

/// The version that `s` names, if it names one.
pub open spec fn spec_version_from_bytes(s: Seq<u8>) -> Option<HttpVersion> {
    if s == spec_http11() {
        Some(HttpVersion::Http11)
    } else if s == spec_http10() {
        Some(HttpVersion::Http10)
    } else {
        None
    }
}

impl HttpVersion {
    /// The name of the version as it stands in a start line.
    pub open spec fn spec_bytes(self) -> Seq<u8> {
        match self {
            HttpVersion::Http10 => spec_http10(),
            HttpVersion::Http11 => spec_http11(),
        }
    }

    /// Reads a version name; the match is exact and case-sensitive.
    pub fn from_bytes(s: &[u8]) -> (r: Option<HttpVersion>)
        ensures
            r == spec_version_from_bytes(s@),
    {
        let v11: [u8; 8] = ['H' as u8, 'T' as u8, 'T' as u8, 'P' as u8, '/' as u8, '1' as u8, '.' as u8, '1' as u8];
        let v10: [u8; 8] = ['H' as u8, 'T' as u8, 'T' as u8, 'P' as u8, '/' as u8, '1' as u8, '.' as u8, '0' as u8];
        assert(v11@ =~= spec_http11());
        assert(v10@ =~= spec_http10());
        if eq_bytes(s, &v11) {
            Some(HttpVersion::Http11)
        } else if eq_bytes(s, &v10) {
            Some(HttpVersion::Http10)
        } else {
            None
        }
    }

    /// Appends the name of the version to `dst`.
    pub fn write_to(&self, dst: &mut Vec<u8>)
        ensures
            final(dst)@ == old(dst)@ + self.spec_bytes(),
    {
        match self {
            HttpVersion::Http10 => {
                let v10: [u8; 8] = ['H' as u8, 'T' as u8, 'T' as u8, 'P' as u8, '/' as u8, '1' as u8, '.' as u8, '0' as u8];
                assert(v10@ =~= spec_http10());
                extend(dst, &v10);
            },
            HttpVersion::Http11 => {
                let v11: [u8; 8] = ['H' as u8, 'T' as u8, 'T' as u8, 'P' as u8, '/' as u8, '1' as u8, '.' as u8, '1' as u8];
                assert(v11@ =~= spec_http11());
                extend(dst, &v11);
            },
        }
    }
}

impl Default for HttpVersion {
    /// `HTTP/1.1`.
    fn default() -> (r: HttpVersion)
        ensures
            r == HttpVersion::Http11,
    {
        HttpVersion::Http11
    }
}

/// A version name is read back as the version that wrote it.
pub proof fn lemma_version_round_trip(v: HttpVersion)
    ensures
        spec_version_from_bytes(v.spec_bytes()) == Some(v),
        v.spec_bytes().len() == 8,
{
    assert(spec_http10()[7] != spec_http11()[7]);
}

} // verus!
