//! Header lines that are read back as they are written.

use vstd::prelude::*;
use crate::header::fields::{
    spec_chunked_token, spec_close_token, spec_connection_name, spec_content_length_name,
    spec_transfer_encoding_name,
};
use crate::header::{spec_without, Headers, Lines};
use crate::http::h1::parse::MAX_HEADERS;
use crate::http::h1::role::spec_body_framing;
use crate::text::{
    all_field_bytes, all_tchar, is_ows, spec_all_field_bytes, spec_all_tchar,
    spec_is_field_byte, spec_is_ows, spec_is_tchar,
};
use crate::version::HttpVersion;

verus! {

/// Whether a header line is read back as it is written: its name is a token,
/// and its value holds no control character but the horizontal tab and has
/// no white space at either end.
pub open spec fn spec_line_is_plain(line: (Seq<u8>, Seq<u8>)) -> bool {
    &&& line.0.len() > 0
    &&& spec_all_tchar(line.0)
    &&& spec_all_field_bytes(line.1)
    &&& line.1.len() > 0 ==> !spec_is_ows(line.1[0]) && !spec_is_ows(line.1.last())
}

/// Whether headers are read back as they are written: there are no more of
/// them than a head may have, and each line is plain.
pub open spec fn spec_lines_are_plain(h: Lines) -> bool {
    &&& h.len() <= MAX_HEADERS
    &&& forall|i: int| 0 <= i < h.len() ==> spec_line_is_plain(#[trigger] h[i])
}

/// Tells whether a header line is read back as it is written.
pub fn line_is_plain(name: &[u8], value: &[u8]) -> (r: bool)
    ensures
        r == spec_line_is_plain((name@, value@)),
{
    if name.len() == 0 || !all_tchar(name) || !all_field_bytes(value) {
        return false;
    }
    value.len() == 0 || (!is_ows(value[0]) && !is_ows(value[value.len() - 1]))
}

/// Tells whether headers are read back as they are written.
pub fn lines_are_plain(headers: &Headers) -> (r: bool)
    ensures
        r == spec_lines_are_plain(headers@),
{
    if headers.len() > MAX_HEADERS {
        return false;
    }
    let mut i: usize = 0;
    while i < headers.len()
        invariant
            i <= headers@.len(),
            forall|j: int| 0 <= j < i ==> spec_line_is_plain(#[trigger] headers@[j]),
        decreases headers@.len() - i,
    {
        if !line_is_plain(headers.name_at(i), headers.value_at(i)) {
            return false;
        }
        i += 1;
    }
    true
}

/// Removing the lines of a name leaves plain lines plain, and no more of them.
proof fn lemma_without_plain(h: Lines, name: Seq<u8>)
    requires
        forall|i: int| 0 <= i < h.len() ==> spec_line_is_plain(#[trigger] h[i]),
    ensures
        forall|i: int|
            0 <= i < spec_without(h, name).len() ==> spec_line_is_plain(
                #[trigger] spec_without(h, name)[i],
            ),
        spec_without(h, name).len() <= h.len(),
    decreases h.len(),
{
    if h.len() > 0 {
        let d = h.drop_last();
        assert forall|i: int| 0 <= i < d.len() implies spec_line_is_plain(#[trigger] d[i]) by {
            assert(d[i] == h[i]);
        }
        lemma_without_plain(d, name);
        let w = spec_without(d, name);
        let g = spec_without(h, name);
        assert forall|i: int| 0 <= i < g.len() implies spec_line_is_plain(#[trigger] g[i]) by {
            if i < w.len() {
                assert(g[i] == w[i]);
            } else {
                assert(g[i] == h[h.len() - 1]);
            }
        }
    }
}

/// The headers that go out with a body are plain where the caller's headers
/// are, and there is room for one more line.
pub proof fn lemma_framing_keeps_plain(version: HttpVersion, h: Lines)
    requires
        spec_lines_are_plain(h),
        h.len() < MAX_HEADERS,
    ensures
        spec_lines_are_plain(spec_body_framing(version, h).1),
{
    reveal(spec_body_framing);
    let te = spec_transfer_encoding_name();
    let cl = spec_content_length_name();
    let conn = spec_connection_name();
    let out = spec_body_framing(version, h).1;
    let g = spec_without(h, cl);
    let g2 = spec_without(g, te);
    let w = spec_without(g2, conn);
    lemma_without_plain(h, te);
    lemma_without_plain(h, cl);
    lemma_without_plain(g, te);
    lemma_without_plain(g2, conn);
    let added_te = (te, spec_chunked_token());
    let added_conn = (conn, spec_close_token());
    assert(spec_line_is_plain(added_te)) by {
        assert forall|i: int| 0 <= i < te.len() implies spec_is_tchar(#[trigger] te[i]) by {}
        assert forall|i: int| 0 <= i < added_te.1.len() implies spec_is_field_byte(
            #[trigger] added_te.1[i],
        ) by {}
    }
    assert(spec_line_is_plain(added_conn)) by {
        assert forall|i: int| 0 <= i < conn.len() implies spec_is_tchar(#[trigger] conn[i]) by {}
        assert forall|i: int| 0 <= i < added_conn.1.len() implies spec_is_field_byte(
            #[trigger] added_conn.1[i],
        ) by {}
    }
    assert forall|i: int| 0 <= i < out.len() implies spec_line_is_plain(#[trigger] out[i]) by {
        if out == g.push(added_te) {
            if i < g.len() {
                assert(out[i] == g[i]);
            }
        } else if out == w.push(added_conn) {
            if i < w.len() {
                assert(out[i] == w[i]);
            }
        }
    }
}

} // verus!
