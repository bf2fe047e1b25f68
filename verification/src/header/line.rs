//! The grammar of one header line, as it stands in a head or in the trailer
//! of a chunked body.

use vstd::prelude::*;
use crate::header::COLON;
use crate::text::{
    all_field_bytes, all_tchar, find_byte, spec_all_field_bytes, spec_all_tchar, spec_find_byte,
    spec_trim, trim,
};

verus! {

/// The name and the value that a header line holds. The line is given without
/// its CR LF. The name is what stands before the first colon: one or more
/// token characters. The value is what stands after it, without the white
/// space at either end, and holds no control character but the horizontal
/// tab. A line of any other shape holds nothing.
pub open spec fn spec_header_line(line: Seq<u8>) -> Option<(Seq<u8>, Seq<u8>)> {
    let c = spec_find_byte(line, COLON, 0);
    let name = line.take(c);
    let value = spec_trim(line.skip(c + 1));
    if 0 < c && c < line.len() && spec_all_tchar(name) && spec_all_field_bytes(value) {
        Some((name, value))
    } else {
        None
    }
}

/// Splits a header line, given without its CR LF, into its name and value.
pub fn parse_header_line(line: &[u8]) -> (r: Option<(&[u8], &[u8])>)
    ensures
        match r {
            Some((name, value)) => spec_header_line(line@) == Some((name@, value@)),
            None => spec_header_line(line@).is_none(),
        },
{
    let c = find_byte(line, COLON, 0);
    if c == 0 || c >= line.len() {
        return None;
    }
    let name = &line[0..c];
    let value = trim(&line[c + 1..line.len()]);
    assert(line@.subrange(0, c as int) =~= line@.take(c as int));
    assert(line@.subrange(c as int + 1, line@.len() as int) =~= line@.skip(c as int + 1));
    if all_tchar(name) && all_field_bytes(value) {
        Some((name, value))
    } else {
        None
    }
}

} // verus!
