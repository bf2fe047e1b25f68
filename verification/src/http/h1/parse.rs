//! The head of a message, read from the bytes that have arrived.
//!
//! A head is read line by line, and a line is judged once its CR LF has
//! arrived. Until the empty line that ends the head is there, and as long as
//! no line that is there is malformed, the head is incomplete.

use vstd::prelude::*;
use crate::error::Error;
use crate::header::line::{parse_header_line, spec_header_line};
use crate::header::{Headers, Lines};
use crate::http::request::RequestLine;
use crate::http::MessageHead;
use crate::method::Method;
use crate::status::{spec_status_from_digits, StatusCode};
use crate::text::{
    all_field_bytes, find_byte, find_crlf, lemma_find_crlf, spec_all_field_bytes,
    spec_all_tchar, spec_all_visible, spec_find_byte, spec_find_crlf, SP,
};
use crate::uri::Uri;
use crate::version::{spec_version_from_bytes, HttpVersion};

verus! {

/// The most header lines that a head may have.
pub const MAX_HEADERS: usize = 100;

/// The most bytes that a head may have, its final empty line included.
pub const MAX_HEAD_SIZE: usize = 65536;

/// A head as the parser reads it: the version, the subject, and the header
/// lines in order.
pub struct HeadView<S> {
    /// The protocol version.
    pub version: HttpVersion,
    /// The subject: for a request the token of the method and the target, for
    /// a response the status code.
    pub subject: S,
    /// The header lines.
    pub headers: Lines,
}

/// What a request line holds: the method token, the target and the version.
/// The line is given without its CR LF and has the shape
/// `method SP target SP version`, with single spaces. A line without a
/// method token at its front gives `Error::Method`; else one without a
/// target of visible ASCII characters gives `Error::Uri`; else one without
/// one of the two version names at its end gives `Error::Version`.
pub open spec fn spec_request_line(line: Seq<u8>) -> Result<
    (Seq<u8>, Seq<u8>, HttpVersion),
    Error,
> {
    let s1 = spec_find_byte(line, SP, 0);
    let s2 = spec_find_byte(line, SP, s1 + 1);
    let method = line.take(s1);
    if !(method.len() > 0 && spec_all_tchar(method)) {
        Err(Error::Method)
    } else if s1 >= line.len() {
        Err(Error::Uri)
    } else {
        let target = line.subrange(s1 + 1, s2);
        if !(target.len() > 0 && spec_all_visible(target)) {
            Err(Error::Uri)
        } else if s2 >= line.len() {
            Err(Error::Version)
        } else {
            match spec_version_from_bytes(line.skip(s2 + 1)) {
                None => Err(Error::Version),
                Some(version) => Ok((method, target, version)),
            }
        }
    }
}

/// What a status line holds: the version and the status code. The line is
/// given without its CR LF and has the shape `version SP code`, which a space
/// and a reason phrase may follow. A line without one of the two version
/// names at its front gives `Error::Version`; else one without a space and
/// three digits that make a status code, or with a control character in its
/// reason phrase, gives `Error::Status`.
pub open spec fn spec_status_line(line: Seq<u8>) -> Result<(HttpVersion, StatusCode), Error> {
    if line.len() < 8 {
        Err(Error::Version)
    } else {
        match spec_version_from_bytes(line.take(8)) {
            None => Err(Error::Version),
            Some(version) => if line.len() < 12 || line[8] != SP {
                Err(Error::Status)
            } else {
                match spec_status_from_digits(line.subrange(9, 12)) {
                    None => Err(Error::Status),
                    Some(code) => if line.len() == 12 || (line[12] == SP && spec_all_field_bytes(
                        line.skip(13),
                    )) {
                        Ok((version, code))
                    } else {
                        Err(Error::Status)
                    },
                }
            },
        }
    }
}

/// The header lines of a head and where the head ends. The lines are read
/// from `pos` on and added to `acc`; an empty line ends the head. A line
/// that has not arrived whole leaves the head incomplete; a line after the
/// hundredth gives `Error::TooLarge`; a malformed line gives `Error::Header`.
pub open spec fn spec_header_lines(w: Seq<u8>, pos: int, acc: Lines) -> Result<
    Option<(Lines, int)>,
    Error,
>
    decreases w.len() - pos,
{
    match spec_find_crlf(w, pos) {
        None => Ok(None),
        Some(e) => if e < pos || e + 2 > w.len() {
            Ok(None)
        } else if e == pos {
            Ok(Some((acc, pos + 2)))
        } else if acc.len() >= MAX_HEADERS {
            Err(Error::TooLarge)
        } else {
            match spec_header_line(w.subrange(pos, e)) {
                None => Err(Error::Header),
                Some(line) => spec_header_lines(w, e + 2, acc.push(line)),
            }
        },
    }
}

/// The part of a buffer that the parser looks at: its first `MAX_HEAD_SIZE`
/// bytes.
pub open spec fn spec_window(buf: Seq<u8>) -> Seq<u8> {
    if buf.len() <= MAX_HEAD_SIZE {
        buf
    } else {
        buf.take(MAX_HEAD_SIZE as int)
    }
}

/// What stands for an incomplete head: nothing, while the buffer may still
/// grow, and `Error::TooLarge` once the buffer holds `MAX_HEAD_SIZE` bytes.
pub open spec fn spec_incomplete<S>(buf: Seq<u8>) -> Result<Option<(HeadView<S>, int)>, Error> {
    if buf.len() >= MAX_HEAD_SIZE {
        Err(Error::TooLarge)
    } else {
        Ok(None)
    }
}

/// The head of a request at the front of `buf`, and its length in bytes.
#[verifier::opaque]
pub open spec fn spec_parse_request(buf: Seq<u8>) -> Result<
    Option<(HeadView<(Seq<u8>, Seq<u8>)>, int)>,
    Error,
> {
    let w = spec_window(buf);
    match spec_find_crlf(w, 0) {
        None => spec_incomplete(buf),
        Some(e) => match spec_request_line(w.take(e)) {
            Err(x) => Err(x),
            Ok((method, target, version)) => match spec_header_lines(w, e + 2, Seq::empty()) {
                Err(x) => Err(x),
                Ok(None) => spec_incomplete(buf),
                Ok(Some((headers, n))) => Ok(
                    Some((HeadView { version, subject: (method, target), headers }, n)),
                ),
            },
        },
    }
}

/// The head of a response at the front of `buf`, and its length in bytes.
#[verifier::opaque]
pub open spec fn spec_parse_response(buf: Seq<u8>) -> Result<
    Option<(HeadView<StatusCode>, int)>,
    Error,
> {
    let w = spec_window(buf);
    match spec_find_crlf(w, 0) {
        None => spec_incomplete(buf),
        Some(e) => match spec_status_line(w.take(e)) {
            Err(x) => Err(x),
            Ok((version, code)) => match spec_header_lines(w, e + 2, Seq::empty()) {
                Err(x) => Err(x),
                Ok(None) => spec_incomplete(buf),
                Ok(Some((headers, n))) => Ok(Some((HeadView { version, subject: code, headers }, n))),
            },
        },
    }
}

/// Reads a request line, given without its CR LF.
pub fn parse_request_line(line: &[u8]) -> (r: Result<(RequestLine, HttpVersion), Error>)
    ensures
        match spec_request_line(line@) {
            Ok((method, target, version)) => {
                &&& r matches Ok((subject, v))
                &&& subject@ == (method, target)
                &&& v == version
            },
            Err(e) => r matches Err(x) && x == e,
        },
{
    let s1 = find_byte(line, SP, 0);
    assert(line@.subrange(0, s1 as int) =~= line@.take(s1 as int));
    let method = match Method::from_bytes(&line[0..s1]) {
        Ok(m) => m,
        Err(e) => {
            return Err(e);
        },
    };
    if s1 >= line.len() {
        return Err(Error::Uri);
    }
    let s2 = find_byte(line, SP, s1 + 1);
    let uri = match Uri::from_bytes(&line[s1 + 1..s2]) {
        Ok(u) => u,
        Err(e) => {
            return Err(e);
        },
    };
    if s2 >= line.len() {
        return Err(Error::Version);
    }
    assert(line@.subrange(s2 as int + 1, line@.len() as int) =~= line@.skip(s2 as int + 1));
    match HttpVersion::from_bytes(&line[s2 + 1..line.len()]) {
        None => Err(Error::Version),
        Some(version) => Ok((RequestLine { method, uri }, version)),
    }
}

/// Reads a status line, given without its CR LF.
pub fn parse_status_line(line: &[u8]) -> (r: Result<(StatusCode, HttpVersion), Error>)
    ensures
        match spec_status_line(line@) {
            Ok((version, code)) => r == Ok::<(StatusCode, HttpVersion), Error>((code, version)),
            Err(e) => r == Err::<(StatusCode, HttpVersion), Error>(e),
        },
{
    if line.len() < 8 {
        return Err(Error::Version);
    }
    assert(line@.subrange(0, 8) =~= line@.take(8));
    let version = match HttpVersion::from_bytes(&line[0..8]) {
        None => {
            return Err(Error::Version);
        },
        Some(v) => v,
    };
    if line.len() < 12 || line[8] != SP {
        return Err(Error::Status);
    }
    let code = match StatusCode::from_digits(&line[9..12]) {
        None => {
            return Err(Error::Status);
        },
        Some(c) => c,
    };
    if line.len() == 12 {
        return Ok((code, version));
    }
    assert(line@.subrange(13, line@.len() as int) =~= line@.skip(13));
    if line[12] == SP && all_field_bytes(&line[13..line.len()]) {
        Ok((code, version))
    } else {
        Err(Error::Status)
    }
}

/// Reads the header lines of a head from `pos` on, up to the empty line that
/// ends it.
pub fn parse_header_lines(w: &[u8], pos: usize) -> (r: Result<Option<(Headers, usize)>, Error>)
    requires
        pos <= w.len(),
    ensures
        match spec_header_lines(w@, pos as int, Seq::empty()) {
            Ok(Some((lines, n))) => {
                &&& r matches Ok(Some((headers, k)))
                &&& headers@ == lines
                &&& k == n
                &&& pos + 2 <= k <= w@.len()
            },
            Ok(None) => r matches Ok(None),
            Err(e) => r matches Err(x) && x == e,
        },
{
    let mut headers = Headers::new();
    let mut at: usize = pos;
    loop
        invariant
            pos <= at <= w.len(),
            spec_header_lines(w@, pos as int, Seq::empty()) == spec_header_lines(
                w@,
                at as int,
                headers@,
            ),
        decreases w.len() - at,
    {
        proof {
            lemma_find_crlf(w@, at as int);
        }
        match find_crlf(w, at) {
            None => {
                return Ok(None);
            },
            Some(e) => {
                if e == at {
                    return Ok(Some((headers, at + 2)));
                }
                if headers.len() >= MAX_HEADERS {
                    return Err(Error::TooLarge);
                }
                match parse_header_line(&w[at..e]) {
                    None => {
                        return Err(Error::Header);
                    },
                    Some((name, value)) => {
                        headers.append_raw(name, value);
                        at = e + 2;
                    },
                }
            },
        }
    }
}

/// Cuts a buffer down to the part that the parser looks at.
fn window(buf: &[u8]) -> (r: &[u8])
    ensures
        r@ == spec_window(buf@),
{
    if buf.len() <= MAX_HEAD_SIZE {
        buf
    } else {
        let w = &buf[0..MAX_HEAD_SIZE];
        assert(w@ =~= buf@.take(MAX_HEAD_SIZE as int));
        w
    }
}

/// Reads the head of a request from the front of `buf`.
///
/// Gives `Ok(None)` while the head is incomplete; the head and its length in
/// bytes once it is complete and well-formed; and an error once a line of it
/// is malformed, or it has more than `MAX_HEADERS` header lines, or it is
/// still incomplete after `MAX_HEAD_SIZE` bytes.
pub fn parse_request(buf: &[u8]) -> (r: Result<Option<(MessageHead<RequestLine>, usize)>, Error>)
    ensures
        match spec_parse_request(buf@) {
            Ok(Some((view, n))) => {
                &&& r matches Ok(Some((head, k)))
                &&& head.version == view.version
                &&& head.subject@ == view.subject
                &&& head.headers@ == view.headers
                &&& k == n
                &&& 0 < k <= buf@.len()
            },
            Ok(None) => r matches Ok(None),
            Err(e) => r matches Err(x) && x == e,
        },
{
    proof {
        reveal(spec_parse_request);
    }
    let w = window(buf);
    let incomplete = if buf.len() >= MAX_HEAD_SIZE {
        Err(Error::TooLarge)
    } else {
        Ok(None)
    };
    let e = match find_crlf(w, 0) {
        None => {
            return incomplete;
        },
        Some(e) => e,
    };
    assert(w@.subrange(0, e as int) =~= w@.take(e as int));
    let (subject, version) = match parse_request_line(&w[0..e]) {
        Err(x) => {
            return Err(x);
        },
        Ok(line) => line,
    };
    match parse_header_lines(w, e + 2) {
        Err(x) => Err(x),
        Ok(None) => incomplete,
        Ok(Some((headers, n))) => Ok(Some((MessageHead { version, subject, headers }, n))),
    }
}

/// Reads the head of a response from the front of `buf`.
///
/// Gives `Ok(None)` while the head is incomplete; the head and its length in
/// bytes once it is complete and well-formed; and an error once a line of it
/// is malformed, or it has more than `MAX_HEADERS` header lines, or it is
/// still incomplete after `MAX_HEAD_SIZE` bytes.
pub fn parse_response(buf: &[u8]) -> (r: Result<Option<(MessageHead<StatusCode>, usize)>, Error>)
    ensures
        match spec_parse_response(buf@) {
            Ok(Some((view, n))) => {
                &&& r matches Ok(Some((head, k)))
                &&& head.version == view.version
                &&& head.subject == view.subject
                &&& head.headers@ == view.headers
                &&& k == n
                &&& 0 < k <= buf@.len()
            },
            Ok(None) => r matches Ok(None),
            Err(e) => r matches Err(x) && x == e,
        },
{
    proof {
        reveal(spec_parse_response);
    }
    let w = window(buf);
    let incomplete = if buf.len() >= MAX_HEAD_SIZE {
        Err(Error::TooLarge)
    } else {
        Ok(None)
    };
    let e = match find_crlf(w, 0) {
        None => {
            return incomplete;
        },
        Some(e) => e,
    };
    assert(w@.subrange(0, e as int) =~= w@.take(e as int));
    let (subject, version) = match parse_status_line(&w[0..e]) {
        Err(x) => {
            return Err(x);
        },
        Ok(line) => line,
    };
    match parse_header_lines(w, e + 2) {
        Err(x) => Err(x),
        Ok(None) => incomplete,
        Ok(Some((headers, n))) => Ok(Some((MessageHead { version, subject, headers }, n))),
    }
}

/// Whether `w` is the front of `w2`.
pub open spec fn spec_is_front(w: Seq<u8>, w2: Seq<u8>) -> bool {
    w.len() <= w2.len() && forall|i: int| 0 <= i < w.len() ==> w2[i] == #[trigger] w[i]
}

/// A CR LF pair that is found in the front of a byte string is the one that
/// is found in the whole.
pub proof fn lemma_find_crlf_front(w: Seq<u8>, w2: Seq<u8>, from: int)
    requires
        spec_is_front(w, w2),
        0 <= from,
        spec_find_crlf(w, from).is_some(),
    ensures
        spec_find_crlf(w2, from) == spec_find_crlf(w, from),
    decreases w.len() - from,
{
    if from + 1 < w.len() {
        assert(w2[from] == w[from]);
        assert(w2[from + 1] == w[from + 1]);
        if !(w[from] == crate::text::CR && w[from + 1] == crate::text::LF) {
            lemma_find_crlf_front(w, w2, from + 1);
        }
    }
}

/// Header lines that are read to their end, or to an error, in the front of
/// a byte string are read alike in the whole.
proof fn lemma_header_lines_front(w: Seq<u8>, w2: Seq<u8>, pos: int, acc: Lines)
    requires
        spec_is_front(w, w2),
        0 <= pos,
        spec_header_lines(w, pos, acc) != Ok::<Option<(Lines, int)>, Error>(None),
    ensures
        spec_header_lines(w2, pos, acc) == spec_header_lines(w, pos, acc),
    decreases w.len() - pos,
{
    lemma_find_crlf(w, pos);
    match spec_find_crlf(w, pos) {
        None => {},
        Some(e) => {
            lemma_find_crlf_front(w, w2, pos);
            assert(w2.subrange(pos, e) =~= w.subrange(pos, e));
            if e != pos && acc.len() < MAX_HEADERS {
                match spec_header_line(w.subrange(pos, e)) {
                    None => {},
                    Some(line) => {
                        lemma_header_lines_front(w, w2, e + 2, acc.push(line));
                    },
                }
            }
        },
    }
}

/// The part of a buffer that the parser looks at is the front of the part
/// that it looks at once more bytes have arrived, and is that part itself
/// once the buffer holds `MAX_HEAD_SIZE` bytes.
proof fn lemma_window_front(buf: Seq<u8>, more: Seq<u8>)
    ensures
        spec_is_front(spec_window(buf), spec_window(buf + more)),
        buf.len() >= MAX_HEAD_SIZE ==> spec_window(buf + more) == spec_window(buf),
{
    if buf.len() >= MAX_HEAD_SIZE {
        assert(spec_window(buf + more) =~= spec_window(buf));
    }
}

/// An answer, once given, stands. Where the bytes in the buffer hold the
/// whole head of a request, or make the parser fail, bytes that arrive after
/// them change nothing: the parser gives the same head with the same length,
/// or the same error. Only the answer "incomplete" can give way to another,
/// and only when bytes arrive: on the same bytes the parser gives the same
/// answer, and it leaves the buffer as it is.
pub proof fn lemma_request_answer_stands(buf: Seq<u8>, more: Seq<u8>)
    requires
        spec_parse_request(buf) != Ok::<Option<(HeadView<(Seq<u8>, Seq<u8>)>, int)>, Error>(None),
    ensures
        spec_parse_request(buf + more) == spec_parse_request(buf),
{
    reveal(spec_parse_request);
    let w = spec_window(buf);
    let w2 = spec_window(buf + more);
    lemma_window_front(buf, more);
    if buf.len() < MAX_HEAD_SIZE {
        lemma_find_crlf(w, 0);
        let e = spec_find_crlf(w, 0).unwrap();
        lemma_find_crlf_front(w, w2, 0);
        assert(w2.take(e) =~= w.take(e));
        if spec_request_line(w.take(e)).is_ok() {
            lemma_header_lines_front(w, w2, e + 2, Seq::empty());
        }
    }
}

/// An answer, once given, stands. Where the bytes in the buffer hold the
/// whole head of a response, or make the parser fail, bytes that arrive
/// after them change nothing: the parser gives the same head with the same
/// length, or the same error. Only the answer "incomplete" can give way to
/// another, and only when bytes arrive: on the same bytes the parser gives
/// the same answer, and it leaves the buffer as it is.
pub proof fn lemma_response_answer_stands(buf: Seq<u8>, more: Seq<u8>)
    requires
        spec_parse_response(buf) != Ok::<Option<(HeadView<StatusCode>, int)>, Error>(None),
    ensures
        spec_parse_response(buf + more) == spec_parse_response(buf),
{
    reveal(spec_parse_response);
    let w = spec_window(buf);
    let w2 = spec_window(buf + more);
    lemma_window_front(buf, more);
    if buf.len() < MAX_HEAD_SIZE {
        lemma_find_crlf(w, 0);
        let e = spec_find_crlf(w, 0).unwrap();
        lemma_find_crlf_front(w, w2, 0);
        assert(w2.take(e) =~= w.take(e));
        if spec_status_line(w.take(e)).is_ok() {
            lemma_header_lines_front(w, w2, e + 2, Seq::empty());
        }
    }
}

} // verus!
