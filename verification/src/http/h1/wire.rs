//! A head that is written is read back as it was: what `encode` puts on the
//! wire, `parse` takes off it again, provided the head holds nothing that the
//! grammar of a head has no place for.

use vstd::prelude::*;
use crate::error::Error;
use crate::header::line::spec_header_line;
use crate::header::{spec_line_bytes, spec_lines_bytes, Lines, COLON};
use crate::http::h1::parse::{
    lemma_request_answer_stands, lemma_response_answer_stands, spec_header_lines, spec_is_front,
    spec_parse_request, spec_parse_response, spec_request_line, spec_status_line, HeadView,
    MAX_HEAD_SIZE,
};
use crate::http::h1::plain::{spec_line_is_plain, spec_lines_are_plain};
use crate::http::h1::role::{spec_request_head_bytes, spec_response_head_bytes};
use crate::http::request::RequestLine;
use crate::status::{spec_reason, StatusCode};
use crate::text::{
    lemma_decimal_round_trip, lemma_find_crlf_at, spec_all_field_bytes, spec_all_tchar,
    spec_all_visible, spec_decimal_digits, spec_find_byte, spec_find_crlf, spec_is_digit,
    spec_is_field_byte, spec_is_ows, spec_is_tchar, spec_is_visible, spec_trim, spec_trim_end,
    spec_trim_start, CR, LF, SP,
};
use crate::version::{lemma_version_round_trip, HttpVersion};

verus! {

/// Whether no byte of `s` is a carriage return.
pub open spec fn spec_no_cr(s: Seq<u8>) -> bool {
    forall|i: int| 0 <= i < s.len() ==> #[trigger] s[i] != CR
}

/// A byte that stands at `e`, with none like it from `from` on, is the one
/// that `spec_find_byte` finds.
proof fn lemma_find_byte_at(s: Seq<u8>, b: u8, from: int, e: int)
    requires
        0 <= from <= e < s.len(),
        s[e] == b,
        forall|j: int| from <= j < e ==> s[j] != b,
    ensures
        spec_find_byte(s, b, from) == e,
    decreases e - from,
{
    if from < e {
        lemma_find_byte_at(s, b, from + 1, e);
    }
}

/// A value without white space at its ends is what is left of it, written
/// after a space, when the white space at the ends is taken away.
proof fn lemma_trim_plain(v: Seq<u8>)
    requires
        v.len() > 0 ==> !spec_is_ows(v[0]) && !spec_is_ows(v.last()),
    ensures
        spec_trim(seq![SP] + v) == v,
{
    let s = seq![SP] + v;
    assert(s[0] == SP);
    assert(s.skip(1) =~= v);
    assert(spec_trim_start(s) == spec_trim_start(v));
    assert(spec_trim_start(v) == v);
    assert(spec_trim_end(v) == v);
}

/// A plain line on the wire holds no carriage return before the one that
/// ends it, and is read back as it was.
proof fn lemma_line_round_trip(line: (Seq<u8>, Seq<u8>))
    requires
        spec_line_is_plain(line),
    ensures
        spec_line_bytes(line).len() == line.0.len() + line.1.len() + 4,
        spec_no_cr(spec_line_bytes(line).take(spec_line_bytes(line).len() - 2)),
        spec_line_bytes(line)[spec_line_bytes(line).len() - 2] == CR,
        spec_line_bytes(line)[spec_line_bytes(line).len() - 1] == LF,
        spec_header_line(spec_line_bytes(line).take(spec_line_bytes(line).len() - 2)) == Some(line),
{
    let b = spec_line_bytes(line);
    let n = line.0.len() as int;
    let content = b.take(b.len() - 2);
    assert(content =~= line.0 + seq![COLON, SP] + line.1);
    assert forall|j: int| 0 <= j < content.len() implies #[trigger] content[j] != CR by {
        if j < n {
            assert(content[j] == line.0[j]);
            assert(spec_is_tchar(line.0[j]));
        } else if j >= n + 2 {
            assert(content[j] == line.1[j - n - 2]);
            assert(spec_is_field_byte(line.1[j - n - 2]));
        }
    }
    assert forall|j: int| 0 <= j < n implies content[j] != COLON by {
        assert(content[j] == line.0[j]);
        assert(spec_is_tchar(line.0[j]));
    }
    assert(content[n] == COLON);
    lemma_find_byte_at(content, COLON, 0, n);
    assert(content.take(n) =~= line.0);
    assert(content.skip(n + 1) =~= seq![SP] + line.1);
    lemma_trim_plain(line.1);
}

/// The bytes of the first lines are the front of the bytes of all lines.
proof fn lemma_lines_bytes_front(h: Lines, k: int)
    requires
        0 <= k <= h.len(),
    ensures
        spec_is_front(spec_lines_bytes(h.take(k)), spec_lines_bytes(h)),
        k < h.len() ==> spec_lines_bytes(h.take(k + 1)) == spec_lines_bytes(h.take(k))
            + spec_line_bytes(h[k]),
    decreases h.len() - k,
{
    if k < h.len() {
        assert(h.take(k + 1).drop_last() =~= h.take(k));
        assert(h.take(k + 1).last() == h[k]);
        lemma_lines_bytes_front(h, k + 1);
        let a = spec_lines_bytes(h.take(k));
        let b = spec_lines_bytes(h.take(k + 1));
        let c = spec_lines_bytes(h);
        assert forall|i: int| 0 <= i < a.len() implies c[i] == #[trigger] a[i] by {
            assert(b[i] == a[i]);
        }
    } else {
        assert(h.take(k) =~= h);
    }
}

/// Plain lines on the wire, with the empty line after them, are read back as
/// they were, from line `k` on and with the lines before it in hand.
proof fn lemma_lines_round_trip(w: Seq<u8>, start: int, h: Lines, k: int)
    requires
        spec_lines_are_plain(h),
        0 <= k <= h.len(),
        0 <= start,
        start + spec_lines_bytes(h).len() + 2 <= w.len(),
        forall|j: int|
            0 <= j < spec_lines_bytes(h).len() ==> w[start + j] == #[trigger] spec_lines_bytes(h)[j],
        w[start + spec_lines_bytes(h).len()] == CR,
        w[start + spec_lines_bytes(h).len() + 1] == LF,
    ensures
        spec_header_lines(w, start + spec_lines_bytes(h.take(k)).len(), h.take(k)) == Ok::<
            Option<(Lines, int)>,
            Error,
        >(Some((h, start + spec_lines_bytes(h).len() + 2))),
    decreases h.len() - k,
{
    let all = spec_lines_bytes(h);
    let done = spec_lines_bytes(h.take(k));
    let pos = start + done.len();
    lemma_lines_bytes_front(h, k);
    if k == h.len() {
        assert(h.take(k) =~= h);
        assert(spec_find_crlf(w, pos) == Some(pos));
    } else {
        let line = h[k];
        let lb = spec_line_bytes(line);
        let next = spec_lines_bytes(h.take(k + 1));
        lemma_line_round_trip(line);
        lemma_lines_bytes_front(h, k + 1);
        assert(spec_line_is_plain(line));
        let e = pos + lb.len() - 2;
        assert forall|j: int| 0 <= j < lb.len() implies w[pos + j] == #[trigger] lb[j] by {
            assert(next[done.len() + j] == lb[j]);
            assert(all[done.len() + j] == next[done.len() + j]);
            assert(w[start + (done.len() + j)] == all[done.len() + j]);
        }
        assert forall|j: int| pos <= j < e implies w[j] != CR by {
            assert(w[pos + (j - pos)] == lb[j - pos]);
            assert(lb.take(lb.len() - 2)[j - pos] == lb[j - pos]);
        }
        assert(w[pos + (lb.len() - 2)] == lb[lb.len() - 2]);
        assert(w[pos + (lb.len() - 1)] == lb[lb.len() - 1]);
        lemma_find_crlf_at(w, pos, e);
        assert(w.subrange(pos, e) =~= lb.take(lb.len() - 2)) by {
            assert forall|j: int| 0 <= j < e - pos implies w.subrange(pos, e)[j] == lb.take(
                lb.len() - 2,
            )[j] by {
                assert(w[pos + j] == lb[j]);
            }
        }
        assert(h.take(k).push(line) =~= h.take(k + 1));
        lemma_lines_round_trip(w, start, h, k + 1);
    }
}

/// A number from 100 to 999 is written with three digits.
proof fn lemma_three_digit_code(n: nat)
    requires
        100 <= n <= 999,
    ensures
        spec_decimal_digits(n).len() == 3,
{
    assert(spec_decimal_digits(n / 100).len() == 1);
    assert(spec_decimal_digits(n / 10).len() == 2) by {
        assert((n / 10) / 10 == n / 100);
    }
}

/// A reason phrase holds no control character.
proof fn lemma_reason_is_text(code: u16)
    ensures
        spec_all_field_bytes(spec_reason(code)),
{
    let r = spec_reason(code);
    assert forall|i: int| 0 <= i < r.len() implies spec_is_field_byte(#[trigger] r[i]) by {}
}

/// A status line that is written is read back as it was, and holds no
/// carriage return.
proof fn lemma_status_line_round_trip(status: StatusCode, version: HttpVersion)
    requires
        status.spec_valid(),
    ensures
        spec_status_line(version.spec_bytes().push(SP) + status.spec_bytes()) == Ok::<
            (HttpVersion, StatusCode),
            Error,
        >((version, status)),
        spec_no_cr(version.spec_bytes().push(SP) + status.spec_bytes()),
{
    let v = version.spec_bytes();
    let digits = spec_decimal_digits(status.0 as nat);
    let reason = spec_reason(status.0);
    let line = v.push(SP) + status.spec_bytes();
    lemma_version_round_trip(version);
    lemma_decimal_round_trip(status.0 as nat);
    lemma_three_digit_code(status.0 as nat);
    lemma_reason_is_text(status.0);
    assert(line =~= v + seq![SP] + digits + seq![SP] + reason);
    assert(line.take(8) =~= v);
    assert(line[8] == SP);
    assert(line.subrange(9, 12) =~= digits);
    assert(line[12] == SP);
    assert(line.skip(13) =~= reason);
    assert forall|i: int| 0 <= i < line.len() implies #[trigger] line[i] != CR by {
        if i < 8 {
            assert(line[i] == v[i]);
            assert(v[i] != CR) by {
                assert(v == crate::version::spec_http10() || v == crate::version::spec_http11());
            }
        } else if 9 <= i < 12 {
            assert(line[i] == digits[i - 9]);
            assert(spec_is_digit(digits[i - 9]));
        } else if i >= 13 {
            assert(line[i] == reason[i - 13]);
            assert(spec_is_field_byte(reason[i - 13]));
        }
    }
}

/// A request line that is written is read back as it was, and holds no
/// carriage return.
proof fn lemma_request_line_round_trip(subject: (Seq<u8>, Seq<u8>), version: HttpVersion)
    requires
        subject.0.len() > 0,
        spec_all_tchar(subject.0),
        subject.1.len() > 0,
        spec_all_visible(subject.1),
    ensures
        spec_request_line(RequestLine::spec_bytes(subject).push(SP) + version.spec_bytes()) == Ok::<
            (Seq<u8>, Seq<u8>, HttpVersion),
            Error,
        >((subject.0, subject.1, version)),
        spec_no_cr(RequestLine::spec_bytes(subject).push(SP) + version.spec_bytes()),
{
    let m = subject.0;
    let t = subject.1;
    let v = version.spec_bytes();
    let line = RequestLine::spec_bytes(subject).push(SP) + v;
    let s1 = m.len() as int;
    let s2 = s1 + 1 + t.len();
    lemma_version_round_trip(version);
    assert(line =~= m + seq![SP] + t + seq![SP] + v);
    assert forall|j: int| 0 <= j < s1 implies line[j] != SP by {
        assert(line[j] == m[j]);
        assert(spec_is_tchar(m[j]));
    }
    assert(line[s1] == SP);
    lemma_find_byte_at(line, SP, 0, s1);
    assert forall|j: int| s1 + 1 <= j < s2 implies line[j] != SP by {
        assert(line[j] == t[j - s1 - 1]);
        assert(spec_is_visible(t[j - s1 - 1]));
    }
    assert(line[s2] == SP);
    lemma_find_byte_at(line, SP, s1 + 1, s2);
    assert(line.take(s1) =~= m);
    assert(line.subrange(s1 + 1, s2) =~= t);
    assert(line.skip(s2 + 1) =~= v);
    assert forall|i: int| 0 <= i < line.len() implies #[trigger] line[i] != CR by {
        if i < s1 {
            assert(line[i] == m[i]);
            assert(spec_is_tchar(m[i]));
        } else if s1 < i < s2 {
            assert(line[i] == t[i - s1 - 1]);
            assert(spec_is_visible(t[i - s1 - 1]));
        } else if i > s2 {
            assert(line[i] == v[i - s2 - 1]);
            assert(v[i - s2 - 1] != CR) by {
                assert(v == crate::version::spec_http10() || v == crate::version::spec_http11());
            }
        }
    }
}

/// The head of a response that is written is read back as it was: where the
/// status can stand in a status line, the headers are plain and the head is
/// no longer than a head may be, the parser finds, at the front of what was
/// written and whatever follows it, that status, that version and those
/// headers, and takes exactly the bytes that were written.
pub proof fn lemma_response_head_round_trip(
    status: StatusCode,
    version: HttpVersion,
    h: Lines,
    more: Seq<u8>,
)
    requires
        status.spec_valid(),
        spec_lines_are_plain(h),
        spec_response_head_bytes(status, version, h).len() <= MAX_HEAD_SIZE,
    ensures
        spec_parse_response(spec_response_head_bytes(status, version, h) + more) == Ok::<
            Option<(HeadView<StatusCode>, int)>,
            Error,
        >(
            Some(
                (
                    HeadView { version, subject: status, headers: h },
                    spec_response_head_bytes(status, version, h).len() as int,
                ),
            ),
        ),
{
    reveal(spec_parse_response);
    let line = version.spec_bytes().push(SP) + status.spec_bytes();
    let buf = spec_response_head_bytes(status, version, h);
    let e = line.len() as int;
    lemma_status_line_round_trip(status, version);
    assert(buf =~= line + seq![CR, LF] + spec_lines_bytes(h) + seq![CR, LF]);
    assert forall|j: int| 0 <= j < e implies buf[j] != CR by {
        assert(buf[j] == line[j]);
    }
    assert(buf[e] == CR && buf[e + 1] == LF);
    lemma_find_crlf_at(buf, 0, e);
    assert(buf.take(e) =~= line);
    assert(h.take(0) =~= Seq::<(Seq<u8>, Seq<u8>)>::empty());
    lemma_lines_round_trip(buf, e + 2, h, 0);
    lemma_response_answer_stands(buf, more);
}

/// The head of a request that is written is read back as it was: where the
/// method is a token, the target is made of visible characters, the headers
/// are plain and the head is no longer than a head may be, the parser finds,
/// at the front of what was written and whatever follows it, that method,
/// that target, that version and those headers, and takes exactly the bytes
/// that were written.
pub proof fn lemma_request_head_round_trip(
    subject: (Seq<u8>, Seq<u8>),
    version: HttpVersion,
    h: Lines,
    more: Seq<u8>,
)
    requires
        subject.0.len() > 0,
        spec_all_tchar(subject.0),
        subject.1.len() > 0,
        spec_all_visible(subject.1),
        spec_lines_are_plain(h),
        spec_request_head_bytes(subject, version, h).len() <= MAX_HEAD_SIZE,
    ensures
        spec_parse_request(spec_request_head_bytes(subject, version, h) + more) == Ok::<
            Option<(HeadView<(Seq<u8>, Seq<u8>)>, int)>,
            Error,
        >(
            Some(
                (
                    HeadView { version, subject, headers: h },
                    spec_request_head_bytes(subject, version, h).len() as int,
                ),
            ),
        ),
{
    reveal(spec_parse_request);
    let line = RequestLine::spec_bytes(subject).push(SP) + version.spec_bytes();
    let buf = spec_request_head_bytes(subject, version, h);
    let e = line.len() as int;
    lemma_request_line_round_trip(subject, version);
    assert(buf =~= line + seq![CR, LF] + spec_lines_bytes(h) + seq![CR, LF]);
    assert forall|j: int| 0 <= j < e implies buf[j] != CR by {
        assert(buf[j] == line[j]);
    }
    assert(buf[e] == CR && buf[e + 1] == LF);
    lemma_find_crlf_at(buf, 0, e);
    assert(buf.take(e) =~= line);
    assert(h.take(0) =~= Seq::<(Seq<u8>, Seq<u8>)>::empty());
    lemma_lines_round_trip(buf, e + 2, h, 0);
    lemma_request_answer_stands(buf, more);
}

} // verus!
