//! The header fields that decide how a message is framed, and what each of
//! them says: `Connection`, `Expect`, `Content-Length` and
//! `Transfer-Encoding`.

use vstd::prelude::*;
use crate::error::Error;
use crate::header::{spec_first_value, spec_has, spec_without, Header, Headers, Lines};
use crate::text::{
    decimal_digits, eq_ignore_case, find_byte, lemma_decimal_round_trip, lemma_find_byte,
    parse_decimal, rfind_byte, spec_decimal_digits, spec_eq_ignore_case, spec_find_byte,
    spec_is_digit, spec_is_ows, spec_parse_decimal, spec_rfind_byte, spec_trim, spec_trim_end,
    spec_trim_start, to_vec, trim,
};

verus! {

/// The comma that separates the elements of a list.
pub const COMMA: u8 = 44;

/// The header name `Connection`.
pub open spec fn spec_connection_name() -> Seq<u8> {
    seq!['C' as u8, 'o' as u8, 'n' as u8, 'n' as u8, 'e' as u8, 'c' as u8, 't' as u8, 'i' as u8, 'o' as u8, 'n' as u8]
}

/// The header name `Connection`.
pub fn connection_name() -> (r: [u8; 10])
    ensures
        r@ == spec_connection_name(),
{
    let r: [u8; 10] = ['C' as u8, 'o' as u8, 'n' as u8, 'n' as u8, 'e' as u8, 'c' as u8, 't' as u8, 'i' as u8, 'o' as u8, 'n' as u8];
    assert(r@ =~= spec_connection_name());
    r
}

/// The header name `Expect`.
pub open spec fn spec_expect_name() -> Seq<u8> {
    seq!['E' as u8, 'x' as u8, 'p' as u8, 'e' as u8, 'c' as u8, 't' as u8]
}

/// The header name `Expect`.
pub fn expect_name() -> (r: [u8; 6])
    ensures
        r@ == spec_expect_name(),
{
    let r: [u8; 6] = ['E' as u8, 'x' as u8, 'p' as u8, 'e' as u8, 'c' as u8, 't' as u8];
    assert(r@ =~= spec_expect_name());
    r
}

/// The header name `Content-Length`.
pub open spec fn spec_content_length_name() -> Seq<u8> {
    seq!['C' as u8, 'o' as u8, 'n' as u8, 't' as u8, 'e' as u8, 'n' as u8, 't' as u8, '-' as u8, 'L' as u8, 'e' as u8, 'n' as u8, 'g' as u8, 't' as u8, 'h' as u8]
}

/// The header name `Content-Length`.
pub fn content_length_name() -> (r: [u8; 14])
    ensures
        r@ == spec_content_length_name(),
{
    let r: [u8; 14] = ['C' as u8, 'o' as u8, 'n' as u8, 't' as u8, 'e' as u8, 'n' as u8, 't' as u8, '-' as u8, 'L' as u8, 'e' as u8, 'n' as u8, 'g' as u8, 't' as u8, 'h' as u8];
    assert(r@ =~= spec_content_length_name());
    r
}

/// The header name `Transfer-Encoding`.
pub open spec fn spec_transfer_encoding_name() -> Seq<u8> {
    seq!['T' as u8, 'r' as u8, 'a' as u8, 'n' as u8, 's' as u8, 'f' as u8, 'e' as u8, 'r' as u8, '-' as u8, 'E' as u8, 'n' as u8, 'c' as u8, 'o' as u8, 'd' as u8, 'i' as u8, 'n' as u8, 'g' as u8]
}

/// The header name `Transfer-Encoding`.
pub fn transfer_encoding_name() -> (r: [u8; 17])
    ensures
        r@ == spec_transfer_encoding_name(),
{
    let r: [u8; 17] = ['T' as u8, 'r' as u8, 'a' as u8, 'n' as u8, 's' as u8, 'f' as u8, 'e' as u8, 'r' as u8, '-' as u8, 'E' as u8, 'n' as u8, 'c' as u8, 'o' as u8, 'd' as u8, 'i' as u8, 'n' as u8, 'g' as u8];
    assert(r@ =~= spec_transfer_encoding_name());
    r
}

/// The connection option `close`.
pub open spec fn spec_close_token() -> Seq<u8> {
    seq!['c' as u8, 'l' as u8, 'o' as u8, 's' as u8, 'e' as u8]
}

/// The connection option `close`.
pub fn close_token() -> (r: [u8; 5])
    ensures
        r@ == spec_close_token(),
{
    let r: [u8; 5] = ['c' as u8, 'l' as u8, 'o' as u8, 's' as u8, 'e' as u8];
    assert(r@ =~= spec_close_token());
    r
}

/// The connection option `keep-alive`.
pub open spec fn spec_keep_alive_token() -> Seq<u8> {
    seq!['k' as u8, 'e' as u8, 'e' as u8, 'p' as u8, '-' as u8, 'a' as u8, 'l' as u8, 'i' as u8, 'v' as u8, 'e' as u8]
}

/// The connection option `keep-alive`.
pub fn keep_alive_token() -> (r: [u8; 10])
    ensures
        r@ == spec_keep_alive_token(),
{
    let r: [u8; 10] = ['k' as u8, 'e' as u8, 'e' as u8, 'p' as u8, '-' as u8, 'a' as u8, 'l' as u8, 'i' as u8, 'v' as u8, 'e' as u8];
    assert(r@ =~= spec_keep_alive_token());
    r
}

/// The transfer coding `chunked`.
pub open spec fn spec_chunked_token() -> Seq<u8> {
    seq!['c' as u8, 'h' as u8, 'u' as u8, 'n' as u8, 'k' as u8, 'e' as u8, 'd' as u8]
}

/// The transfer coding `chunked`.
pub fn chunked_token() -> (r: [u8; 7])
    ensures
        r@ == spec_chunked_token(),
{
    let r: [u8; 7] = ['c' as u8, 'h' as u8, 'u' as u8, 'n' as u8, 'k' as u8, 'e' as u8, 'd' as u8];
    assert(r@ =~= spec_chunked_token());
    r
}

/// The expectation `100-continue`.
pub open spec fn spec_continue_token() -> Seq<u8> {
    seq!['1' as u8, '0' as u8, '0' as u8, '-' as u8, 'c' as u8, 'o' as u8, 'n' as u8, 't' as u8, 'i' as u8, 'n' as u8, 'u' as u8, 'e' as u8]
}

/// The expectation `100-continue`.
pub fn continue_token() -> (r: [u8; 12])
    ensures
        r@ == spec_continue_token(),
{
    let r: [u8; 12] = ['1' as u8, '0' as u8, '0' as u8, '-' as u8, 'c' as u8, 'o' as u8, 'n' as u8, 't' as u8, 'i' as u8, 'n' as u8, 'u' as u8, 'e' as u8];
    assert(r@ =~= spec_continue_token());
    r
}

/// Whether one of the comma-separated elements of `v` that begin at or after
/// `from` is `tok`, white space around an element and the case of letters
/// aside.
pub open spec fn spec_list_has_from(v: Seq<u8>, tok: Seq<u8>, from: int) -> bool
    decreases v.len() - from,
{
    if from < 0 || from > v.len() {
        false
    } else {
        let c = spec_find_byte(v, COMMA, from);
        ||| spec_eq_ignore_case(spec_trim(v.subrange(from, c)), tok)
        ||| (from <= c && c < v.len() && spec_list_has_from(v, tok, c + 1))
    }
}

/// Whether one of the comma-separated elements of `v` is `tok`.
pub open spec fn spec_list_has(v: Seq<u8>, tok: Seq<u8>) -> bool {
    spec_list_has_from(v, tok, 0)
}

/// The last comma-separated element of `v`, without the white space around it.
pub open spec fn spec_list_last(v: Seq<u8>) -> Seq<u8> {
    spec_trim(v.subrange(spec_rfind_byte(v, COMMA, v.len() as int) + 1, v.len() as int))
}

/// Whether some line of `h` named `name` lists `tok`.
pub open spec fn spec_has_token(h: Lines, name: Seq<u8>, tok: Seq<u8>) -> bool {
    exists|i: int|
        0 <= i < h.len() && spec_eq_ignore_case(#[trigger] h[i].0, name) && spec_list_has(
            h[i].1,
            tok,
        )
}

/// The value of the last line of `h` that is named `name`.
pub open spec fn spec_last_value(h: Lines, name: Seq<u8>) -> Option<Seq<u8>>
    decreases h.len(),
{
    if h.len() == 0 {
        None
    } else if spec_eq_ignore_case(h.last().0, name) {
        Some(h.last().1)
    } else {
        spec_last_value(h.drop_last(), name)
    }
}

/// Whether `h` has a `Transfer-Encoding` whose final coding is `chunked`.
pub open spec fn spec_is_chunked(h: Lines) -> bool {
    match spec_last_value(h, spec_transfer_encoding_name()) {
        Some(v) => spec_eq_ignore_case(spec_list_last(v), spec_chunked_token()),
        None => false,
    }
}

/// Whether the first `Expect` line of `h` holds the `100-continue` token and
/// nothing else.
pub open spec fn spec_expects_continue(h: Lines) -> bool {
    match spec_first_value(h, spec_expect_name()) {
        Some(v) => spec_eq_ignore_case(spec_trim(v), spec_continue_token()),
        None => false,
    }
}

/// The values of the lines of `h` that are named `name`, in their order.
pub open spec fn spec_values(h: Lines, name: Seq<u8>) -> Seq<Seq<u8>>
    decreases h.len(),
{
    if h.len() == 0 {
        Seq::empty()
    } else if spec_eq_ignore_case(h.last().0, name) {
        spec_values(h.drop_last(), name).push(h.last().1)
    } else {
        spec_values(h.drop_last(), name)
    }
}

/// The length that the value of a `Content-Length` line declares: the value,
/// without white space at its ends, is a decimal number that fits in 64 bits.
pub open spec fn spec_length_of(value: Seq<u8>) -> Option<u64> {
    spec_parse_decimal(spec_trim(value))
}

/// What the values of several `Content-Length` lines declare together:
/// nothing where there is none; `Error::Header` where one of them declares
/// no length; `Error::Framing` where two of them differ; else the length
/// they agree on.
pub open spec fn spec_agreed_length(vals: Seq<Seq<u8>>) -> Result<Option<u64>, Error> {
    if vals.len() == 0 {
        Ok(None)
    } else if exists|i: int| 0 <= i < vals.len() && spec_length_of(#[trigger] vals[i]).is_none() {
        Err(Error::Header)
    } else if exists|i: int|
        0 <= i < vals.len() && spec_length_of(#[trigger] vals[i]) != spec_length_of(vals[0]) {
        Err(Error::Framing)
    } else {
        Ok(spec_length_of(vals[0]))
    }
}

/// What the `Content-Length` lines of `h` declare together.
pub open spec fn spec_content_length(h: Lines) -> Result<Option<u64>, Error> {
    spec_agreed_length(spec_values(h, spec_content_length_name()))
}

/// Tells whether one of the comma-separated elements of `v` is `tok`.
pub fn list_has(v: &[u8], tok: &[u8]) -> (r: bool)
    ensures
        r == spec_list_has(v@, tok@),
{
    let mut from: usize = 0;
    loop
        invariant
            from <= v.len(),
            spec_list_has(v@, tok@) == spec_list_has_from(v@, tok@, from as int),
        decreases v.len() - from,
    {
        let c = find_byte(v, COMMA, from);
        if eq_ignore_case(trim(&v[from..c]), tok) {
            return true;
        }
        if c >= v.len() {
            return false;
        }
        from = c + 1;
    }
}

/// Gives the last comma-separated element of `v`, trimmed.
pub fn list_last(v: &[u8]) -> (r: &[u8])
    ensures
        r@ == spec_list_last(v@),
{
    let start: usize = match rfind_byte(v, COMMA) {
        Some(i) => i + 1,
        None => 0,
    };
    trim(&v[start..v.len()])
}

/// Tells whether some line named `name` lists `tok`.
pub fn has_token(headers: &Headers, name: &[u8], tok: &[u8]) -> (r: bool)
    ensures
        r == spec_has_token(headers@, name@, tok@),
{
    let mut i: usize = 0;
    while i < headers.len()
        invariant
            i <= headers@.len(),
            forall|j: int|
                0 <= j < i ==> !(spec_eq_ignore_case(#[trigger] headers@[j].0, name@)
                    && spec_list_has(headers@[j].1, tok@)),
        decreases headers@.len() - i,
    {
        if eq_ignore_case(headers.name_at(i), name) && list_has(headers.value_at(i), tok) {
            assert(spec_eq_ignore_case(headers@[i as int].0, name@));
            return true;
        }
        i += 1;
    }
    false
}

/// Gives the value of the last line named `name`.
pub fn last_value<'a>(headers: &'a Headers, name: &[u8]) -> (r: Option<&'a [u8]>)
    ensures
        match r {
            Some(v) => spec_last_value(headers@, name@) == Some(v@),
            None => spec_last_value(headers@, name@).is_none(),
        },
{
    let mut i: usize = headers.len();
    assert(headers@.take(i as int) =~= headers@);
    while i > 0
        invariant
            i <= headers@.len(),
            spec_last_value(headers@, name@) == spec_last_value(headers@.take(i as int), name@),
        decreases i,
    {
        if eq_ignore_case(headers.name_at(i - 1), name) {
            return Some(headers.value_at(i - 1));
        }
        assert(headers@.take(i as int).drop_last() =~= headers@.take(i as int - 1));
        i -= 1;
    }
    None
}

/// Tells whether the headers have a `Transfer-Encoding` whose final coding is
/// `chunked`.
pub fn is_chunked(headers: &Headers) -> (r: bool)
    ensures
        r == spec_is_chunked(headers@),
{
    let name = transfer_encoding_name();
    let chunked = chunked_token();
    match last_value(headers, &name) {
        Some(v) => eq_ignore_case(list_last(v), &chunked),
        None => false,
    }
}

/// Tells whether the headers ask for `100 Continue`.
pub fn expects_continue(headers: &Headers) -> (r: bool)
    ensures
        r == spec_expects_continue(headers@),
{
    let name = expect_name();
    let token = continue_token();
    match headers.get_raw(&name) {
        Some(v) => eq_ignore_case(trim(v), &token),
        None => false,
    }
}

/// Reads what the `Content-Length` lines declare together.
pub fn content_length(headers: &Headers) -> (r: Result<Option<u64>, Error>)
    ensures
        r == spec_content_length(headers@),
{
    let name = content_length_name();
    let mut first: Option<u64> = None;
    let mut malformed = false;
    let mut conflicting = false;
    let ghost h = headers@;
    let ghost mut vals: Seq<Seq<u8>> = Seq::empty();
    let mut n: usize = 0;
    assert(h.take(0) =~= Seq::<(Seq<u8>, Seq<u8>)>::empty());
    while n < headers.len()
        invariant
            n <= h.len(),
            h == headers@,
            name@ == spec_content_length_name(),
            vals == spec_values(h.take(n as int), spec_content_length_name()),
            vals.len() == 0 ==> first.is_none() && !malformed && !conflicting,
            malformed <==> exists|i: int|
                0 <= i < vals.len() && spec_length_of(#[trigger] vals[i]).is_none(),
            !malformed && vals.len() > 0 ==> first == spec_length_of(vals[0]),
            !malformed ==> (conflicting <==> exists|i: int|
                0 <= i < vals.len() && spec_length_of(#[trigger] vals[i]) != spec_length_of(vals[0])),
        decreases h.len() - n,
    {
        proof {
            assert(h.take(n as int + 1).drop_last() =~= h.take(n as int));
            assert(h.take(n as int + 1).last() == h[n as int]);
        }
        if eq_ignore_case(headers.name_at(n), &name) {
            let ghost prior = vals;
            let ghost was_malformed = malformed;
            let ghost was_conflicting = conflicting;
            let ghost k = prior.len() as int;
            proof {
                vals = vals.push(h[n as int].1);
            }
            match parse_decimal(trim(headers.value_at(n))) {
                None => {
                    malformed = true;
                },
                Some(v) => {
                    match first {
                        None => {
                            first = Some(v);
                        },
                        Some(u) => {
                            if u != v {
                                conflicting = true;
                            }
                        },
                    }
                },
            }
            proof {
                assert(vals[k] == h[n as int].1);
                if k > 0 {
                    assert(vals[0] == prior[0]);
                }
                if malformed {
                    if was_malformed {
                        let w = choose|i: int|
                            0 <= i < prior.len() && spec_length_of(#[trigger] prior[i]).is_none();
                        assert(vals[w] == prior[w]);
                        assert(spec_length_of(vals[w]).is_none());
                    } else {
                        assert(spec_length_of(vals[k]).is_none());
                    }
                } else {
                    assert forall|i: int| 0 <= i < vals.len() implies spec_length_of(
                        #[trigger] vals[i],
                    ).is_some() by {
                        if i < k {
                            assert(vals[i] == prior[i]);
                        }
                    }
                    if conflicting {
                        if was_conflicting {
                            let w = choose|i: int|
                                0 <= i < prior.len() && spec_length_of(#[trigger] prior[i])
                                    != spec_length_of(prior[0]);
                            assert(vals[w] == prior[w]);
                            assert(spec_length_of(vals[w]) != spec_length_of(vals[0]));
                        } else {
                            assert(spec_length_of(vals[k]) != spec_length_of(vals[0]));
                        }
                    } else {
                        assert forall|i: int| 0 <= i < vals.len() implies spec_length_of(
                            #[trigger] vals[i],
                        ) == spec_length_of(vals[0]) by {
                            if i < k {
                                assert(vals[i] == prior[i]);
                            }
                        }
                    }
                }
            }
        }
        n += 1;
    }
    assert(h.take(n as int) =~= h);
    if n == 0 || (first.is_none() && !malformed) {
        Ok(None)
    } else if malformed {
        Err(Error::Header)
    } else if conflicting {
        Err(Error::Framing)
    } else {
        Ok(first)
    }
}

/// The `Connection` header with one option.
#[derive(Clone, Copy, Debug, PartialEq, Eq, Structural)]
pub enum Connection {
    /// `Connection: close`
    Close,
    /// `Connection: keep-alive`
    KeepAlive,
}

impl Connection {
    /// `Connection: close`.
    pub fn close() -> (r: Connection)
        ensures
            r == Connection::Close,
    {
        Connection::Close
    }

    /// `Connection: keep-alive`.
    pub fn keep_alive() -> (r: Connection)
        ensures
            r == Connection::KeepAlive,
    {
        Connection::KeepAlive
    }
}

impl Header for Connection {
    open spec fn spec_name(&self) -> Seq<u8> {
        spec_connection_name()
    }

    open spec fn spec_value(&self) -> Seq<u8> {
        match self {
            Connection::Close => spec_close_token(),
            Connection::KeepAlive => spec_keep_alive_token(),
        }
    }

    fn header_name(&self) -> (r: Vec<u8>) {
        to_vec(&connection_name())
    }

    fn header_value(&self) -> (r: Vec<u8>) {
        match self {
            Connection::Close => to_vec(&close_token()),
            Connection::KeepAlive => to_vec(&keep_alive_token()),
        }
    }
}

/// The `Expect` header.
#[derive(Clone, Copy, Debug, PartialEq, Eq, Structural)]
pub enum Expect {
    /// `Expect: 100-continue`
    Continue,
}

impl Header for Expect {
    open spec fn spec_name(&self) -> Seq<u8> {
        spec_expect_name()
    }

    open spec fn spec_value(&self) -> Seq<u8> {
        spec_continue_token()
    }

    fn header_name(&self) -> (r: Vec<u8>) {
        to_vec(&expect_name())
    }

    fn header_value(&self) -> (r: Vec<u8>) {
        to_vec(&continue_token())
    }
}

/// The `Content-Length` header.
#[derive(Clone, Copy, Debug, PartialEq, Eq, Structural)]
pub struct ContentLength(pub u64);

impl Header for ContentLength {
    open spec fn spec_name(&self) -> Seq<u8> {
        spec_content_length_name()
    }

    open spec fn spec_value(&self) -> Seq<u8> {
        spec_decimal_digits(self.0 as nat)
    }

    fn header_name(&self) -> (r: Vec<u8>) {
        to_vec(&content_length_name())
    }

    fn header_value(&self) -> (r: Vec<u8>) {
        decimal_digits(self.0)
    }
}

/// The `Transfer-Encoding` header.
#[derive(Clone, Copy, Debug, PartialEq, Eq, Structural)]
pub enum TransferEncoding {
    /// `Transfer-Encoding: chunked`
    Chunked,
}

impl TransferEncoding {
    /// `Transfer-Encoding: chunked`.
    pub fn chunked() -> (r: TransferEncoding)
        ensures
            r == TransferEncoding::Chunked,
    {
        TransferEncoding::Chunked
    }
}

impl Header for TransferEncoding {
    open spec fn spec_name(&self) -> Seq<u8> {
        spec_transfer_encoding_name()
    }

    open spec fn spec_value(&self) -> Seq<u8> {
        spec_chunked_token()
    }

    fn header_name(&self) -> (r: Vec<u8>) {
        to_vec(&transfer_encoding_name())
    }

    fn header_value(&self) -> (r: Vec<u8>) {
        to_vec(&chunked_token())
    }
}

/// Whether no line of `h` is named `name`.
pub open spec fn spec_lacks(h: Lines, name: Seq<u8>) -> bool {
    forall|i: int| 0 <= i < h.len() ==> !spec_eq_ignore_case(#[trigger] h[i].0, name)
}

/// What is left when the lines of a name are removed has no line of that
/// name, and lacks every name that was lacking before.
pub proof fn lemma_without_lacks(h: Lines, name: Seq<u8>, other: Seq<u8>)
    ensures
        spec_lacks(spec_without(h, name), name),
        spec_lacks(h, other) ==> spec_lacks(spec_without(h, name), other),
    decreases h.len(),
{
    if h.len() > 0 {
        lemma_without_lacks(h.drop_last(), name, other);
        let w = spec_without(h.drop_last(), name);
        if spec_lacks(h, other) {
            assert forall|i: int| 0 <= i < h.drop_last().len() implies !spec_eq_ignore_case(
                #[trigger] h.drop_last()[i].0,
                other,
            ) by {
                assert(h.drop_last()[i] == h[i]);
            }
            assert(!spec_eq_ignore_case(h[h.len() - 1].0, other));
        }
        if !spec_eq_ignore_case(h.last().0, name) {
            let g = w.push(h.last());
            assert forall|i: int| 0 <= i < g.len() implies !spec_eq_ignore_case(
                #[trigger] g[i].0,
                name,
            ) by {
                if i < w.len() {
                    assert(g[i] == w[i]);
                }
            }
            if spec_lacks(h, other) {
                assert forall|i: int| 0 <= i < g.len() implies !spec_eq_ignore_case(
                    #[trigger] g[i].0,
                    other,
                ) by {
                    if i < w.len() {
                        assert(g[i] == w[i]);
                    }
                }
            }
        }
    }
}

/// Headers that lack a name have no last value and no values of that name.
pub proof fn lemma_lacks_values(h: Lines, name: Seq<u8>)
    requires
        spec_lacks(h, name),
    ensures
        spec_last_value(h, name).is_none(),
        spec_values(h, name).len() == 0,
        !spec_has(h, name),
    decreases h.len(),
{
    if h.len() > 0 {
        assert(!spec_eq_ignore_case(h[h.len() - 1].0, name));
        assert forall|i: int| 0 <= i < h.drop_last().len() implies !spec_eq_ignore_case(
            #[trigger] h.drop_last()[i].0,
            name,
        ) by {
            assert(h.drop_last()[i] == h[i]);
        }
        lemma_lacks_values(h.drop_last(), name);
    }
}

/// Trimming makes a byte string no longer.
pub proof fn lemma_trim_len(s: Seq<u8>)
    ensures
        spec_trim_start(s).len() <= s.len(),
        spec_trim_end(s).len() <= s.len(),
        spec_trim(s).len() <= s.len(),
    decreases s.len(),
{
    if s.len() > 0 {
        lemma_trim_len(s.skip(1));
        lemma_trim_len(s.drop_last());
    }
    lemma_trim_end_len(spec_trim_start(s));
}

/// Trimming the end makes a byte string no longer.
pub proof fn lemma_trim_end_len(s: Seq<u8>)
    ensures
        spec_trim_end(s).len() <= s.len(),
    decreases s.len(),
{
    if s.len() > 0 {
        lemma_trim_end_len(s.drop_last());
    }
}

/// A list that is shorter than a token does not hold it.
pub proof fn lemma_list_short(v: Seq<u8>, tok: Seq<u8>, from: int)
    requires
        v.len() < tok.len(),
    ensures
        !spec_list_has_from(v, tok, from),
    decreases v.len() - from,
{
    if 0 <= from <= v.len() {
        let c = spec_find_byte(v, COMMA, from);
        lemma_find_byte(v, COMMA, from);
        lemma_trim_len(v.subrange(from, c));
        if c < v.len() {
            lemma_list_short(v, tok, c + 1);
        }
    }
}

/// A token that holds neither a comma nor white space at its ends, standing
/// alone as a value, is the one element of the list, whatever the case of
/// its letters.
pub proof fn lemma_list_of_one(v: Seq<u8>, tok: Seq<u8>)
    requires
        v.len() > 0,
        forall|j: int| 0 <= j < v.len() ==> v[j] != COMMA,
        !spec_is_ows(v[0]),
        !spec_is_ows(v.last()),
    ensures
        spec_list_has(v, tok) == spec_eq_ignore_case(v, tok),
{
    lemma_find_byte(v, COMMA, 0);
    assert(spec_find_byte(v, COMMA, 0) == v.len());
    assert(v.subrange(0, v.len() as int) =~= v);
}

/// The value of the first line of a name, where only the last line has it.
pub proof fn lemma_first_value_last(h: Lines, name: Seq<u8>, value: Seq<u8>)
    requires
        spec_lacks(h, name),
    ensures
        spec_first_value(h.push((name, value)), name) == Some(value),
    decreases h.len(),
{
    let g = h.push((name, value));
    assert(spec_eq_ignore_case(name, name));
    if h.len() > 0 {
        assert(g[0] == h[0]);
        assert(!spec_eq_ignore_case(h[0].0, name));
        assert(g.skip(1) =~= h.skip(1).push((name, value)));
        assert forall|i: int| 0 <= i < h.skip(1).len() implies !spec_eq_ignore_case(
            #[trigger] h.skip(1)[i].0,
            name,
        ) by {
            assert(h.skip(1)[i] == h[i + 1]);
        }
        lemma_first_value_last(h.skip(1), name, value);
    }
}

/// Setting the `Connection` header decides which options the headers list:
/// afterwards they have a `Connection` header, and it lists `close` or
/// `keep-alive` according to what was set, and not the other.
pub proof fn lemma_connection_set(h: Lines, c: Connection)
    ensures
        ({
            let name = spec_connection_name();
            let after = spec_without(h, name).push((name, c.spec_value()));
            &&& spec_has(after, name)
            &&& spec_has_token(after, name, spec_close_token()) == (c == Connection::Close)
            &&& spec_has_token(after, name, spec_keep_alive_token()) == (c == Connection::KeepAlive)
        }),
{
    let name = spec_connection_name();
    let close = spec_close_token();
    let keep = spec_keep_alive_token();
    let w = spec_without(h, name);
    let after = w.push((name, c.spec_value()));
    let last = w.len() as int;
    lemma_without_lacks(h, name, name);
    assert(after[last] == (name, c.spec_value()));
    assert(spec_eq_ignore_case(name, name));
    assert(spec_eq_ignore_case(after[last].0, name));
    assert forall|j: int| 0 <= j < close.len() implies close[j] != COMMA by {}
    assert forall|j: int| 0 <= j < keep.len() implies keep[j] != COMMA by {}
    lemma_list_of_one(close, close);
    lemma_list_of_one(close, keep);
    lemma_list_of_one(keep, close);
    lemma_list_of_one(keep, keep);
    assert(spec_eq_ignore_case(close, close));
    assert(spec_eq_ignore_case(keep, keep));
    assert forall|i: int| 0 <= i < last implies !spec_eq_ignore_case(
        #[trigger] after[i].0,
        name,
    ) by {
        assert(after[i] == w[i]);
    }
}

/// Setting the `Expect` header makes the headers ask for `100 Continue`.
pub proof fn lemma_expect_set(h: Lines)
    ensures
        spec_expects_continue(
            spec_without(h, spec_expect_name()).push((spec_expect_name(), spec_continue_token())),
        ),
{
    let name = spec_expect_name();
    let tok = spec_continue_token();
    lemma_without_lacks(h, name, name);
    lemma_first_value_last(spec_without(h, name), name, tok);
    assert(!spec_is_ows(tok[0]));
    assert(!spec_is_ows(tok.last()));
    assert(spec_trim_start(tok) == tok);
    assert(spec_trim_end(tok) == tok);
    assert(spec_eq_ignore_case(tok, tok));
}

/// The value that a `Content-Length` header writes declares its length.
pub proof fn lemma_content_length_written(n: u64)
    ensures
        spec_length_of(spec_decimal_digits(n as nat)) == Some(n),
{
    let d = spec_decimal_digits(n as nat);
    lemma_decimal_round_trip(n as nat);
    assert(spec_is_digit(d[0]));
    assert(spec_is_digit(d.last()));
    assert(spec_trim_start(d) == d);
    assert(spec_trim_end(d) == d);
}

} // verus!
