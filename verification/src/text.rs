//! Byte-level vocabulary shared by the head parser, the header collection and
//! the body codecs: case folding, searching, trimming, and numbers in decimal
//! and hexadecimal notation.
//!
//! Everything here works on raw bytes. Each executable function is paired with
//! a specification function over `Seq<u8>` that says what it computes.

use vstd::prelude::*;

verus! {

/// Carriage return.
pub const CR: u8 = 13;

/// Line feed.
pub const LF: u8 = 10;

/// Space.
pub const SP: u8 = 32;

/// Horizontal tab.
pub const HTAB: u8 = 9;

/// The ASCII lower-case form of a byte; bytes other than `A`..`Z` are unchanged.
pub open spec fn spec_lower(b: u8) -> u8 {
    if 'A' as u8 <= b && b <= 'Z' as u8 {
        (b + 32) as u8
    } else {
        b
    }
}

/// Whether two byte strings are equal when ASCII letters are compared without case.
pub open spec fn spec_eq_ignore_case(a: Seq<u8>, b: Seq<u8>) -> bool {
    &&& a.len() == b.len()
    &&& forall|i: int| 0 <= i < a.len() ==> spec_lower(#[trigger] a[i]) == spec_lower(b[i])
}

/// Optional white space: a space or a horizontal tab.
pub open spec fn spec_is_ows(b: u8) -> bool {
    b == SP || b == HTAB
}

/// A decimal digit.
pub open spec fn spec_is_digit(b: u8) -> bool {
    '0' as u8 <= b && b <= '9' as u8
}

/// A hexadecimal digit of either case.
pub open spec fn spec_is_hex(b: u8) -> bool {
    ||| spec_is_digit(b)
    ||| ('a' as u8 <= b && b <= 'f' as u8)
    ||| ('A' as u8 <= b && b <= 'F' as u8)
}

/// A character that may appear in a token: a letter, a digit, or one of
/// ``! # $ % & ' * + - . ^ _ ` | ~``.
pub open spec fn spec_is_tchar(b: u8) -> bool {
    ||| spec_is_digit(b)
    ||| ('a' as u8 <= b && b <= 'z' as u8)
    ||| ('A' as u8 <= b && b <= 'Z' as u8)
    ||| b == '!' as u8
    ||| ('#' as u8 <= b && b <= '\'' as u8)
    ||| b == '*' as u8
    ||| b == '+' as u8
    ||| b == '-' as u8
    ||| b == '.' as u8
    ||| ('^' as u8 <= b && b <= '`' as u8)
    ||| b == '|' as u8
    ||| b == '~' as u8
}

/// A byte that may appear in a field value or a reason phrase: anything but a
/// control character, the horizontal tab excepted.
pub open spec fn spec_is_field_byte(b: u8) -> bool {
    b == HTAB || (b >= SP && b != 127)
}

/// A visible ASCII character, `!` to `~`.
pub open spec fn spec_is_visible(b: u8) -> bool {
    '!' as u8 <= b && b <= '~' as u8
}

/// Every byte of `s` is a token character.
pub open spec fn spec_all_tchar(s: Seq<u8>) -> bool {
    forall|i: int| 0 <= i < s.len() ==> spec_is_tchar(#[trigger] s[i])
}

/// Every byte of `s` may appear in a field value.
pub open spec fn spec_all_field_bytes(s: Seq<u8>) -> bool {
    forall|i: int| 0 <= i < s.len() ==> spec_is_field_byte(#[trigger] s[i])
}

/// Every byte of `s` is a visible ASCII character.
pub open spec fn spec_all_visible(s: Seq<u8>) -> bool {
    forall|i: int| 0 <= i < s.len() ==> spec_is_visible(#[trigger] s[i])
}

/// Every byte of `s` is a decimal digit.
pub open spec fn spec_all_digits(s: Seq<u8>) -> bool {
    forall|i: int| 0 <= i < s.len() ==> spec_is_digit(#[trigger] s[i])
}

/// Every byte of `s` is a hexadecimal digit.
pub open spec fn spec_all_hex(s: Seq<u8>) -> bool {
    forall|i: int| 0 <= i < s.len() ==> spec_is_hex(#[trigger] s[i])
}

/// The index of the first `b` in `s` at or after `from`, or `s.len()` when
/// there is none.
pub open spec fn spec_find_byte(s: Seq<u8>, b: u8, from: int) -> int
    decreases s.len() - from,
{
    if from < 0 || from >= s.len() {
        s.len() as int
    } else if s[from] == b {
        from
    } else {
        spec_find_byte(s, b, from + 1)
    }
}

/// The index of the last `b` in the first `to` bytes of `s`, or `-1` when
/// there is none.
pub open spec fn spec_rfind_byte(s: Seq<u8>, b: u8, to: int) -> int
    decreases to,
{
    if to <= 0 || to > s.len() {
        -1
    } else if s[to - 1] == b {
        to - 1
    } else {
        spec_rfind_byte(s, b, to - 1)
    }
}

/// The index of the first CR LF pair in `s` that starts at or after `from`.
pub open spec fn spec_find_crlf(s: Seq<u8>, from: int) -> Option<int>
    decreases s.len() - from,
{
    if from < 0 || from + 1 >= s.len() {
        None
    } else if s[from] == CR && s[from + 1] == LF {
        Some(from)
    } else {
        spec_find_crlf(s, from + 1)
    }
}

/// `s` without its leading optional white space.
pub open spec fn spec_trim_start(s: Seq<u8>) -> Seq<u8>
    decreases s.len(),
{
    if s.len() > 0 && spec_is_ows(s[0]) {
        spec_trim_start(s.skip(1))
    } else {
        s
    }
}

/// `s` without its trailing optional white space.
pub open spec fn spec_trim_end(s: Seq<u8>) -> Seq<u8>
    decreases s.len(),
{
    if s.len() > 0 && spec_is_ows(s.last()) {
        spec_trim_end(s.drop_last())
    } else {
        s
    }
}

/// `s` without optional white space at either end.
pub open spec fn spec_trim(s: Seq<u8>) -> Seq<u8> {
    spec_trim_end(spec_trim_start(s))
}

/// The value of a decimal digit; zero for any other byte.
pub open spec fn spec_digit_value(b: u8) -> nat {
    if spec_is_digit(b) {
        (b - '0' as u8) as nat
    } else {
        0
    }
}

/// The number written by the digits of `s`, most significant first.
pub open spec fn spec_decimal(s: Seq<u8>) -> nat
    decreases s.len(),
{
    if s.len() == 0 {
        0
    } else {
        spec_decimal(s.drop_last()) * 10 + spec_digit_value(s.last())
    }
}

/// The number that `s` writes in decimal: `s` is one or more digits and the
/// number fits in 64 bits.
pub open spec fn spec_parse_decimal(s: Seq<u8>) -> Option<u64> {
    if s.len() > 0 && spec_all_digits(s) && spec_decimal(s) <= u64::MAX {
        Some(spec_decimal(s) as u64)
    } else {
        None
    }
}

/// The value of a hexadecimal digit of either case; zero for any other byte.
pub open spec fn spec_hex_digit_value(b: u8) -> nat {
    if spec_is_digit(b) {
        (b - '0' as u8) as nat
    } else if 'a' as u8 <= b && b <= 'f' as u8 {
        (b - 'a' as u8 + 10) as nat
    } else if 'A' as u8 <= b && b <= 'F' as u8 {
        (b - 'A' as u8 + 10) as nat
    } else {
        0
    }
}

/// The number written by the hexadecimal digits of `s`, most significant first.
pub open spec fn spec_hex_value(s: Seq<u8>) -> nat
    decreases s.len(),
{
    if s.len() == 0 {
        0
    } else {
        spec_hex_value(s.drop_last()) * 16 + spec_hex_digit_value(s.last())
    }
}

/// The number that `s` writes in hexadecimal: `s` is one or more hexadecimal
/// digits and the number fits in 64 bits.
pub open spec fn spec_parse_hex(s: Seq<u8>) -> Option<u64> {
    if s.len() > 0 && spec_all_hex(s) && spec_hex_value(s) <= u64::MAX {
        Some(spec_hex_value(s) as u64)
    } else {
        None
    }
}

/// The upper-case hexadecimal digit for a value below sixteen.
pub open spec fn spec_hex_digit(d: nat) -> u8 {
    if d < 10 {
        ('0' as u8 + d) as u8
    } else {
        ('A' as u8 + d - 10) as u8
    }
}

/// `n` in upper-case hexadecimal without leading zeros; zero is written `0`.
pub open spec fn spec_hex(n: nat) -> Seq<u8>
    decreases n,
{
    if n < 16 {
        seq![spec_hex_digit(n)]
    } else {
        spec_hex(n / 16).push(spec_hex_digit(n % 16))
    }
}

/// The decimal digit for a value below ten.
pub open spec fn spec_decimal_digit(d: nat) -> u8 {
    ('0' as u8 + d) as u8
}

/// `n` in decimal without leading zeros; zero is written `0`.
pub open spec fn spec_decimal_digits(n: nat) -> Seq<u8>
    decreases n,
{
    if n < 10 {
        seq![spec_decimal_digit(n)]
    } else {
        spec_decimal_digits(n / 10).push(spec_decimal_digit(n % 10))
    }
}

/// Where `spec_find_byte` lands: at or after `from`, on the first `b` there is.
pub proof fn lemma_find_byte(s: Seq<u8>, b: u8, from: int)
    requires
        0 <= from <= s.len(),
    ensures
        from <= spec_find_byte(s, b, from) <= s.len(),
        spec_find_byte(s, b, from) < s.len() ==> s[spec_find_byte(s, b, from)] == b,
        forall|j: int| from <= j < spec_find_byte(s, b, from) ==> s[j] != b,
    decreases s.len() - from,
{
    if from < s.len() && s[from] != b {
        lemma_find_byte(s, b, from + 1);
    }
}

/// Where `spec_find_crlf` lands: on the first CR LF pair at or after `from`.
pub proof fn lemma_find_crlf(s: Seq<u8>, from: int)
    requires
        0 <= from,
    ensures
        match spec_find_crlf(s, from) {
            Some(e) => {
                &&& from <= e
                &&& e + 1 < s.len()
                &&& s[e] == CR
                &&& s[e + 1] == LF
                &&& forall|j: int| from <= j < e ==> !(#[trigger] s[j] == CR && s[j + 1] == LF)
            },
            None => forall|j: int| from <= j && j + 1 < s.len() ==> !(#[trigger] s[j] == CR && s[j + 1] == LF),
        },
    decreases s.len() - from,
{
    if from + 1 < s.len() && !(s[from] == CR && s[from + 1] == LF) {
        lemma_find_crlf(s, from + 1);
    }
}

/// A CR LF pair at `e` with none before it, from `from` on, is the one that
/// `spec_find_crlf` finds.
pub proof fn lemma_find_crlf_at(s: Seq<u8>, from: int, e: int)
    requires
        0 <= from <= e,
        e + 1 < s.len(),
        s[e] == CR,
        s[e + 1] == LF,
        forall|j: int| from <= j < e ==> s[j] != CR,
    ensures
        spec_find_crlf(s, from) == Some(e),
    decreases e - from,
{
    if from < e {
        lemma_find_crlf_at(s, from + 1, e);
    }
}

/// A prefix writes no larger a number than the whole.
pub proof fn lemma_decimal_prefix(s: Seq<u8>, k: int)
    requires
        0 <= k <= s.len(),
    ensures
        spec_decimal(s.take(k)) <= spec_decimal(s),
    decreases s.len() - k,
{
    if k < s.len() {
        lemma_decimal_prefix(s.drop_last(), k);
        assert(s.drop_last().take(k) =~= s.take(k));
    } else {
        assert(s.take(k) =~= s);
    }
}

/// A prefix writes no larger a number than the whole.
pub proof fn lemma_hex_prefix(s: Seq<u8>, k: int)
    requires
        0 <= k <= s.len(),
    ensures
        spec_hex_value(s.take(k)) <= spec_hex_value(s),
    decreases s.len() - k,
{
    if k < s.len() {
        lemma_hex_prefix(s.drop_last(), k);
        assert(s.drop_last().take(k) =~= s.take(k));
    } else {
        assert(s.take(k) =~= s);
    }
}

/// The hexadecimal notation of a number is one or more hexadecimal digits
/// that write that number.
pub proof fn lemma_hex_round_trip(n: nat)
    ensures
        spec_hex(n).len() > 0,
        spec_all_hex(spec_hex(n)),
        spec_hex_value(spec_hex(n)) == n,
    decreases n,
{
    if n < 16 {
        let s = spec_hex(n);
        assert(s.drop_last() =~= Seq::<u8>::empty());
        assert(spec_hex_value(s.drop_last()) == 0);
    } else {
        lemma_hex_round_trip(n / 16);
        let head = spec_hex(n / 16);
        let s = spec_hex(n);
        assert(s.drop_last() =~= head);
        assert(s.last() == spec_hex_digit(n % 16));
        assert forall|i: int| 0 <= i < s.len() implies spec_is_hex(#[trigger] s[i]) by {
            if i < head.len() {
                assert(s[i] == head[i]);
            }
        }
    }
}

/// The decimal notation of a number is one or more digits that write that
/// number.
pub proof fn lemma_decimal_round_trip(n: nat)
    ensures
        spec_decimal_digits(n).len() > 0,
        spec_all_digits(spec_decimal_digits(n)),
        spec_decimal(spec_decimal_digits(n)) == n,
    decreases n,
{
    if n < 10 {
        let s = spec_decimal_digits(n);
        assert(s.drop_last() =~= Seq::<u8>::empty());
        assert(spec_decimal(s.drop_last()) == 0);
    } else {
        lemma_decimal_round_trip(n / 10);
        let head = spec_decimal_digits(n / 10);
        let s = spec_decimal_digits(n);
        assert(s.drop_last() =~= head);
        assert(s.last() == spec_decimal_digit(n % 10));
        assert forall|i: int| 0 <= i < s.len() implies spec_is_digit(#[trigger] s[i]) by {
            if i < head.len() {
                assert(s[i] == head[i]);
            }
        }
    }
}

/// Folds an ASCII upper-case letter to lower case.
pub fn lower(b: u8) -> (r: u8)
    ensures
        r == spec_lower(b),
{
    if b >= 'A' as u8 && b <= 'Z' as u8 {
        b + 32
    } else {
        b
    }
}

/// Tells whether `b` is a space or a horizontal tab.
pub fn is_ows(b: u8) -> (r: bool)
    ensures
        r == spec_is_ows(b),
{
    b == SP || b == HTAB
}

/// Tells whether `b` is a decimal digit.
pub fn is_digit(b: u8) -> (r: bool)
    ensures
        r == spec_is_digit(b),
{
    b >= '0' as u8 && b <= '9' as u8
}

/// Tells whether `b` is a hexadecimal digit.
pub fn is_hex(b: u8) -> (r: bool)
    ensures
        r == spec_is_hex(b),
{
    is_digit(b) || (b >= 'a' as u8 && b <= 'f' as u8) || (b >= 'A' as u8 && b <= 'F' as u8)
}

/// Tells whether `b` may appear in a token.
pub fn is_tchar(b: u8) -> (r: bool)
    ensures
        r == spec_is_tchar(b),
{
    is_digit(b) || (b >= 'a' as u8 && b <= 'z' as u8) || (b >= 'A' as u8 && b <= 'Z' as u8)
        || b == '!' as u8 || (b >= '#' as u8 && b <= '\'' as u8) || b == '*' as u8 || b == '+' as u8
        || b == '-' as u8 || b == '.' as u8 || (b >= '^' as u8 && b <= '`' as u8) || b == '|' as u8
        || b == '~' as u8
}

/// Compares two byte strings without regard to the case of ASCII letters.
pub fn eq_ignore_case(a: &[u8], b: &[u8]) -> (r: bool)
    ensures
        r == spec_eq_ignore_case(a@, b@),
{
    if a.len() != b.len() {
        return false;
    }
    let mut i: usize = 0;
    while i < a.len()
        invariant
            a.len() == b.len(),
            i <= a.len(),
            forall|j: int| 0 <= j < i ==> spec_lower(#[trigger] a@[j]) == spec_lower(b@[j]),
        decreases a.len() - i,
    {
        if lower(a[i]) != lower(b[i]) {
            return false;
        }
        i += 1;
    }
    true
}

/// Compares two byte strings byte for byte.
pub fn eq_bytes(a: &[u8], b: &[u8]) -> (r: bool)
    ensures
        r == (a@ == b@),
{
    if a.len() != b.len() {
        return false;
    }
    let mut i: usize = 0;
    while i < a.len()
        invariant
            a.len() == b.len(),
            i <= a.len(),
            forall|j: int| 0 <= j < i ==> a@[j] == b@[j],
        decreases a.len() - i,
    {
        if a[i] != b[i] {
            return false;
        }
        i += 1;
    }
    assert(a@ =~= b@);
    true
}

/// Copies a byte string into a vector of its own.
pub fn to_vec(s: &[u8]) -> (r: Vec<u8>)
    ensures
        r@ == s@,
{
    let mut v: Vec<u8> = Vec::new();
    v.extend_from_slice(s);
    assert(v@ =~= s@);
    v
}

/// Appends a byte string to a vector.
pub fn extend(dst: &mut Vec<u8>, s: &[u8])
    ensures
        final(dst)@ == old(dst)@ + s@,
{
    dst.extend_from_slice(s);
    assert(dst@ =~= old(dst)@ + s@);
}

/// Tells whether every byte of `s` may appear in a token.
pub fn all_tchar(s: &[u8]) -> (r: bool)
    ensures
        r == spec_all_tchar(s@),
{
    let mut i: usize = 0;
    while i < s.len()
        invariant
            i <= s.len(),
            forall|j: int| 0 <= j < i ==> spec_is_tchar(#[trigger] s@[j]),
        decreases s.len() - i,
    {
        if !is_tchar(s[i]) {
            return false;
        }
        i += 1;
    }
    true
}

/// Tells whether every byte of `s` may appear in a field value.
pub fn all_field_bytes(s: &[u8]) -> (r: bool)
    ensures
        r == spec_all_field_bytes(s@),
{
    let mut i: usize = 0;
    while i < s.len()
        invariant
            i <= s.len(),
            forall|j: int| 0 <= j < i ==> spec_is_field_byte(#[trigger] s@[j]),
        decreases s.len() - i,
    {
        let b = s[i];
        if !(b == HTAB || (b >= SP && b != 127)) {
            return false;
        }
        i += 1;
    }
    true
}

/// Tells whether every byte of `s` is a visible ASCII character.
pub fn all_visible(s: &[u8]) -> (r: bool)
    ensures
        r == spec_all_visible(s@),
{
    let mut i: usize = 0;
    while i < s.len()
        invariant
            i <= s.len(),
            forall|j: int| 0 <= j < i ==> spec_is_visible(#[trigger] s@[j]),
        decreases s.len() - i,
    {
        let b = s[i];
        if !(b >= '!' as u8 && b <= '~' as u8) {
            return false;
        }
        i += 1;
    }
    true
}

/// Finds the first `b` in `s` at or after `from`; gives `s.len()` when there
/// is none.
pub fn find_byte(s: &[u8], b: u8, from: usize) -> (r: usize)
    requires
        from <= s.len(),
    ensures
        r == spec_find_byte(s@, b, from as int),
        from <= r <= s.len(),
{
    let mut i: usize = from;
    while i < s.len() && s[i] != b
        invariant
            from <= i <= s.len(),
            spec_find_byte(s@, b, from as int) == spec_find_byte(s@, b, i as int),
        decreases s.len() - i,
    {
        i += 1;
    }
    i
}

/// Finds the last `b` in `s`.
pub fn rfind_byte(s: &[u8], b: u8) -> (r: Option<usize>)
    ensures
        match r {
            Some(i) => i == spec_rfind_byte(s@, b, s@.len() as int) && i < s.len(),
            None => spec_rfind_byte(s@, b, s@.len() as int) == -1,
        },
{
    let mut i: usize = s.len();
    while i > 0
        invariant
            i <= s.len(),
            spec_rfind_byte(s@, b, s@.len() as int) == spec_rfind_byte(s@, b, i as int),
        decreases i,
    {
        if s[i - 1] == b {
            return Some(i - 1);
        }
        i -= 1;
    }
    None
}

/// Finds the first CR LF pair in `s` that starts at or after `from`.
pub fn find_crlf(s: &[u8], from: usize) -> (r: Option<usize>)
    requires
        from <= s.len(),
    ensures
        match r {
            Some(e) => spec_find_crlf(s@, from as int) == Some(e as int) && from <= e && e + 1 < s.len(),
            None => spec_find_crlf(s@, from as int).is_none(),
        },
{
    let mut i: usize = from;
    while i < s.len() && i + 1 < s.len()
        invariant
            from <= i <= s.len(),
            spec_find_crlf(s@, from as int) == spec_find_crlf(s@, i as int),
        decreases s.len() - i,
    {
        if s[i] == CR && s[i + 1] == LF {
            return Some(i);
        }
        i += 1;
    }
    None
}

/// Strips optional white space from both ends of `s`.
pub fn trim(s: &[u8]) -> (r: &[u8])
    ensures
        r@ == spec_trim(s@),
{
    let mut a: usize = 0;
    assert(s@.skip(0) =~= s@);
    while a < s.len() && is_ows(s[a])
        invariant
            a <= s.len(),
            spec_trim_start(s@) == spec_trim_start(s@.skip(a as int)),
        decreases s.len() - a,
    {
        assert(s@.skip(a as int).skip(1) =~= s@.skip(a as int + 1));
        a += 1;
    }
    assert(spec_trim_start(s@) == s@.skip(a as int));
    assert(s@.skip(a as int) =~= s@.subrange(a as int, s@.len() as int));
    let mut b: usize = s.len();
    while b > a && is_ows(s[b - 1])
        invariant
            a <= b <= s.len(),
            spec_trim(s@) == spec_trim_end(s@.subrange(a as int, b as int)),
        decreases b,
    {
        assert(s@.subrange(a as int, b as int).drop_last() =~= s@.subrange(a as int, b as int - 1));
        b -= 1;
    }
    &s[a..b]
}

/// Reads a decimal number: one or more digits whose value fits in 64 bits.
pub fn parse_decimal(s: &[u8]) -> (r: Option<u64>)
    ensures
        r == spec_parse_decimal(s@),
{
    if s.len() == 0 {
        return None;
    }
    let mut acc: u64 = 0;
    let mut i: usize = 0;
    while i < s.len()
        invariant
            i <= s.len(),
            spec_all_digits(s@.take(i as int)),
            acc == spec_decimal(s@.take(i as int)),
        decreases s.len() - i,
    {
        let b = s[i];
        if !is_digit(b) {
            return None;
        }
        proof {
            assert(s@.take(i as int + 1).drop_last() =~= s@.take(i as int));
            lemma_decimal_prefix(s@, i as int + 1);
        }
        let d: u64 = (b - '0' as u8) as u64;
        if acc > 1844674407370955161 {
            return None;
        }
        let t: u64 = acc * 10;
        if t > u64::MAX - d {
            return None;
        }
        acc = t + d;
        i += 1;
    }
    assert(s@.take(i as int) =~= s@);
    Some(acc)
}

/// Reads a hexadecimal number: one or more digits of either case whose value
/// fits in 64 bits.
pub fn parse_hex(s: &[u8]) -> (r: Option<u64>)
    ensures
        r == spec_parse_hex(s@),
{
    if s.len() == 0 {
        return None;
    }
    let mut acc: u64 = 0;
    let mut i: usize = 0;
    while i < s.len()
        invariant
            i <= s.len(),
            spec_all_hex(s@.take(i as int)),
            acc == spec_hex_value(s@.take(i as int)),
        decreases s.len() - i,
    {
        let b = s[i];
        if !is_hex(b) {
            return None;
        }
        proof {
            assert(s@.take(i as int + 1).drop_last() =~= s@.take(i as int));
            lemma_hex_prefix(s@, i as int + 1);
        }
        let d: u64 = if is_digit(b) {
            (b - '0' as u8) as u64
        } else if b >= 'a' as u8 {
            (b - 'a' as u8 + 10) as u64
        } else {
            (b - 'A' as u8 + 10) as u64
        };
        if acc > 0x0fff_ffff_ffff_ffff {
            return None;
        }
        acc = acc * 16 + d;
        i += 1;
    }
    assert(s@.take(i as int) =~= s@);
    Some(acc)
}

/// Writes `n` in upper-case hexadecimal.
pub fn hex_digits(n: u64) -> (r: Vec<u8>)
    ensures
        r@ == spec_hex(n as nat),
    decreases n,
{
    let d: u8 = (n % 16) as u8;
    let c: u8 = if d < 10 {
        '0' as u8 + d
    } else {
        'A' as u8 + d - 10
    };
    if n < 16 {
        let mut v: Vec<u8> = Vec::new();
        v.push(c);
        assert(v@ =~= spec_hex(n as nat));
        v
    } else {
        let mut v = hex_digits(n / 16);
        v.push(c);
        v
    }
}

/// Writes `n` in decimal.
pub fn decimal_digits(n: u64) -> (r: Vec<u8>)
    ensures
        r@ == spec_decimal_digits(n as nat),
    decreases n,
{
    let c: u8 = '0' as u8 + (n % 10) as u8;
    if n < 10 {
        let mut v: Vec<u8> = Vec::new();
        v.push(c);
        assert(v@ =~= spec_decimal_digits(n as nat));
        v
    } else {
        let mut v = decimal_digits(n / 10);
        v.push(c);
        v
    }
}

} // verus!
