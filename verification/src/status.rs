//! The status code of a response.

use vstd::prelude::*;
use crate::text::{
    decimal_digits, extend, parse_decimal, spec_all_digits, spec_decimal, spec_decimal_digits,
    to_vec, SP,
};

verus! {

/// A status code. Codes from 100 to 999 can stand in a status line; the
/// library keeps any 16-bit number and classifies it by its hundreds.
#[derive(Clone, Copy, Debug, PartialEq, Eq, Structural)]
pub struct StatusCode(pub u16);

/// The reason phrase that goes with a code; empty for a code that has none
/// registered here.
pub open spec fn spec_reason(code: u16) -> Seq<u8> {
    if code == 100 {
        seq!['C' as u8, 'o' as u8, 'n' as u8, 't' as u8, 'i' as u8, 'n' as u8, 'u' as u8, 'e' as u8]
    }     else if code == 101 {
        seq!['S' as u8, 'w' as u8, 'i' as u8, 't' as u8, 'c' as u8, 'h' as u8, 'i' as u8, 'n' as u8, 'g' as u8, ' ' as u8, 'P' as u8, 'r' as u8, 'o' as u8, 't' as u8, 'o' as u8, 'c' as u8, 'o' as u8, 'l' as u8, 's' as u8]
    }     else if code == 200 {
        seq!['O' as u8, 'K' as u8]
    }     else if code == 201 {
        seq!['C' as u8, 'r' as u8, 'e' as u8, 'a' as u8, 't' as u8, 'e' as u8, 'd' as u8]
    }     else if code == 202 {
        seq!['A' as u8, 'c' as u8, 'c' as u8, 'e' as u8, 'p' as u8, 't' as u8, 'e' as u8, 'd' as u8]
    }     else if code == 204 {
        seq!['N' as u8, 'o' as u8, ' ' as u8, 'C' as u8, 'o' as u8, 'n' as u8, 't' as u8, 'e' as u8, 'n' as u8, 't' as u8]
    }     else if code == 206 {
        seq!['P' as u8, 'a' as u8, 'r' as u8, 't' as u8, 'i' as u8, 'a' as u8, 'l' as u8, ' ' as u8, 'C' as u8, 'o' as u8, 'n' as u8, 't' as u8, 'e' as u8, 'n' as u8, 't' as u8]
    }     else if code == 301 {
        seq!['M' as u8, 'o' as u8, 'v' as u8, 'e' as u8, 'd' as u8, ' ' as u8, 'P' as u8, 'e' as u8, 'r' as u8, 'm' as u8, 'a' as u8, 'n' as u8, 'e' as u8, 'n' as u8, 't' as u8, 'l' as u8, 'y' as u8]
    }     else if code == 302 {
        seq!['F' as u8, 'o' as u8, 'u' as u8, 'n' as u8, 'd' as u8]
    }     else if code == 303 {
        seq!['S' as u8, 'e' as u8, 'e' as u8, ' ' as u8, 'O' as u8, 't' as u8, 'h' as u8, 'e' as u8, 'r' as u8]
    }     else if code == 304 {
        seq!['N' as u8, 'o' as u8, 't' as u8, ' ' as u8, 'M' as u8, 'o' as u8, 'd' as u8, 'i' as u8, 'f' as u8, 'i' as u8, 'e' as u8, 'd' as u8]
    }     else if code == 307 {
        seq!['T' as u8, 'e' as u8, 'm' as u8, 'p' as u8, 'o' as u8, 'r' as u8, 'a' as u8, 'r' as u8, 'y' as u8, ' ' as u8, 'R' as u8, 'e' as u8, 'd' as u8, 'i' as u8, 'r' as u8, 'e' as u8, 'c' as u8, 't' as u8]
    }     else if code == 308 {
        seq!['P' as u8, 'e' as u8, 'r' as u8, 'm' as u8, 'a' as u8, 'n' as u8, 'e' as u8, 'n' as u8, 't' as u8, ' ' as u8, 'R' as u8, 'e' as u8, 'd' as u8, 'i' as u8, 'r' as u8, 'e' as u8, 'c' as u8, 't' as u8]
    }     else if code == 400 {
        seq!['B' as u8, 'a' as u8, 'd' as u8, ' ' as u8, 'R' as u8, 'e' as u8, 'q' as u8, 'u' as u8, 'e' as u8, 's' as u8, 't' as u8]
    }     else if code == 401 {
        seq!['U' as u8, 'n' as u8, 'a' as u8, 'u' as u8, 't' as u8, 'h' as u8, 'o' as u8, 'r' as u8, 'i' as u8, 'z' as u8, 'e' as u8, 'd' as u8]
    }     else if code == 403 {
        seq!['F' as u8, 'o' as u8, 'r' as u8, 'b' as u8, 'i' as u8, 'd' as u8, 'd' as u8, 'e' as u8, 'n' as u8]
    }     else if code == 404 {
        seq!['N' as u8, 'o' as u8, 't' as u8, ' ' as u8, 'F' as u8, 'o' as u8, 'u' as u8, 'n' as u8, 'd' as u8]
    }     else if code == 405 {
        seq!['M' as u8, 'e' as u8, 't' as u8, 'h' as u8, 'o' as u8, 'd' as u8, ' ' as u8, 'N' as u8, 'o' as u8, 't' as u8, ' ' as u8, 'A' as u8, 'l' as u8, 'l' as u8, 'o' as u8, 'w' as u8, 'e' as u8, 'd' as u8]
    }     else if code == 408 {
        seq!['R' as u8, 'e' as u8, 'q' as u8, 'u' as u8, 'e' as u8, 's' as u8, 't' as u8, ' ' as u8, 'T' as u8, 'i' as u8, 'm' as u8, 'e' as u8, 'o' as u8, 'u' as u8, 't' as u8]
    }     else if code == 409 {
        seq!['C' as u8, 'o' as u8, 'n' as u8, 'f' as u8, 'l' as u8, 'i' as u8, 'c' as u8, 't' as u8]
    }     else if code == 410 {
        seq!['G' as u8, 'o' as u8, 'n' as u8, 'e' as u8]
    }     else if code == 411 {
        seq!['L' as u8, 'e' as u8, 'n' as u8, 'g' as u8, 't' as u8, 'h' as u8, ' ' as u8, 'R' as u8, 'e' as u8, 'q' as u8, 'u' as u8, 'i' as u8, 'r' as u8, 'e' as u8, 'd' as u8]
    }     else if code == 413 {
        seq!['P' as u8, 'a' as u8, 'y' as u8, 'l' as u8, 'o' as u8, 'a' as u8, 'd' as u8, ' ' as u8, 'T' as u8, 'o' as u8, 'o' as u8, ' ' as u8, 'L' as u8, 'a' as u8, 'r' as u8, 'g' as u8, 'e' as u8]
    }     else if code == 414 {
        seq!['U' as u8, 'R' as u8, 'I' as u8, ' ' as u8, 'T' as u8, 'o' as u8, 'o' as u8, ' ' as u8, 'L' as u8, 'o' as u8, 'n' as u8, 'g' as u8]
    }     else if code == 417 {
        seq!['E' as u8, 'x' as u8, 'p' as u8, 'e' as u8, 'c' as u8, 't' as u8, 'a' as u8, 't' as u8, 'i' as u8, 'o' as u8, 'n' as u8, ' ' as u8, 'F' as u8, 'a' as u8, 'i' as u8, 'l' as u8, 'e' as u8, 'd' as u8]
    }     else if code == 426 {
        seq!['U' as u8, 'p' as u8, 'g' as u8, 'r' as u8, 'a' as u8, 'd' as u8, 'e' as u8, ' ' as u8, 'R' as u8, 'e' as u8, 'q' as u8, 'u' as u8, 'i' as u8, 'r' as u8, 'e' as u8, 'd' as u8]
    }     else if code == 431 {
        seq!['R' as u8, 'e' as u8, 'q' as u8, 'u' as u8, 'e' as u8, 's' as u8, 't' as u8, ' ' as u8, 'H' as u8, 'e' as u8, 'a' as u8, 'd' as u8, 'e' as u8, 'r' as u8, ' ' as u8, 'F' as u8, 'i' as u8, 'e' as u8, 'l' as u8, 'd' as u8, 's' as u8, ' ' as u8, 'T' as u8, 'o' as u8, 'o' as u8, ' ' as u8, 'L' as u8, 'a' as u8, 'r' as u8, 'g' as u8, 'e' as u8]
    }     else if code == 500 {
        seq!['I' as u8, 'n' as u8, 't' as u8, 'e' as u8, 'r' as u8, 'n' as u8, 'a' as u8, 'l' as u8, ' ' as u8, 'S' as u8, 'e' as u8, 'r' as u8, 'v' as u8, 'e' as u8, 'r' as u8, ' ' as u8, 'E' as u8, 'r' as u8, 'r' as u8, 'o' as u8, 'r' as u8]
    }     else if code == 501 {
        seq!['N' as u8, 'o' as u8, 't' as u8, ' ' as u8, 'I' as u8, 'm' as u8, 'p' as u8, 'l' as u8, 'e' as u8, 'm' as u8, 'e' as u8, 'n' as u8, 't' as u8, 'e' as u8, 'd' as u8]
    }     else if code == 502 {
        seq!['B' as u8, 'a' as u8, 'd' as u8, ' ' as u8, 'G' as u8, 'a' as u8, 't' as u8, 'e' as u8, 'w' as u8, 'a' as u8, 'y' as u8]
    }     else if code == 503 {
        seq!['S' as u8, 'e' as u8, 'r' as u8, 'v' as u8, 'i' as u8, 'c' as u8, 'e' as u8, ' ' as u8, 'U' as u8, 'n' as u8, 'a' as u8, 'v' as u8, 'a' as u8, 'i' as u8, 'l' as u8, 'a' as u8, 'b' as u8, 'l' as u8, 'e' as u8]
    }     else if code == 504 {
        seq!['G' as u8, 'a' as u8, 't' as u8, 'e' as u8, 'w' as u8, 'a' as u8, 'y' as u8, ' ' as u8, 'T' as u8, 'i' as u8, 'm' as u8, 'e' as u8, 'o' as u8, 'u' as u8, 't' as u8]
    }     else if code == 505 {
        seq!['H' as u8, 'T' as u8, 'T' as u8, 'P' as u8, ' ' as u8, 'V' as u8, 'e' as u8, 'r' as u8, 's' as u8, 'i' as u8, 'o' as u8, 'n' as u8, ' ' as u8, 'N' as u8, 'o' as u8, 't' as u8, ' ' as u8, 'S' as u8, 'u' as u8, 'p' as u8, 'p' as u8, 'o' as u8, 'r' as u8, 't' as u8, 'e' as u8, 'd' as u8]
    } else {
        Seq::<u8>::empty()
    }
}

/// The status code that three digits write, if they write one: exactly three
/// decimal digits, the first of them not zero.
pub open spec fn spec_status_from_digits(s: Seq<u8>) -> Option<StatusCode> {
    if s.len() == 3 && spec_all_digits(s) && spec_decimal(s) >= 100 {
        Some(StatusCode(spec_decimal(s) as u16))
    } else {
        None
    }
}

/// Whether a response with this status never has a body: every 1xx, 204 and
/// 304.
pub open spec fn spec_status_forbids_body(code: u16) -> bool {
    (100 <= code && code < 200) || code == 204 || code == 304
}

impl StatusCode {
    /// Whether the code can stand in a status line.
    pub open spec fn spec_valid(self) -> bool {
        100 <= self.0 && self.0 <= 999
    }

    /// The code followed by a space and its reason phrase, as in a status line.
    pub open spec fn spec_bytes(self) -> Seq<u8> {
        spec_decimal_digits(self.0 as nat).push(SP) + spec_reason(self.0)
    }

    /// Makes a status code from a number between 100 and 999.
    pub fn from_u16(code: u16) -> (r: Option<StatusCode>)
        ensures
            r == (if 100 <= code && code <= 999 {
                Some(StatusCode(code))
            } else {
                None
            }),
    {
        if code >= 100 && code <= 999 {
            Some(StatusCode(code))
        } else {
            None
        }
    }

    /// Reads a status code from the three digits of a status line.
    pub fn from_digits(s: &[u8]) -> (r: Option<StatusCode>)
        ensures
            r == spec_status_from_digits(s@),
    {
        if s.len() != 3 {
            return None;
        }
        match parse_decimal(s) {
            Some(v) => {
                proof {
                    lemma_three_digits(s@);
                }
                if v >= 100 {
                    Some(StatusCode(v as u16))
                } else {
                    None
                }
            },
            None => {
                proof {
                    if spec_all_digits(s@) {
                        lemma_three_digits(s@);
                    }
                }
                None
            },
        }
    }

    /// The number of the code.
    pub fn as_u16(&self) -> (r: u16)
        ensures
            r == self.0,
    {
        self.0
    }

    /// Tells whether the code is 1xx.
    pub fn is_informational(&self) -> (r: bool)
        ensures
            r == (100 <= self.0 && self.0 < 200),
    {
        self.0 >= 100 && self.0 < 200
    }

    /// Tells whether the code is 2xx.
    pub fn is_success(&self) -> (r: bool)
        ensures
            r == (200 <= self.0 && self.0 < 300),
    {
        self.0 >= 200 && self.0 < 300
    }

    /// Tells whether a response with this status never has a body.
    pub fn forbids_body(&self) -> (r: bool)
        ensures
            r == spec_status_forbids_body(self.0),
    {
        self.is_informational() || self.0 == 204 || self.0 == 304
    }

    /// The reason phrase that goes with the code; empty where none is
    /// registered.
    pub fn canonical_reason(&self) -> (r: Vec<u8>)
        ensures
            r@ == spec_reason(self.0),
    {
        let code = self.0;
        if code == 100 {
            let phrase: [u8; 8] = ['C' as u8, 'o' as u8, 'n' as u8, 't' as u8, 'i' as u8, 'n' as u8, 'u' as u8, 'e' as u8];
            assert(phrase@ =~= spec_reason(code));
            to_vec(&phrase)
        }         else if code == 101 {
            let phrase: [u8; 19] = ['S' as u8, 'w' as u8, 'i' as u8, 't' as u8, 'c' as u8, 'h' as u8, 'i' as u8, 'n' as u8, 'g' as u8, ' ' as u8, 'P' as u8, 'r' as u8, 'o' as u8, 't' as u8, 'o' as u8, 'c' as u8, 'o' as u8, 'l' as u8, 's' as u8];
            assert(phrase@ =~= spec_reason(code));
            to_vec(&phrase)
        }         else if code == 200 {
            let phrase: [u8; 2] = ['O' as u8, 'K' as u8];
            assert(phrase@ =~= spec_reason(code));
            to_vec(&phrase)
        }         else if code == 201 {
            let phrase: [u8; 7] = ['C' as u8, 'r' as u8, 'e' as u8, 'a' as u8, 't' as u8, 'e' as u8, 'd' as u8];
            assert(phrase@ =~= spec_reason(code));
            to_vec(&phrase)
        }         else if code == 202 {
            let phrase: [u8; 8] = ['A' as u8, 'c' as u8, 'c' as u8, 'e' as u8, 'p' as u8, 't' as u8, 'e' as u8, 'd' as u8];
            assert(phrase@ =~= spec_reason(code));
            to_vec(&phrase)
        }         else if code == 204 {
            let phrase: [u8; 10] = ['N' as u8, 'o' as u8, ' ' as u8, 'C' as u8, 'o' as u8, 'n' as u8, 't' as u8, 'e' as u8, 'n' as u8, 't' as u8];
            assert(phrase@ =~= spec_reason(code));
            to_vec(&phrase)
        }         else if code == 206 {
            let phrase: [u8; 15] = ['P' as u8, 'a' as u8, 'r' as u8, 't' as u8, 'i' as u8, 'a' as u8, 'l' as u8, ' ' as u8, 'C' as u8, 'o' as u8, 'n' as u8, 't' as u8, 'e' as u8, 'n' as u8, 't' as u8];
            assert(phrase@ =~= spec_reason(code));
            to_vec(&phrase)
        }         else if code == 301 {
            let phrase: [u8; 17] = ['M' as u8, 'o' as u8, 'v' as u8, 'e' as u8, 'd' as u8, ' ' as u8, 'P' as u8, 'e' as u8, 'r' as u8, 'm' as u8, 'a' as u8, 'n' as u8, 'e' as u8, 'n' as u8, 't' as u8, 'l' as u8, 'y' as u8];
            assert(phrase@ =~= spec_reason(code));
            to_vec(&phrase)
        }         else if code == 302 {
            let phrase: [u8; 5] = ['F' as u8, 'o' as u8, 'u' as u8, 'n' as u8, 'd' as u8];
            assert(phrase@ =~= spec_reason(code));
            to_vec(&phrase)
        }         else if code == 303 {
            let phrase: [u8; 9] = ['S' as u8, 'e' as u8, 'e' as u8, ' ' as u8, 'O' as u8, 't' as u8, 'h' as u8, 'e' as u8, 'r' as u8];
            assert(phrase@ =~= spec_reason(code));
            to_vec(&phrase)
        }         else if code == 304 {
            let phrase: [u8; 12] = ['N' as u8, 'o' as u8, 't' as u8, ' ' as u8, 'M' as u8, 'o' as u8, 'd' as u8, 'i' as u8, 'f' as u8, 'i' as u8, 'e' as u8, 'd' as u8];
            assert(phrase@ =~= spec_reason(code));
            to_vec(&phrase)
        }         else if code == 307 {
            let phrase: [u8; 18] = ['T' as u8, 'e' as u8, 'm' as u8, 'p' as u8, 'o' as u8, 'r' as u8, 'a' as u8, 'r' as u8, 'y' as u8, ' ' as u8, 'R' as u8, 'e' as u8, 'd' as u8, 'i' as u8, 'r' as u8, 'e' as u8, 'c' as u8, 't' as u8];
            assert(phrase@ =~= spec_reason(code));
            to_vec(&phrase)
        }         else if code == 308 {
            let phrase: [u8; 18] = ['P' as u8, 'e' as u8, 'r' as u8, 'm' as u8, 'a' as u8, 'n' as u8, 'e' as u8, 'n' as u8, 't' as u8, ' ' as u8, 'R' as u8, 'e' as u8, 'd' as u8, 'i' as u8, 'r' as u8, 'e' as u8, 'c' as u8, 't' as u8];
            assert(phrase@ =~= spec_reason(code));
            to_vec(&phrase)
        }         else if code == 400 {
            let phrase: [u8; 11] = ['B' as u8, 'a' as u8, 'd' as u8, ' ' as u8, 'R' as u8, 'e' as u8, 'q' as u8, 'u' as u8, 'e' as u8, 's' as u8, 't' as u8];
            assert(phrase@ =~= spec_reason(code));
            to_vec(&phrase)
        }         else if code == 401 {
            let phrase: [u8; 12] = ['U' as u8, 'n' as u8, 'a' as u8, 'u' as u8, 't' as u8, 'h' as u8, 'o' as u8, 'r' as u8, 'i' as u8, 'z' as u8, 'e' as u8, 'd' as u8];
            assert(phrase@ =~= spec_reason(code));
            to_vec(&phrase)
        }         else if code == 403 {
            let phrase: [u8; 9] = ['F' as u8, 'o' as u8, 'r' as u8, 'b' as u8, 'i' as u8, 'd' as u8, 'd' as u8, 'e' as u8, 'n' as u8];
            assert(phrase@ =~= spec_reason(code));
            to_vec(&phrase)
        }         else if code == 404 {
            let phrase: [u8; 9] = ['N' as u8, 'o' as u8, 't' as u8, ' ' as u8, 'F' as u8, 'o' as u8, 'u' as u8, 'n' as u8, 'd' as u8];
            assert(phrase@ =~= spec_reason(code));
            to_vec(&phrase)
        }         else if code == 405 {
            let phrase: [u8; 18] = ['M' as u8, 'e' as u8, 't' as u8, 'h' as u8, 'o' as u8, 'd' as u8, ' ' as u8, 'N' as u8, 'o' as u8, 't' as u8, ' ' as u8, 'A' as u8, 'l' as u8, 'l' as u8, 'o' as u8, 'w' as u8, 'e' as u8, 'd' as u8];
            assert(phrase@ =~= spec_reason(code));
            to_vec(&phrase)
        }         else if code == 408 {
            let phrase: [u8; 15] = ['R' as u8, 'e' as u8, 'q' as u8, 'u' as u8, 'e' as u8, 's' as u8, 't' as u8, ' ' as u8, 'T' as u8, 'i' as u8, 'm' as u8, 'e' as u8, 'o' as u8, 'u' as u8, 't' as u8];
            assert(phrase@ =~= spec_reason(code));
            to_vec(&phrase)
        }         else if code == 409 {
            let phrase: [u8; 8] = ['C' as u8, 'o' as u8, 'n' as u8, 'f' as u8, 'l' as u8, 'i' as u8, 'c' as u8, 't' as u8];
            assert(phrase@ =~= spec_reason(code));
            to_vec(&phrase)
        }         else if code == 410 {
            let phrase: [u8; 4] = ['G' as u8, 'o' as u8, 'n' as u8, 'e' as u8];
            assert(phrase@ =~= spec_reason(code));
            to_vec(&phrase)
        }         else if code == 411 {
            let phrase: [u8; 15] = ['L' as u8, 'e' as u8, 'n' as u8, 'g' as u8, 't' as u8, 'h' as u8, ' ' as u8, 'R' as u8, 'e' as u8, 'q' as u8, 'u' as u8, 'i' as u8, 'r' as u8, 'e' as u8, 'd' as u8];
            assert(phrase@ =~= spec_reason(code));
            to_vec(&phrase)
        }         else if code == 413 {
            let phrase: [u8; 17] = ['P' as u8, 'a' as u8, 'y' as u8, 'l' as u8, 'o' as u8, 'a' as u8, 'd' as u8, ' ' as u8, 'T' as u8, 'o' as u8, 'o' as u8, ' ' as u8, 'L' as u8, 'a' as u8, 'r' as u8, 'g' as u8, 'e' as u8];
            assert(phrase@ =~= spec_reason(code));
            to_vec(&phrase)
        }         else if code == 414 {
            let phrase: [u8; 12] = ['U' as u8, 'R' as u8, 'I' as u8, ' ' as u8, 'T' as u8, 'o' as u8, 'o' as u8, ' ' as u8, 'L' as u8, 'o' as u8, 'n' as u8, 'g' as u8];
            assert(phrase@ =~= spec_reason(code));
            to_vec(&phrase)
        }         else if code == 417 {
            let phrase: [u8; 18] = ['E' as u8, 'x' as u8, 'p' as u8, 'e' as u8, 'c' as u8, 't' as u8, 'a' as u8, 't' as u8, 'i' as u8, 'o' as u8, 'n' as u8, ' ' as u8, 'F' as u8, 'a' as u8, 'i' as u8, 'l' as u8, 'e' as u8, 'd' as u8];
            assert(phrase@ =~= spec_reason(code));
            to_vec(&phrase)
        }         else if code == 426 {
            let phrase: [u8; 16] = ['U' as u8, 'p' as u8, 'g' as u8, 'r' as u8, 'a' as u8, 'd' as u8, 'e' as u8, ' ' as u8, 'R' as u8, 'e' as u8, 'q' as u8, 'u' as u8, 'i' as u8, 'r' as u8, 'e' as u8, 'd' as u8];
            assert(phrase@ =~= spec_reason(code));
            to_vec(&phrase)
        }         else if code == 431 {
            let phrase: [u8; 31] = ['R' as u8, 'e' as u8, 'q' as u8, 'u' as u8, 'e' as u8, 's' as u8, 't' as u8, ' ' as u8, 'H' as u8, 'e' as u8, 'a' as u8, 'd' as u8, 'e' as u8, 'r' as u8, ' ' as u8, 'F' as u8, 'i' as u8, 'e' as u8, 'l' as u8, 'd' as u8, 's' as u8, ' ' as u8, 'T' as u8, 'o' as u8, 'o' as u8, ' ' as u8, 'L' as u8, 'a' as u8, 'r' as u8, 'g' as u8, 'e' as u8];
            assert(phrase@ =~= spec_reason(code));
            to_vec(&phrase)
        }         else if code == 500 {
            let phrase: [u8; 21] = ['I' as u8, 'n' as u8, 't' as u8, 'e' as u8, 'r' as u8, 'n' as u8, 'a' as u8, 'l' as u8, ' ' as u8, 'S' as u8, 'e' as u8, 'r' as u8, 'v' as u8, 'e' as u8, 'r' as u8, ' ' as u8, 'E' as u8, 'r' as u8, 'r' as u8, 'o' as u8, 'r' as u8];
            assert(phrase@ =~= spec_reason(code));
            to_vec(&phrase)
        }         else if code == 501 {
            let phrase: [u8; 15] = ['N' as u8, 'o' as u8, 't' as u8, ' ' as u8, 'I' as u8, 'm' as u8, 'p' as u8, 'l' as u8, 'e' as u8, 'm' as u8, 'e' as u8, 'n' as u8, 't' as u8, 'e' as u8, 'd' as u8];
            assert(phrase@ =~= spec_reason(code));
            to_vec(&phrase)
        }         else if code == 502 {
            let phrase: [u8; 11] = ['B' as u8, 'a' as u8, 'd' as u8, ' ' as u8, 'G' as u8, 'a' as u8, 't' as u8, 'e' as u8, 'w' as u8, 'a' as u8, 'y' as u8];
            assert(phrase@ =~= spec_reason(code));
            to_vec(&phrase)
        }         else if code == 503 {
            let phrase: [u8; 19] = ['S' as u8, 'e' as u8, 'r' as u8, 'v' as u8, 'i' as u8, 'c' as u8, 'e' as u8, ' ' as u8, 'U' as u8, 'n' as u8, 'a' as u8, 'v' as u8, 'a' as u8, 'i' as u8, 'l' as u8, 'a' as u8, 'b' as u8, 'l' as u8, 'e' as u8];
            assert(phrase@ =~= spec_reason(code));
            to_vec(&phrase)
        }         else if code == 504 {
            let phrase: [u8; 15] = ['G' as u8, 'a' as u8, 't' as u8, 'e' as u8, 'w' as u8, 'a' as u8, 'y' as u8, ' ' as u8, 'T' as u8, 'i' as u8, 'm' as u8, 'e' as u8, 'o' as u8, 'u' as u8, 't' as u8];
            assert(phrase@ =~= spec_reason(code));
            to_vec(&phrase)
        }         else if code == 505 {
            let phrase: [u8; 26] = ['H' as u8, 'T' as u8, 'T' as u8, 'P' as u8, ' ' as u8, 'V' as u8, 'e' as u8, 'r' as u8, 's' as u8, 'i' as u8, 'o' as u8, 'n' as u8, ' ' as u8, 'N' as u8, 'o' as u8, 't' as u8, ' ' as u8, 'S' as u8, 'u' as u8, 'p' as u8, 'p' as u8, 'o' as u8, 'r' as u8, 't' as u8, 'e' as u8, 'd' as u8];
            assert(phrase@ =~= spec_reason(code));
            to_vec(&phrase)
        } else {
            Vec::new()
        }
    }

    /// Appends the code, a space and the reason phrase to `dst`.
    pub fn write_to(&self, dst: &mut Vec<u8>)
        ensures
            final(dst)@ == old(dst)@ + self.spec_bytes(),
    {
        let digits = decimal_digits(self.0 as u64);
        extend(dst, digits.as_slice());
        dst.push(SP);
        let reason = self.canonical_reason();
        extend(dst, reason.as_slice());
        assert(dst@ =~= old(dst)@ + self.spec_bytes());
    }
}

impl Default for StatusCode {
    /// 200.
    fn default() -> (r: StatusCode)
        ensures
            r == StatusCode(200),
    {
        StatusCode(200)
    }
}

/// Three digits write a number below one thousand.
pub proof fn lemma_three_digits(s: Seq<u8>)
    requires
        s.len() == 3,
        spec_all_digits(s),
    ensures
        spec_decimal(s) == (s[0] - 48) * 100 + (s[1] - 48) * 10 + (s[2] - 48),
        spec_decimal(s) <= 999,
{
    let s2 = s.drop_last();
    let s1 = s2.drop_last();
    let s0 = s1.drop_last();
    assert(s0.len() == 0);
    assert(spec_decimal(s0) == 0);
    assert(s1.last() == s[0]);
    assert(s2.last() == s[1]);
    assert(s.last() == s[2]);
    assert(spec_decimal(s1) == s[0] - 48);
    assert(spec_decimal(s2) == (s[0] - 48) * 10 + (s[1] - 48));
}

} // verus!
