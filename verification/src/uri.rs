//! The target of a request.

use vstd::prelude::*;
use crate::error::Error;
use crate::text::{all_visible, extend, find_byte, spec_all_visible, spec_find_byte, to_vec};

verus! {

/// `/`
pub const SLASH: u8 = 47;

/// `?`
pub const QUESTION: u8 = 63;

/// `#`
pub const HASH: u8 = 35;

/// `*`
pub const ASTERISK: u8 = 42;

/// The colon that ends a scheme.
pub const SCHEME_COLON: u8 = 58;

/// The index of the first byte of `s`, at or after `from`, that is one of
/// `a`, `b` and `c`; `s.len()` when there is none.
pub open spec fn spec_find_one_of(s: Seq<u8>, a: u8, b: u8, c: u8, from: int) -> int
    decreases s.len() - from,
{
    if from < 0 || from >= s.len() {
        s.len() as int
    } else if s[from] == a || s[from] == b || s[from] == c {
        from
    } else {
        spec_find_one_of(s, a, b, c, from + 1)
    }
}

/// Where the scheme of an absolute target ends: at the first colon, if the
/// target does not begin with a slash, the colon is not its first byte, and
/// two slashes follow the colon.
pub open spec fn spec_scheme_end(s: Seq<u8>) -> Option<int> {
    let c = spec_find_byte(s, SCHEME_COLON, 0);
    if s.len() > 0 && s[0] != SLASH && 0 < c && c + 2 < s.len() && s[c + 1] == SLASH && s[c + 2]
        == SLASH {
        Some(c)
    } else {
        None
    }
}

/// Where the path of a target begins: at its first byte, if that is a slash;
/// after the authority, if the target is absolute; else at its end.
pub open spec fn spec_path_start(s: Seq<u8>) -> int {
    if s.len() > 0 && s[0] == SLASH {
        0
    } else {
        match spec_scheme_end(s) {
            Some(c) => spec_find_one_of(s, SLASH, QUESTION, HASH, c + 3),
            None => s.len() as int,
        }
    }
}

/// Where the path of a target ends: at the first `?` or `#` after its start.
pub open spec fn spec_path_end(s: Seq<u8>) -> int {
    spec_find_one_of(s, QUESTION, HASH, HASH, spec_path_start(s))
}

/// The path of a target. A target that is `*` has the path `*`, and one that
/// has no path has the path `/`.
pub open spec fn spec_path(s: Seq<u8>) -> Seq<u8> {
    if s == seq![ASTERISK] {
        s
    } else if spec_path_start(s) >= spec_path_end(s) {
        seq![SLASH]
    } else {
        s.subrange(spec_path_start(s), spec_path_end(s))
    }
}

/// The query of a target: what stands between the `?` that ends the path and
/// the first `#` after it, if the path ends at a `?`.
pub open spec fn spec_query(s: Seq<u8>) -> Option<Seq<u8>> {
    let e = spec_path_end(s);
    if 0 <= e && e < s.len() && s[e] == QUESTION {
        Some(s.subrange(e + 1, spec_find_byte(s, HASH, e + 1)))
    } else {
        None
    }
}

/// The origin form of a target: its path, and its query after a `?` if it
/// has one.
pub open spec fn spec_origin_form(s: Seq<u8>) -> Seq<u8> {
    match spec_query(s) {
        Some(q) => spec_path(s).push(QUESTION) + q,
        None => spec_path(s),
    }
}

/// Finds the first byte of `s`, at or after `from`, that is one of `a`, `b`
/// and `c`.
fn find_one_of(s: &[u8], a: u8, b: u8, c: u8, from: usize) -> (r: usize)
    requires
        from <= s.len(),
    ensures
        r == spec_find_one_of(s@, a, b, c, from as int),
        from <= r <= s.len(),
{
    let mut i: usize = from;
    while i < s.len() && !(s[i] == a || s[i] == b || s[i] == c)
        invariant
            from <= i <= s.len(),
            spec_find_one_of(s@, a, b, c, from as int) == spec_find_one_of(s@, a, b, c, i as int),
        decreases s.len() - i,
    {
        i += 1;
    }
    i
}

/// The target of a request, as it stands in the request line. Its view is
/// its bytes.
#[derive(Debug)]
pub struct Uri {
    source: Vec<u8>,
}

impl View for Uri {
    type V = Seq<u8>;

    closed spec fn view(&self) -> Seq<u8> {
        self.source@
    }
}

impl Uri {
    /// Makes a target from its bytes: one or more visible ASCII characters.
    pub fn from_bytes(s: &[u8]) -> (r: Result<Uri, Error>)
        ensures
            match r {
                Ok(uri) => s@.len() > 0 && spec_all_visible(s@) && uri@ == s@,
                Err(e) => e == Error::Uri && !(s@.len() > 0 && spec_all_visible(s@)),
            },
    {
        if s.len() > 0 && all_visible(s) {
            Ok(Uri { source: to_vec(s) })
        } else {
            Err(Error::Uri)
        }
    }

    /// The bytes of the target.
    pub fn as_bytes(&self) -> (r: &[u8])
        ensures
            r@ == self@,
    {
        self.source.as_slice()
    }

    /// Locates the path: where it begins and where it ends.
    fn path_bounds(&self) -> (r: (usize, usize))
        ensures
            r.0 == spec_path_start(self@),
            r.1 == spec_path_end(self@),
            r.0 <= r.1 <= self@.len(),
    {
        let s = self.source.as_slice();
        let start: usize = if s.len() > 0 && s[0] == SLASH {
            0
        } else if s.len() == 0 {
            0
        } else {
            let c = find_byte(s, SCHEME_COLON, 0);
            if 0 < c && c < s.len() && s.len() - c > 2 && s[c + 1] == SLASH && s[c + 2] == SLASH {
                find_one_of(s, SLASH, QUESTION, HASH, c + 3)
            } else {
                s.len()
            }
        };
        let end = find_one_of(s, QUESTION, HASH, HASH, start);
        (start, end)
    }

    /// The path of the target.
    pub fn path(&self) -> (r: Vec<u8>)
        ensures
            r@ == spec_path(self@),
    {
        let s = self.source.as_slice();
        if s.len() == 1 && s[0] == ASTERISK {
            assert(s@ =~= seq![ASTERISK]);
            return to_vec(s);
        }
        assert(s@ != seq![ASTERISK]) by {
            if s@ == seq![ASTERISK] {
                assert(seq![ASTERISK].len() == 1);
                assert(seq![ASTERISK][0] == ASTERISK);
            }
        }
        let (start, end) = self.path_bounds();
        if start >= end {
            let mut v: Vec<u8> = Vec::new();
            v.push(SLASH);
            assert(v@ =~= seq![SLASH]);
            v
        } else {
            to_vec(&s[start..end])
        }
    }

    /// The query of the target, if it has one.
    pub fn query(&self) -> (r: Option<Vec<u8>>)
        ensures
            match r {
                Some(q) => spec_query(self@) == Some(q@),
                None => spec_query(self@).is_none(),
            },
    {
        let s = self.source.as_slice();
        let (_, end) = self.path_bounds();
        if end < s.len() && s[end] == QUESTION {
            let stop = find_byte(s, HASH, end + 1);
            Some(to_vec(&s[end + 1..stop]))
        } else {
            None
        }
    }

    /// The target in origin form: the path, and the query if there is one.
    pub fn origin_form(&self) -> (r: Uri)
        ensures
            r@ == spec_origin_form(self@),
    {
        let mut source = self.path();
        match self.query() {
            Some(q) => {
                source.push(QUESTION);
                extend(&mut source, q.as_slice());
            },
            None => {},
        }
        Uri { source }
    }

    /// Appends the bytes of the target to `dst`.
    pub fn write_to(&self, dst: &mut Vec<u8>)
        ensures
            final(dst)@ == old(dst)@ + self@,
    {
        extend(dst, self.source.as_slice());
    }
}

impl Clone for Uri {
    fn clone(&self) -> (r: Uri)
        ensures
            r@ == self@,
    {
        Uri { source: to_vec(self.source.as_slice()) }
    }
}

impl Default for Uri {
    /// The target `/`.
    fn default() -> (r: Uri)
        ensures
            r@ == seq![SLASH],
    {
        let mut source: Vec<u8> = Vec::new();
        source.push(SLASH);
        assert(source@ =~= seq![SLASH]);
        Uri { source }
    }
}

} // verus!
