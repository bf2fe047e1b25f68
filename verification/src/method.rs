//! The method of a request.

use vstd::prelude::*;
use crate::error::Error;
use crate::text::{all_tchar, eq_bytes, extend, spec_all_tchar, to_vec};

verus! {

/// A request method: one of the nine registered ones, or any other token.
///
/// A method is known by its token, which is its view. An `Extension` that
/// holds the token of a registered method is that method.
#[derive(Debug)]
pub enum Method {
    /// `OPTIONS`
    Options,
    /// `GET`
    Get,
    /// `POST`
    Post,
    /// `PUT`
    Put,
    /// `DELETE`
    Delete,
    /// `HEAD`
    Head,
    /// `TRACE`
    Trace,
    /// `CONNECT`
    Connect,
    /// `PATCH`
    Patch,
    /// Any other token.
    Extension(Vec<u8>),
}

/// The token `OPTIONS`.
pub open spec fn spec_options() -> Seq<u8> {
    seq!['O' as u8, 'P' as u8, 'T' as u8, 'I' as u8, 'O' as u8, 'N' as u8, 'S' as u8]
}

/// The token `GET`.
pub open spec fn spec_get() -> Seq<u8> {
    seq!['G' as u8, 'E' as u8, 'T' as u8]
}

/// The token `POST`.
pub open spec fn spec_post() -> Seq<u8> {
    seq!['P' as u8, 'O' as u8, 'S' as u8, 'T' as u8]
}

/// The token `PUT`.
pub open spec fn spec_put() -> Seq<u8> {
    seq!['P' as u8, 'U' as u8, 'T' as u8]
}

/// The token `DELETE`.
pub open spec fn spec_delete() -> Seq<u8> {
    seq!['D' as u8, 'E' as u8, 'L' as u8, 'E' as u8, 'T' as u8, 'E' as u8]
}

/// The token `HEAD`.
pub open spec fn spec_head() -> Seq<u8> {
    seq!['H' as u8, 'E' as u8, 'A' as u8, 'D' as u8]
}

/// The token `TRACE`.
pub open spec fn spec_trace() -> Seq<u8> {
    seq!['T' as u8, 'R' as u8, 'A' as u8, 'C' as u8, 'E' as u8]
}

/// The token `CONNECT`.
pub open spec fn spec_connect() -> Seq<u8> {
    seq!['C' as u8, 'O' as u8, 'N' as u8, 'N' as u8, 'E' as u8, 'C' as u8, 'T' as u8]
}

/// The token `PATCH`.
pub open spec fn spec_patch() -> Seq<u8> {
    seq!['P' as u8, 'A' as u8, 'T' as u8, 'C' as u8, 'H' as u8]
}

/// Whether `s` is the token of one of the nine registered methods.
pub open spec fn spec_is_registered(s: Seq<u8>) -> bool {
    ||| s == spec_options()
    ||| s == spec_get()
    ||| s == spec_post()
    ||| s == spec_put()
    ||| s == spec_delete()
    ||| s == spec_head()
    ||| s == spec_trace()
    ||| s == spec_connect()
    ||| s == spec_patch()
}

impl View for Method {
    type V = Seq<u8>;

    open spec fn view(&self) -> Seq<u8> {
        match self {
            Method::Options => spec_options(),
            Method::Get => spec_get(),
            Method::Post => spec_post(),
            Method::Put => spec_put(),
            Method::Delete => spec_delete(),
            Method::Head => spec_head(),
            Method::Trace => spec_trace(),
            Method::Connect => spec_connect(),
            Method::Patch => spec_patch(),
            Method::Extension(token) => token@,
        }
    }
}

impl Method {
    /// Reads a method from its token. The token must be one or more token
    /// characters; a registered token gives the registered method.
    pub fn from_bytes(s: &[u8]) -> (r: Result<Method, Error>)
        ensures
            match r {
                Ok(m) => s@.len() > 0 && spec_all_tchar(s@) && m@ == s@ && (m is Extension ==> !spec_is_registered(s@)),
                Err(e) => e == Error::Method && !(s@.len() > 0 && spec_all_tchar(s@)),
            },
    {
        if s.len() == 0 || !all_tchar(s) {
            return Err(Error::Method);
        }
        let options: [u8; 7] = ['O' as u8, 'P' as u8, 'T' as u8, 'I' as u8, 'O' as u8, 'N' as u8, 'S' as u8];
        assert(options@ =~= spec_options());
        let get: [u8; 3] = ['G' as u8, 'E' as u8, 'T' as u8];
        assert(get@ =~= spec_get());
        let post: [u8; 4] = ['P' as u8, 'O' as u8, 'S' as u8, 'T' as u8];
        assert(post@ =~= spec_post());
        let put: [u8; 3] = ['P' as u8, 'U' as u8, 'T' as u8];
        assert(put@ =~= spec_put());
        let delete: [u8; 6] = ['D' as u8, 'E' as u8, 'L' as u8, 'E' as u8, 'T' as u8, 'E' as u8];
        assert(delete@ =~= spec_delete());
        let head: [u8; 4] = ['H' as u8, 'E' as u8, 'A' as u8, 'D' as u8];
        assert(head@ =~= spec_head());
        let trace: [u8; 5] = ['T' as u8, 'R' as u8, 'A' as u8, 'C' as u8, 'E' as u8];
        assert(trace@ =~= spec_trace());
        let connect: [u8; 7] = ['C' as u8, 'O' as u8, 'N' as u8, 'N' as u8, 'E' as u8, 'C' as u8, 'T' as u8];
        assert(connect@ =~= spec_connect());
        let patch: [u8; 5] = ['P' as u8, 'A' as u8, 'T' as u8, 'C' as u8, 'H' as u8];
        assert(patch@ =~= spec_patch());
        if eq_bytes(s, &options) {
            Ok(Method::Options)
        }         else if eq_bytes(s, &get) {
            Ok(Method::Get)
        }         else if eq_bytes(s, &post) {
            Ok(Method::Post)
        }         else if eq_bytes(s, &put) {
            Ok(Method::Put)
        }         else if eq_bytes(s, &delete) {
            Ok(Method::Delete)
        }         else if eq_bytes(s, &head) {
            Ok(Method::Head)
        }         else if eq_bytes(s, &trace) {
            Ok(Method::Trace)
        }         else if eq_bytes(s, &connect) {
            Ok(Method::Connect)
        }         else if eq_bytes(s, &patch) {
            Ok(Method::Patch)
        } else {
            Ok(Method::Extension(to_vec(s)))
        }
    }

    /// Appends the token of the method to `dst`.
    pub fn write_to(&self, dst: &mut Vec<u8>)
        ensures
            final(dst)@ == old(dst)@ + self@,
    {
        match self {
            Method::Options => {
                let token: [u8; 7] = ['O' as u8, 'P' as u8, 'T' as u8, 'I' as u8, 'O' as u8, 'N' as u8, 'S' as u8];
                assert(token@ =~= spec_options());
                extend(dst, &token);
            },
            Method::Get => {
                let token: [u8; 3] = ['G' as u8, 'E' as u8, 'T' as u8];
                assert(token@ =~= spec_get());
                extend(dst, &token);
            },
            Method::Post => {
                let token: [u8; 4] = ['P' as u8, 'O' as u8, 'S' as u8, 'T' as u8];
                assert(token@ =~= spec_post());
                extend(dst, &token);
            },
            Method::Put => {
                let token: [u8; 3] = ['P' as u8, 'U' as u8, 'T' as u8];
                assert(token@ =~= spec_put());
                extend(dst, &token);
            },
            Method::Delete => {
                let token: [u8; 6] = ['D' as u8, 'E' as u8, 'L' as u8, 'E' as u8, 'T' as u8, 'E' as u8];
                assert(token@ =~= spec_delete());
                extend(dst, &token);
            },
            Method::Head => {
                let token: [u8; 4] = ['H' as u8, 'E' as u8, 'A' as u8, 'D' as u8];
                assert(token@ =~= spec_head());
                extend(dst, &token);
            },
            Method::Trace => {
                let token: [u8; 5] = ['T' as u8, 'R' as u8, 'A' as u8, 'C' as u8, 'E' as u8];
                assert(token@ =~= spec_trace());
                extend(dst, &token);
            },
            Method::Connect => {
                let token: [u8; 7] = ['C' as u8, 'O' as u8, 'N' as u8, 'N' as u8, 'E' as u8, 'C' as u8, 'T' as u8];
                assert(token@ =~= spec_connect());
                extend(dst, &token);
            },
            Method::Patch => {
                let token: [u8; 5] = ['P' as u8, 'A' as u8, 'T' as u8, 'C' as u8, 'H' as u8];
                assert(token@ =~= spec_patch());
                extend(dst, &token);
            },
            Method::Extension(token) => {
                extend(dst, token.as_slice());
            },
        }
    }

    /// Tells whether this is the `HEAD` method.
    pub fn is_head(&self) -> (r: bool)
        ensures
            r == (self@ == spec_head()),
    {
        match self {
            Method::Head => true,
            Method::Extension(token) => {
                let head: [u8; 4] = ['H' as u8, 'E' as u8, 'A' as u8, 'D' as u8];
                assert(head@ =~= spec_head());
                eq_bytes(token.as_slice(), &head)
            },
            _ => {
                assert(self@.len() != 4 || self@[0] != 'H' as u8);
                false
            },
        }
    }

    /// Tells whether this is the `CONNECT` method.
    pub fn is_connect(&self) -> (r: bool)
        ensures
            r == (self@ == spec_connect()),
    {
        match self {
            Method::Connect => true,
            Method::Extension(token) => {
                let connect: [u8; 7] = ['C' as u8, 'O' as u8, 'N' as u8, 'N' as u8, 'E' as u8, 'C' as u8, 'T' as u8];
                assert(connect@ =~= spec_connect());
                eq_bytes(token.as_slice(), &connect)
            },
            _ => {
                assert(self@.len() != 7 || self@[0] != 'C' as u8);
                false
            },
        }
    }
}

impl Clone for Method {
    fn clone(&self) -> (r: Method)
        ensures
            r@ == self@,
    {
        match self {
            Method::Options => Method::Options,
            Method::Get => Method::Get,
            Method::Post => Method::Post,
            Method::Put => Method::Put,
            Method::Delete => Method::Delete,
            Method::Head => Method::Head,
            Method::Trace => Method::Trace,
            Method::Connect => Method::Connect,
            Method::Patch => Method::Patch,
            Method::Extension(token) => Method::Extension(to_vec(token.as_slice())),
        }
    }
}

impl Default for Method {
    /// `GET`.
    fn default() -> (r: Method)
        ensures
            r@ == spec_get(),
    {
        Method::Get
    }
}

} // verus!
