//! Types to represent HTTP responses.

use vstd::prelude::*;
use vstd::std_specs::convert::IntoSpec;
use crate::header::{spec_without, Header, Headers};
use crate::http::request::Body;
use crate::http::MessageHead;
use crate::status::StatusCode;
use crate::version::HttpVersion;

verus! {

/// A response message head.
pub type ResponseHead = MessageHead<StatusCode>;

/// An HTTP Response
pub struct Response<B = Body> {
    version: HttpVersion,
    headers: Headers,
    status: StatusCode,
    body: Option<B>,
}

impl<B> Response<B> {
    /// The version of the response.
    pub closed spec fn spec_version(&self) -> HttpVersion {
        self.version
    }

    /// The headers of the response.
    pub closed spec fn spec_headers(&self) -> Headers {
        self.headers
    }

    /// The status of the response.
    pub closed spec fn spec_status(&self) -> StatusCode {
        self.status
    }

    /// The body of the response.
    pub closed spec fn spec_body(&self) -> Option<B> {
        self.body
    }

    /// Constructs a default response
    pub fn new() -> (r: Response<B>)
        ensures
            r.spec_version() == HttpVersion::Http11,
            r.spec_headers()@ == Seq::<(Seq<u8>, Seq<u8>)>::empty(),
            r.spec_status() == StatusCode(200),
            r.spec_body().is_none(),
    {
        Response {
            version: HttpVersion::default(),
            headers: Headers::new(),
            status: StatusCode::default(),
            body: None,
        }
    }

    /// Get the HTTP version of this response.
    pub fn version(&self) -> (r: HttpVersion)
        ensures
            r == self.spec_version(),
    {
        self.version
    }

    /// Get the headers from the response.
    pub fn headers(&self) -> (r: &Headers)
        ensures
            *r == self.spec_headers(),
    {
        &self.headers
    }

    /// Get a mutable reference to the headers.
    pub fn headers_mut(&mut self) -> (r: &mut Headers)
        ensures
            *r == old(self).spec_headers(),
            final(self).spec_headers() == *final(r),
            final(self).spec_version() == old(self).spec_version(),
            final(self).spec_status() == old(self).spec_status(),
            final(self).spec_body() == old(self).spec_body(),
    {
        &mut self.headers
    }

    /// Get the status from the server.
    pub fn status(&self) -> (r: StatusCode)
        ensures
            r == self.spec_status(),
    {
        self.status
    }

    /// Set the `StatusCode` for this response.
    pub fn set_status(&mut self, status: StatusCode)
        ensures
            final(self).spec_status() == status,
            final(self).spec_version() == old(self).spec_version(),
            final(self).spec_headers() == old(self).spec_headers(),
            final(self).spec_body() == old(self).spec_body(),
    {
        self.status = status;
    }

    /// Set the status and move the Response.
    ///
    /// Useful for the "builder-style" pattern.
    pub fn with_status(self, status: StatusCode) -> (r: Response<B>)
        ensures
            r.spec_status() == status,
            r.spec_version() == self.spec_version(),
            r.spec_headers() == self.spec_headers(),
            r.spec_body() == self.spec_body(),
    {
        let mut this = self;
        this.set_status(status);
        this
    }

    /// Set a header and move the Response.
    ///
    /// Useful for the "builder-style" pattern.
    pub fn with_header<H: Header>(self, header: H) -> (r: Response<B>)
        ensures
            r.spec_headers()@ == spec_without(self.spec_headers()@, header.spec_name()).push(
                (header.spec_name(), header.spec_value()),
            ),
            r.spec_status() == self.spec_status(),
            r.spec_version() == self.spec_version(),
            r.spec_body() == self.spec_body(),
    {
        let mut this = self;
        this.headers.set(header);
        this
    }

    /// Set the headers and move the Response.
    ///
    /// Useful for the "builder-style" pattern.
    pub fn with_headers(self, headers: Headers) -> (r: Response<B>)
        ensures
            r.spec_headers() == headers,
            r.spec_status() == self.spec_status(),
            r.spec_version() == self.spec_version(),
            r.spec_body() == self.spec_body(),
    {
        let mut this = self;
        this.headers = headers;
        this
    }

    /// Set the body.
    pub fn set_body<T: Into<B>>(&mut self, body: T)
        ensures
            T::obeys_into_spec() ==> final(self).spec_body() == Some(body.into_spec()),
            final(self).spec_body().is_some(),
            final(self).spec_status() == old(self).spec_status(),
            final(self).spec_version() == old(self).spec_version(),
            final(self).spec_headers() == old(self).spec_headers(),
    {
        self.body = Some(body.into());
    }

    /// Set the body and move the Response.
    ///
    /// Useful for the "builder-style" pattern.
    pub fn with_body<T: Into<B>>(self, body: T) -> (r: Response<B>)
        ensures
            T::obeys_into_spec() ==> r.spec_body() == Some(body.into_spec()),
            r.spec_body().is_some(),
            r.spec_status() == self.spec_status(),
            r.spec_version() == self.spec_version(),
            r.spec_headers() == self.spec_headers(),
    {
        let mut this = self;
        this.set_body(body);
        this
    }

    /// Read the body.
    pub fn body_ref(&self) -> (r: Option<&B>)
        ensures
            match r {
                Some(b) => self.spec_body() == Some(*b),
                None => self.spec_body().is_none(),
            },
    {
        self.body.as_ref()
    }

    /// Constructs a response using a ResponseHead and optional body.
    pub fn pack(head: ResponseHead, body: Option<B>) -> (r: Response<B>)
        ensures
            r.spec_status() == head.subject,
            r.spec_version() == head.version,
            r.spec_headers() == head.headers,
            r.spec_body() == body,
    {
        Response { status: head.subject, version: head.version, headers: head.headers, body: body }
    }

    /// Deconstructs a response into a ResponseHead and optional body.
    pub fn unpack(self) -> (r: (MessageHead<StatusCode>, Option<B>))
        ensures
            r.0.version == self.spec_version(),
            r.0.headers == self.spec_headers(),
            r.0.subject == self.spec_status(),
            r.1 == self.spec_body(),
    {
        let head = MessageHead { version: self.version, headers: self.headers, subject: self.status };
        (head, self.body)
    }
}

impl Response<Body> {
    /// Take the `Body` of this response.
    pub fn body(self) -> (r: Body)
        ensures
            r@ == (match self.spec_body() {
                Some(b) => b@,
                None => Seq::<u8>::empty(),
            }),
    {
        match self.body {
            Some(b) => b,
            None => Vec::new(),
        }
    }
}

impl<B> Default for Response<B> {
    fn default() -> (r: Response<B>)
        ensures
            r.spec_version() == HttpVersion::Http11,
            r.spec_headers()@ == Seq::<(Seq<u8>, Seq<u8>)>::empty(),
            r.spec_status() == StatusCode(200),
            r.spec_body().is_none(),
    {
        Response::new()
    }
}

} // verus!
