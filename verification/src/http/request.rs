//! Types to represent HTTP requests.

use vstd::prelude::*;
use vstd::std_specs::convert::IntoSpec;
use crate::header::Headers;
use crate::http::MessageHead;
use crate::method::Method;
use crate::text::SP;
use crate::uri::{spec_origin_form, spec_path, spec_query, Uri};
use crate::version::HttpVersion;

verus! {

/// A request message head.
pub type RequestHead = MessageHead<RequestLine>;

/// An HTTP request line. Its view is the token of the method and the bytes
/// of the target.
#[derive(Debug)]
pub struct RequestLine {
    /// Request method.
    pub method: Method,
    /// Request URI.
    pub uri: Uri,
}

impl View for RequestLine {
    type V = (Seq<u8>, Seq<u8>);

    open spec fn view(&self) -> (Seq<u8>, Seq<u8>) {
        (self.method@, self.uri@)
    }
}

impl RequestLine {
    /// The method, a space, and the target, as in a request line.
    pub open spec fn spec_bytes(line: (Seq<u8>, Seq<u8>)) -> Seq<u8> {
        line.0.push(SP) + line.1
    }

    /// Constructs a new `RequestLine` from a method and URI.
    pub fn new(method: Method, uri: Uri) -> (r: RequestLine)
        ensures
            r.method == method,
            r.uri == uri,
    {
        RequestLine { method, uri }
    }

    /// Appends the method, a space, and the target to `dst`.
    pub fn write_to(&self, dst: &mut Vec<u8>)
        ensures
            final(dst)@ == old(dst)@ + RequestLine::spec_bytes(self@),
    {
        self.method.write_to(dst);
        dst.push(SP);
        self.uri.write_to(dst);
        assert(dst@ =~= old(dst)@ + RequestLine::spec_bytes(self@));
    }
}

impl Clone for RequestLine {
    fn clone(&self) -> (r: RequestLine)
        ensures
            r@ == self@,
    {
        RequestLine { method: self.method.clone(), uri: self.uri.clone() }
    }
}

impl Default for RequestLine {
    /// `GET /`.
    fn default() -> (r: RequestLine)
        ensures
            r@ == (crate::method::spec_get(), seq![crate::uri::SLASH]),
    {
        RequestLine { method: Method::default(), uri: Uri::default() }
    }
}

/// The body of a message, held in memory.
pub type Body = Vec<u8>;

/// The address of the peer of a connection: an IP address, as a number, and
/// a port.
#[derive(Clone, Copy, Debug, PartialEq, Eq, Structural)]
pub enum PeerAddr {
    /// An IPv4 address and a port.
    V4(u32, u16),
    /// An IPv6 address and a port.
    V6(u128, u16),
}

/// An HTTP Request
pub struct Request<B = Body> {
    method: Method,
    uri: Uri,
    version: HttpVersion,
    headers: Headers,
    body: Option<B>,
    is_proxy: bool,
    remote_addr: Option<PeerAddr>,
}

impl<B> Request<B> {
    /// The method of the request.
    pub closed spec fn spec_method(&self) -> Method {
        self.method
    }

    /// The target of the request.
    pub closed spec fn spec_uri(&self) -> Uri {
        self.uri
    }

    /// The version of the request.
    pub closed spec fn spec_version(&self) -> HttpVersion {
        self.version
    }

    /// The headers of the request.
    pub closed spec fn spec_headers(&self) -> Headers {
        self.headers
    }

    /// The body of the request.
    pub closed spec fn spec_body(&self) -> Option<B> {
        self.body
    }

    /// Whether the request goes to a proxy, with its target in absolute form.
    pub closed spec fn spec_is_proxy(&self) -> bool {
        self.is_proxy
    }

    /// The address that the request came from.
    pub closed spec fn spec_remote_addr(&self) -> Option<PeerAddr> {
        self.remote_addr
    }

    /// Whether two requests are the same but for their body.
    pub open spec fn spec_same_head(&self, other: &Request<B>) -> bool {
        &&& self.spec_method() == other.spec_method()
        &&& self.spec_uri() == other.spec_uri()
        &&& self.spec_version() == other.spec_version()
        &&& self.spec_headers() == other.spec_headers()
        &&& self.spec_is_proxy() == other.spec_is_proxy()
        &&& self.spec_remote_addr() == other.spec_remote_addr()
    }

    /// Construct a new Request.
    pub fn new(method: Method, uri: Uri) -> (r: Request<B>)
        ensures
            r.spec_method() == method,
            r.spec_uri() == uri,
            r.spec_version() == HttpVersion::Http11,
            r.spec_headers()@ == Seq::<(Seq<u8>, Seq<u8>)>::empty(),
            r.spec_body().is_none(),
            !r.spec_is_proxy(),
            r.spec_remote_addr().is_none(),
    {
        Request {
            method: method,
            uri: uri,
            version: HttpVersion::default(),
            headers: Headers::new(),
            body: None,
            is_proxy: false,
            remote_addr: None,
        }
    }

    /// Read the Request Uri.
    pub fn uri(&self) -> (r: &Uri)
        ensures
            *r == self.spec_uri(),
    {
        &self.uri
    }

    /// Read the Request Version.
    pub fn version(&self) -> (r: HttpVersion)
        ensures
            r == self.spec_version(),
    {
        self.version
    }

    /// Read the Request headers.
    pub fn headers(&self) -> (r: &Headers)
        ensures
            *r == self.spec_headers(),
    {
        &self.headers
    }

    /// Read the Request method.
    pub fn method(&self) -> (r: &Method)
        ensures
            *r == self.spec_method(),
    {
        &self.method
    }

    /// Read the Request body.
    pub fn body_ref(&self) -> (r: Option<&B>)
        ensures
            match r {
                Some(b) => self.spec_body() == Some(*b),
                None => self.spec_body().is_none(),
            },
    {
        self.body.as_ref()
    }

    /// The remote socket address of this request
    ///
    /// This is an `Option`, because some underlying transports may not have
    /// a socket address, such as Unix Sockets.
    ///
    /// This field is not used for outgoing requests.
    pub fn remote_addr(&self) -> (r: Option<PeerAddr>)
        ensures
            r == self.spec_remote_addr(),
    {
        self.remote_addr
    }

    /// The target path of this Request.
    pub fn path(&self) -> (r: Vec<u8>)
        ensures
            r@ == spec_path(self.spec_uri()@),
    {
        self.uri.path()
    }

    /// The query string of this Request.
    pub fn query(&self) -> (r: Option<Vec<u8>>)
        ensures
            match r {
                Some(q) => spec_query(self.spec_uri()@) == Some(q@),
                None => spec_query(self.spec_uri()@).is_none(),
            },
    {
        self.uri.query()
    }

    /// Set the Method of this request.
    pub fn set_method(&mut self, method: Method)
        ensures
            final(self).spec_method() == method,
            final(self).spec_uri() == old(self).spec_uri(),
            final(self).spec_version() == old(self).spec_version(),
            final(self).spec_headers() == old(self).spec_headers(),
            final(self).spec_body() == old(self).spec_body(),
            final(self).spec_is_proxy() == old(self).spec_is_proxy(),
            final(self).spec_remote_addr() == old(self).spec_remote_addr(),
    {
        self.method = method;
    }

    /// Get a mutable reference to the Request headers.
    pub fn headers_mut(&mut self) -> (r: &mut Headers)
        ensures
            *r == old(self).spec_headers(),
            final(self).spec_headers() == *final(r),
            final(self).spec_method() == old(self).spec_method(),
            final(self).spec_uri() == old(self).spec_uri(),
            final(self).spec_version() == old(self).spec_version(),
            final(self).spec_body() == old(self).spec_body(),
            final(self).spec_is_proxy() == old(self).spec_is_proxy(),
            final(self).spec_remote_addr() == old(self).spec_remote_addr(),
    {
        &mut self.headers
    }

    /// Set the `Uri` of this request.
    pub fn set_uri(&mut self, uri: Uri)
        ensures
            final(self).spec_uri() == uri,
            final(self).spec_method() == old(self).spec_method(),
            final(self).spec_version() == old(self).spec_version(),
            final(self).spec_headers() == old(self).spec_headers(),
            final(self).spec_body() == old(self).spec_body(),
            final(self).spec_is_proxy() == old(self).spec_is_proxy(),
            final(self).spec_remote_addr() == old(self).spec_remote_addr(),
    {
        self.uri = uri;
    }

    /// Set the `HttpVersion` of this request.
    pub fn set_version(&mut self, version: HttpVersion)
        ensures
            final(self).spec_version() == version,
            final(self).spec_method() == old(self).spec_method(),
            final(self).spec_uri() == old(self).spec_uri(),
            final(self).spec_headers() == old(self).spec_headers(),
            final(self).spec_body() == old(self).spec_body(),
            final(self).spec_is_proxy() == old(self).spec_is_proxy(),
            final(self).spec_remote_addr() == old(self).spec_remote_addr(),
    {
        self.version = version;
    }

    /// Set the body of the request.
    ///
    /// By default, the body will be sent using `Transfer-Encoding: chunked`. To
    /// override this behavior, manually set a `Content-Length` header with the
    /// length of `body`.
    pub fn set_body<T: Into<B>>(&mut self, body: T)
        ensures
            T::obeys_into_spec() ==> final(self).spec_body() == Some(body.into_spec()),
            final(self).spec_body().is_some(),
            final(self).spec_same_head(old(self)),
    {
        self.body = Some(body.into());
    }

    /// Set that the URI should use the absolute form.
    ///
    /// This is only needed when talking to HTTP/1 proxies to URLs not
    /// protected by TLS.
    pub fn set_proxy(&mut self, is_proxy: bool)
        ensures
            final(self).spec_is_proxy() == is_proxy,
            final(self).spec_method() == old(self).spec_method(),
            final(self).spec_uri() == old(self).spec_uri(),
            final(self).spec_version() == old(self).spec_version(),
            final(self).spec_headers() == old(self).spec_headers(),
            final(self).spec_body() == old(self).spec_body(),
            final(self).spec_remote_addr() == old(self).spec_remote_addr(),
    {
        self.is_proxy = is_proxy;
    }

    /// Constructs a request using a RequestHead and optional remote address and body.
    pub fn pack(remote_addr: Option<PeerAddr>, head: RequestHead, body: Option<B>) -> (r: Request<B>)
        ensures
            r.spec_method() == head.subject.method,
            r.spec_uri() == head.subject.uri,
            r.spec_version() == head.version,
            r.spec_headers() == head.headers,
            r.spec_body() == body,
            !r.spec_is_proxy(),
            r.spec_remote_addr() == remote_addr,
    {
        let MessageHead { version, subject, headers } = head;
        let RequestLine { method, uri } = subject;
        Request {
            method: method,
            uri: uri,
            headers: headers,
            version: version,
            remote_addr: remote_addr,
            body: body,
            is_proxy: false,
        }
    }

    /// Deconstructs a request into a RequestHead and optional remote address and body.
    /// The target of the head is in origin form, unless the request goes to a
    /// proxy: then it is the target of the request as it stands.
    pub fn unpack(self) -> (r: (Option<PeerAddr>, RequestHead, Option<B>))
        ensures
            r.0 == self.spec_remote_addr(),
            r.1.version == self.spec_version(),
            r.1.headers == self.spec_headers(),
            r.1.subject.method == self.spec_method(),
            r.1.subject.uri@ == (if self.spec_is_proxy() {
                self.spec_uri()@
            } else {
                spec_origin_form(self.spec_uri()@)
            }),
            r.2 == self.spec_body(),
    {
        let uri = if self.is_proxy {
            self.uri
        } else {
            self.uri.origin_form()
        };
        let head = MessageHead {
            subject: RequestLine::new(self.method, uri),
            headers: self.headers,
            version: self.version,
        };
        (self.remote_addr, head, self.body)
    }
}

impl Request<Body> {
    /// Deconstruct this Request into its pieces.
    ///
    /// Modifying these pieces will have no effect on how the library behaves.
    pub fn deconstruct(self) -> (r: (Method, Uri, HttpVersion, Headers, Body))
        ensures
            r.0 == self.spec_method(),
            r.1 == self.spec_uri(),
            r.2 == self.spec_version(),
            r.3 == self.spec_headers(),
            r.4@ == (match self.spec_body() {
                Some(b) => b@,
                None => Seq::<u8>::empty(),
            }),
    {
        let body = match self.body {
            Some(b) => b,
            None => Vec::new(),
        };
        (self.method, self.uri, self.version, self.headers, body)
    }

    /// Take the Request body.
    pub fn body(self) -> (r: Body)
        ensures
            r@ == (match self.spec_body() {
                Some(b) => b@,
                None => Seq::<u8>::empty(),
            }),
    {
        match self.body {
            Some(b) => b,
            None => Vec::new(),
        }
    }
}

} // verus!
