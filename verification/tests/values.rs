use http_framing::header::fields::{
    content_length, expects_continue, has_token, is_chunked, list_has, list_last, Connection,
    ContentLength, Expect, TransferEncoding,
};
use http_framing::header::line::parse_header_line;
use http_framing::http::h1::plain::{line_is_plain, lines_are_plain};
use http_framing::text::{
    decimal_digits, eq_ignore_case, find_byte, find_crlf, hex_digits, parse_decimal, parse_hex,
    rfind_byte, trim,
};
use http_framing::HttpVersion::{Http10, Http11};
use http_framing::{
    expecting_continue, should_keep_alive, Error, Headers, HttpVersion, MessageHead, Method,
    PeerAddr, Request, RequestLine, Response, StatusCode, Uri,
};

fn head(version: HttpVersion, lines: &[(&[u8], &[u8])]) -> MessageHead<()> {
    let mut head = MessageHead::new(version, ());
    for (name, value) in lines {
        head.headers.append_raw(name, value);
    }
    head
}

#[test]
fn keep_alive_follows_the_table() {
    assert!(!should_keep_alive(&head(Http10, &[])));
    assert!(!should_keep_alive(&head(Http10, &[(b"Connection", b"close")])));
    assert!(!should_keep_alive(&head(Http10, &[(b"Connection", b"upgrade")])));
    assert!(!should_keep_alive(&head(Http10, &[(b"Connection", b"")])));
    assert!(should_keep_alive(&head(Http10, &[(b"Connection", b"keep-alive")])));
    assert!(should_keep_alive(&head(Http10, &[(b"CONNECTION", b"Upgrade, Keep-Alive")])));
    assert!(should_keep_alive(&head(Http10, &[(b"Connection", b"close, keep-alive")])));
    assert!(should_keep_alive(&head(
        Http10,
        &[(b"Connection", b"close"), (b"connection", b" keep-alive ")]
    )));
    assert!(!should_keep_alive(&head(Http10, &[(b"Keep-Alive", b"timeout=5")])));
    assert!(!should_keep_alive(&head(Http10, &[(b"Connection", b"keep-alive-ish")])));

    assert!(should_keep_alive(&head(Http11, &[])));
    assert!(should_keep_alive(&head(Http11, &[(b"Connection", b"keep-alive")])));
    assert!(should_keep_alive(&head(Http11, &[(b"Connection", b"upgrade")])));
    assert!(should_keep_alive(&head(Http11, &[(b"Connection", b"closed")])));
    assert!(should_keep_alive(&head(Http11, &[(b"X-Connection", b"close")])));
    assert!(!should_keep_alive(&head(Http11, &[(b"Connection", b"close")])));
    assert!(!should_keep_alive(&head(Http11, &[(b"connection", b"keep-alive,\tCLOSE")])));
    assert!(!should_keep_alive(&head(
        Http11,
        &[(b"Connection", b"keep-alive"), (b"Connection", b"close")]
    )));
}

#[test]
fn continue_is_expected_only_under_http11() {
    assert!(expecting_continue(&head(Http11, &[(b"Expect", b"100-continue")])));
    assert!(expecting_continue(&head(Http11, &[(b"expect", b" 100-Continue ")])));
    assert!(!expecting_continue(&head(Http10, &[(b"Expect", b"100-continue")])));
    assert!(!expecting_continue(&head(Http11, &[])));
    assert!(!expecting_continue(&head(Http11, &[(b"Expect", b"100-continue, other")])));
    assert!(!expecting_continue(&head(Http11, &[(b"Expect", b"200-ok")])));
    assert!(!expecting_continue(&head(Http11, &[(b"Expect", b"")])));
    assert!(!expecting_continue(&head(Http11, &[(b"Expected", b"100-continue")])));
    assert!(!expecting_continue(&head(
        Http11,
        &[(b"Expect", b"other"), (b"Expect", b"100-continue")]
    )));
}

#[test]
fn typed_headers_write_their_lines() {
    let mut headers = Headers::new();
    headers.set(Connection::close());
    headers.set(Expect::Continue);
    headers.set(ContentLength(1234567890));
    headers.set(TransferEncoding::chunked());
    headers.set(Connection::keep_alive());
    let mut wire = Vec::new();
    headers.write_to(&mut wire);
    assert_eq!(
        wire,
        b"Expect: 100-continue\r\nContent-Length: 1234567890\r\nTransfer-Encoding: chunked\r\nConnection: keep-alive\r\n"
            .to_vec()
    );
    assert!(is_chunked(&headers));
    assert!(expects_continue(&headers));
    assert_eq!(content_length(&headers), Ok(Some(1234567890)));
    assert!(has_token(&headers, b"connection", b"keep-alive"));
    assert!(!has_token(&headers, b"connection", b"close"));
}

#[test]
fn header_collection_operations() {
    let mut headers = Headers::new();
    assert!(headers.is_empty());
    assert_eq!(headers.get_raw(b"a"), None);
    assert!(!headers.remove_raw(b"a"));
    headers.append_raw(b"A", b"1");
    headers.append_raw(b"B", b"2");
    headers.append_raw(b"a", b"3");
    assert_eq!(headers.len(), 3);
    assert!(headers.has_raw(b"a"));
    assert!(headers.has_raw(b"b"));
    assert!(!headers.has_raw(b"c"));
    assert_eq!(headers.get_raw(b"a"), Some(&b"1"[..]));
    assert_eq!(headers.get_raw(b"B"), Some(&b"2"[..]));
    headers.set_raw(b"a", b"4");
    assert_eq!(headers.len(), 2);
    assert_eq!((headers.name_at(0), headers.value_at(0)), (&b"B"[..], &b"2"[..]));
    assert_eq!((headers.name_at(1), headers.value_at(1)), (&b"a"[..], &b"4"[..]));
    let copy = headers.clone();
    assert!(headers.remove_raw(b"B"));
    assert_eq!(headers.len(), 1);
    assert_eq!(copy.len(), 2);
    let mut wire = b">".to_vec();
    copy.write_to(&mut wire);
    assert_eq!(wire, b">B: 2\r\na: 4\r\n".to_vec());
    assert!(Headers::default().is_empty());
}

#[test]
fn lists_and_lines() {
    assert!(list_has(b"a, b ,c", b"B"));
    assert!(list_has(b"a", b"a"));
    assert!(list_has(b"a,", b""));
    assert!(list_has(b"", b""));
    assert!(!list_has(b"a b", b"a"));
    assert!(!list_has(b"ab, c", b"a"));
    assert_eq!(list_last(b"a, b , c\t"), b"c");
    assert_eq!(list_last(b"abc"), b"abc");
    assert_eq!(list_last(b"abc,"), b"");
    assert_eq!(list_last(b""), b"");
    assert_eq!(parse_header_line(b"Name: value"), Some((&b"Name"[..], &b"value"[..])));
    assert_eq!(parse_header_line(b"Name:value: more "), Some((&b"Name"[..], &b"value: more"[..])));
    assert_eq!(parse_header_line(b"Name:"), Some((&b"Name"[..], &b""[..])));
    assert_eq!(parse_header_line(b"Name"), None);
    assert_eq!(parse_header_line(b":v"), None);
    assert_eq!(parse_header_line(b"Na me: v"), None);
    assert_eq!(parse_header_line(b"Name: v\nx"), None);
    assert_eq!(parse_header_line(b""), None);
}

#[test]
fn content_length_of_headers() {
    let h = head(HttpVersion::Http11, &[]);
    assert_eq!(content_length(&h.headers), Ok(None));
    let h = head(HttpVersion::Http11, &[(b"Content-Length", b"x"), (b"Content-Length", b"1")]);
    assert_eq!(content_length(&h.headers), Err(Error::Header));
    let h = head(HttpVersion::Http11, &[(b"Content-Length", b"2"), (b"Content-Length", b"1")]);
    assert_eq!(content_length(&h.headers), Err(Error::Framing));
    let h = head(HttpVersion::Http11, &[(b"Content-Length", b"18446744073709551615")]);
    assert_eq!(content_length(&h.headers), Ok(Some(u64::MAX)));
}

#[test]
fn numbers_and_bytes() {
    assert_eq!(parse_decimal(b"0"), Some(0));
    assert_eq!(parse_decimal(b"007"), Some(7));
    assert_eq!(parse_decimal(b"18446744073709551615"), Some(u64::MAX));
    assert_eq!(parse_decimal(b"18446744073709551616"), None);
    assert_eq!(parse_decimal(b"99999999999999999999"), None);
    assert_eq!(parse_decimal(b""), None);
    assert_eq!(parse_decimal(b"+1"), None);
    assert_eq!(parse_decimal(b"1a"), None);
    assert_eq!(parse_hex(b"0"), Some(0));
    assert_eq!(parse_hex(b"fF"), Some(255));
    assert_eq!(parse_hex(b"DeadBeef"), Some(0xdead_beef));
    assert_eq!(parse_hex(b"FFFFFFFFFFFFFFFF"), Some(u64::MAX));
    assert_eq!(parse_hex(b"10000000000000000"), None);
    assert_eq!(parse_hex(b""), None);
    assert_eq!(parse_hex(b"fg"), None);
    assert_eq!(hex_digits(0), b"0".to_vec());
    assert_eq!(hex_digits(10), b"A".to_vec());
    assert_eq!(hex_digits(0xdead_beef), b"DEADBEEF".to_vec());
    assert_eq!(hex_digits(u64::MAX), b"FFFFFFFFFFFFFFFF".to_vec());
    assert_eq!(decimal_digits(0), b"0".to_vec());
    assert_eq!(decimal_digits(1203), b"1203".to_vec());
    assert_eq!(decimal_digits(u64::MAX), b"18446744073709551615".to_vec());
    assert_eq!(trim(b" \t a b\t "), b"a b");
    assert_eq!(trim(b"   "), b"");
    assert_eq!(trim(b""), b"");
    assert_eq!(trim(b"\na "), b"\na");
    assert!(eq_ignore_case(b"Content-Length", b"content-length"));
    assert!(!eq_ignore_case(b"Content-Length", b"content_length"));
    assert!(!eq_ignore_case(b"a", b"ab"));
    assert!(!eq_ignore_case(b"@", b"`"));
    assert!(!eq_ignore_case(b"[", b"{"));
    assert_eq!(find_byte(b"a:b:c", b':', 0), 1);
    assert_eq!(find_byte(b"a:b:c", b':', 2), 3);
    assert_eq!(find_byte(b"a:b:c", b':', 4), 5);
    assert_eq!(rfind_byte(b"a:b:c", b':'), Some(3));
    assert_eq!(rfind_byte(b"abc", b':'), None);
    assert_eq!(find_crlf(b"a\rb\nc\r\nd\r\n", 0), Some(5));
    assert_eq!(find_crlf(b"a\rb\nc\r\nd\r\n", 6), Some(8));
    assert_eq!(find_crlf(b"a\rb\nc\r", 0), None);
}

#[test]
fn methods() {
    let token = |m: &Method| {
        let mut v = Vec::new();
        m.write_to(&mut v);
        v
    };
    for name in ["OPTIONS", "GET", "POST", "PUT", "DELETE", "HEAD", "TRACE", "CONNECT", "PATCH"] {
        let m = Method::from_bytes(name.as_bytes()).unwrap();
        assert!(!matches!(m, Method::Extension(_)));
        assert_eq!(token(&m), name.as_bytes().to_vec());
        assert_eq!(token(&m.clone()), name.as_bytes().to_vec());
        assert_eq!(m.is_head(), name == "HEAD");
        assert_eq!(m.is_connect(), name == "CONNECT");
    }
    let m = Method::from_bytes(b"get").unwrap();
    assert!(matches!(m, Method::Extension(_)));
    assert_eq!(token(&m), b"get".to_vec());
    assert!(Method::Extension(b"HEAD".to_vec()).is_head());
    assert!(!Method::Extension(b"head".to_vec()).is_head());
    assert!(Method::Extension(b"CONNECT".to_vec()).is_connect());
    assert_eq!(Method::from_bytes(b"").unwrap_err(), Error::Method);
    assert_eq!(Method::from_bytes(b"GE T").unwrap_err(), Error::Method);
    assert_eq!(Method::from_bytes(b"GET:").unwrap_err(), Error::Method);
    assert!(matches!(Method::default(), Method::Get));
}

#[test]
fn status_codes() {
    assert_eq!(StatusCode::from_u16(200), Some(StatusCode(200)));
    assert_eq!(StatusCode::from_u16(100), Some(StatusCode(100)));
    assert_eq!(StatusCode::from_u16(999), Some(StatusCode(999)));
    assert_eq!(StatusCode::from_u16(99), None);
    assert_eq!(StatusCode::from_u16(1000), None);
    assert_eq!(StatusCode::from_digits(b"404"), Some(StatusCode(404)));
    assert_eq!(StatusCode::from_digits(b"099"), None);
    assert_eq!(StatusCode::from_digits(b"40"), None);
    assert_eq!(StatusCode::from_digits(b"4040"), None);
    assert_eq!(StatusCode::from_digits(b"4o4"), None);
    assert_eq!(StatusCode(404).as_u16(), 404);
    assert_eq!(StatusCode::default(), StatusCode(200));
    assert_eq!(StatusCode(404).canonical_reason(), b"Not Found".to_vec());
    assert_eq!(StatusCode(500).canonical_reason(), b"Internal Server Error".to_vec());
    assert_eq!(StatusCode(299).canonical_reason(), Vec::<u8>::new());
    let mut wire = Vec::new();
    StatusCode(304).write_to(&mut wire);
    assert_eq!(wire, b"304 Not Modified".to_vec());
    let mut wire = Vec::new();
    StatusCode(299).write_to(&mut wire);
    assert_eq!(wire, b"299 ".to_vec());
    assert!(StatusCode(100).is_informational() && StatusCode(199).is_informational());
    assert!(!StatusCode(200).is_informational() && !StatusCode(99).is_informational());
    assert!(StatusCode(200).is_success() && StatusCode(299).is_success());
    assert!(!StatusCode(300).is_success() && !StatusCode(199).is_success());
    assert!(StatusCode(204).forbids_body() && StatusCode(304).forbids_body());
    assert!(StatusCode(101).forbids_body() && !StatusCode(200).forbids_body());
}

#[test]
fn versions() {
    assert_eq!(HttpVersion::from_bytes(b"HTTP/1.1"), Some(HttpVersion::Http11));
    assert_eq!(HttpVersion::from_bytes(b"HTTP/1.0"), Some(HttpVersion::Http10));
    assert_eq!(HttpVersion::from_bytes(b"HTTP/2.0"), None);
    assert_eq!(HttpVersion::from_bytes(b"http/1.1"), None);
    assert_eq!(HttpVersion::from_bytes(b"HTTP/1.1 "), None);
    assert_eq!(HttpVersion::default(), HttpVersion::Http11);
    let mut wire = Vec::new();
    HttpVersion::Http10.write_to(&mut wire);
    HttpVersion::Http11.write_to(&mut wire);
    assert_eq!(wire, b"HTTP/1.0HTTP/1.1".to_vec());
}

#[test]
fn targets() {
    let uri = |s: &[u8]| Uri::from_bytes(s).unwrap();
    let parts = |s: &[u8]| {
        let u = uri(s);
        (u.path(), u.query(), u.origin_form().as_bytes().to_vec())
    };
    assert_eq!(parts(b"/"), (b"/".to_vec(), None, b"/".to_vec()));
    assert_eq!(parts(b"/a/b?x=1&y=2"), (b"/a/b".to_vec(), Some(b"x=1&y=2".to_vec()), b"/a/b?x=1&y=2".to_vec()));
    assert_eq!(parts(b"/a?"), (b"/a".to_vec(), Some(Vec::new()), b"/a?".to_vec()));
    assert_eq!(parts(b"/a#frag"), (b"/a".to_vec(), None, b"/a".to_vec()));
    assert_eq!(parts(b"/a?q#frag?x"), (b"/a".to_vec(), Some(b"q".to_vec()), b"/a?q".to_vec()));
    assert_eq!(parts(b"/a:b//c"), (b"/a:b//c".to_vec(), None, b"/a:b//c".to_vec()));
    assert_eq!(
        parts(b"http://example.org/a/b?x=1"),
        (b"/a/b".to_vec(), Some(b"x=1".to_vec()), b"/a/b?x=1".to_vec())
    );
    assert_eq!(parts(b"http://example.org"), (b"/".to_vec(), None, b"/".to_vec()));
    assert_eq!(
        parts(b"http://example.org?x=/y"),
        (b"/".to_vec(), Some(b"x=/y".to_vec()), b"/?x=/y".to_vec())
    );
    assert_eq!(parts(b"https://h:8443/p#f"), (b"/p".to_vec(), None, b"/p".to_vec()));
    assert_eq!(parts(b"*"), (b"*".to_vec(), None, b"*".to_vec()));
    assert_eq!(parts(b"example.org:443"), (b"/".to_vec(), None, b"/".to_vec()));
    assert_eq!(Uri::from_bytes(b"").unwrap_err(), Error::Uri);
    assert_eq!(Uri::from_bytes(b"/a b").unwrap_err(), Error::Uri);
    assert_eq!(Uri::from_bytes(b"/a\r\n").unwrap_err(), Error::Uri);
    assert_eq!(Uri::from_bytes(b"/\xff").unwrap_err(), Error::Uri);
    assert_eq!(Uri::default().as_bytes(), b"/");
    assert_eq!(uri(b"/x").clone().as_bytes(), b"/x");
    let mut wire = Vec::new();
    RequestLine::new(Method::Put, uri(b"/x?y")).write_to(&mut wire);
    assert_eq!(wire, b"PUT /x?y".to_vec());
    let line = RequestLine::default();
    assert!(matches!(line.method, Method::Get));
    assert_eq!(line.clone().uri.as_bytes(), b"/");
}

#[test]
fn request_pack_and_unpack() {
    let uri = Uri::from_bytes(b"http://example.org/a?b#c").unwrap();
    let mut req: Request<Vec<u8>> = Request::new(Method::Post, uri);
    assert_eq!(req.version(), HttpVersion::Http11);
    assert!(req.headers().is_empty());
    assert!(req.body_ref().is_none());
    assert!(req.remote_addr().is_none());
    assert_eq!(req.path(), b"/a".to_vec());
    assert_eq!(req.query(), Some(b"b".to_vec()));
    assert_eq!(req.uri().as_bytes(), b"http://example.org/a?b#c");
    assert!(matches!(req.method(), Method::Post));
    req.headers_mut().append_raw(b"Host", b"example.org");
    req.set_body(b"body".to_vec());
    req.set_version(HttpVersion::Http10);
    assert_eq!(req.body_ref(), Some(&b"body".to_vec()));

    let (addr, head, body) = req.unpack();
    assert_eq!(addr, None);
    assert_eq!(head.version, HttpVersion::Http10);
    assert_eq!(head.subject.uri.as_bytes(), b"/a?b");
    assert!(matches!(head.subject.method, Method::Post));
    assert_eq!(head.headers.get_raw(b"host"), Some(&b"example.org"[..]));
    assert_eq!(body, Some(b"body".to_vec()));

    let peer = PeerAddr::V4(0x7f00_0001, 8080);
    let req = Request::pack(Some(peer), head, body);
    assert_eq!(req.remote_addr(), Some(peer));
    assert_eq!(req.uri().as_bytes(), b"/a?b");
    assert_eq!(req.version(), HttpVersion::Http10);
    let (method, uri, version, headers, body) = req.deconstruct();
    assert!(matches!(method, Method::Post));
    assert_eq!(uri.as_bytes(), b"/a?b");
    assert_eq!(version, HttpVersion::Http10);
    assert_eq!(headers.len(), 1);
    assert_eq!(body, b"body".to_vec());
}

#[test]
fn request_to_a_proxy_keeps_its_target() {
    let uri = Uri::from_bytes(b"http://example.org/a?b").unwrap();
    let mut req: Request = Request::new(Method::Get, uri);
    req.set_proxy(true);
    req.set_method(Method::Head);
    let (_, head, body) = req.unpack();
    assert_eq!(head.subject.uri.as_bytes(), b"http://example.org/a?b");
    assert!(matches!(head.subject.method, Method::Head));
    assert_eq!(body, None);

    let mut req: Request = Request::new(Method::Get, Uri::default());
    req.set_uri(Uri::from_bytes(b"http://example.org").unwrap());
    req.set_proxy(true);
    req.set_proxy(false);
    let (_, head, _) = req.unpack();
    assert_eq!(head.subject.uri.as_bytes(), b"/");
    let req: Request = Request::new(Method::Get, Uri::default());
    assert_eq!(req.body(), Vec::<u8>::new());
}

#[test]
fn response_pack_and_unpack() {
    let res: Response = Response::new();
    assert_eq!(res.status(), StatusCode(200));
    assert_eq!(res.version(), HttpVersion::Http11);
    assert!(res.headers().is_empty());
    assert!(res.body_ref().is_none());
    let mut other = Headers::new();
    other.append_raw(b"X", b"y");
    let mut res = res
        .with_status(StatusCode(404))
        .with_headers(other)
        .with_header(ContentLength(4))
        .with_body(b"gone".to_vec());
    assert_eq!(res.status(), StatusCode(404));
    assert_eq!(res.headers().len(), 2);
    assert_eq!(res.body_ref(), Some(&b"gone".to_vec()));
    res.set_status(StatusCode(410));
    res.headers_mut().remove_raw(b"x");
    res.set_body(b"gone!".to_vec());
    let (head, body) = res.unpack();
    assert_eq!(head.subject, StatusCode(410));
    assert_eq!(head.version, HttpVersion::Http11);
    assert_eq!(head.headers.len(), 1);
    assert_eq!(head.headers.get_raw(b"content-length"), Some(&b"4"[..]));
    assert_eq!(body, Some(b"gone!".to_vec()));
    let res = Response::pack(head, body);
    assert_eq!(res.status(), StatusCode(410));
    assert_eq!(res.body(), b"gone!".to_vec());
    let res: Response = Response::default();
    assert_eq!(res.status(), StatusCode(200));
    assert_eq!(res.body(), Vec::<u8>::new());
}

#[test]
fn plain_lines() {
    assert!(line_is_plain(b"Name", b"value"));
    assert!(line_is_plain(b"Name", b""));
    assert!(line_is_plain(b"x-a.b", b"a b\tc"));
    assert!(!line_is_plain(b"", b"value"));
    assert!(!line_is_plain(b"Na me", b"value"));
    assert!(!line_is_plain(b"Name:", b"value"));
    assert!(!line_is_plain(b"Name", b" value"));
    assert!(!line_is_plain(b"Name", b"value\t"));
    assert!(!line_is_plain(b"Name", b"va\r\nInjected: lue"));
    assert!(!line_is_plain(b"Name", b"va\x00lue"));
    let mut headers = Headers::new();
    assert!(lines_are_plain(&headers));
    for _ in 0..100 {
        headers.append_raw(b"A", b"b");
    }
    assert!(lines_are_plain(&headers));
    headers.append_raw(b"A", b"b");
    assert!(!lines_are_plain(&headers));
    let mut headers = Headers::new();
    headers.append_raw(b"A", b"b");
    headers.append_raw(b"A", b"b\n");
    assert!(!lines_are_plain(&headers));
}
