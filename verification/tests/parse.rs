use bytes::BytesMut;
use http_framing::http::h1::parse::{
    parse_header_lines, parse_request, parse_request_line, parse_response, parse_status_line,
    MAX_HEADERS, MAX_HEAD_SIZE,
};
use http_framing::{
    ClientTransaction, Error, Http1Transaction, HttpVersion, Method, ServerTransaction,
    StatusCode,
};

fn token(m: &Method) -> Vec<u8> {
    let mut v = Vec::new();
    m.write_to(&mut v);
    v
}

#[test]
fn parses_a_request_head() {
    let wire = b"GET /index.html?x=1 HTTP/1.1\r\nHost: example.org\r\nAccept:  */*  \r\n\r\nBODY";
    let mut buf = BytesMut::from(&wire[..]);
    let (head, n) = ServerTransaction::parse(&mut buf).unwrap().unwrap();
    assert_eq!(n, wire.len() - 4);
    assert_eq!(&buf[..], &wire[..]);
    assert_eq!(head.version, HttpVersion::Http11);
    assert_eq!(token(&head.subject.method), b"GET".to_vec());
    assert!(matches!(head.subject.method, Method::Get));
    assert_eq!(head.subject.uri.as_bytes(), b"/index.html?x=1");
    assert_eq!(head.headers.len(), 2);
    assert_eq!(head.headers.name_at(0), b"Host");
    assert_eq!(head.headers.value_at(0), b"example.org");
    assert_eq!(head.headers.name_at(1), b"Accept");
    assert_eq!(head.headers.value_at(1), b"*/*");
}

#[test]
fn parses_a_request_head_without_headers() {
    let (head, n) = parse_request(b"PURGE * HTTP/1.0\r\n\r\n").unwrap().unwrap();
    assert_eq!(n, 20);
    assert_eq!(head.version, HttpVersion::Http10);
    assert!(matches!(head.subject.method, Method::Extension(_)));
    assert_eq!(token(&head.subject.method), b"PURGE".to_vec());
    assert_eq!(head.subject.uri.as_bytes(), b"*");
    assert!(head.headers.is_empty());
}

#[test]
fn parses_a_response_head() {
    let wire = b"HTTP/1.1 404 Not Found\r\nContent-Length: 0\r\n\r\nHTTP/1.1 200 OK\r\n\r\n";
    let mut buf = BytesMut::from(&wire[..]);
    let (head, n) = ClientTransaction::parse(&mut buf).unwrap().unwrap();
    assert_eq!(n, 45);
    assert_eq!(&buf[..], &wire[..]);
    assert_eq!(head.version, HttpVersion::Http11);
    assert_eq!(head.subject, StatusCode(404));
    assert_eq!(head.headers.len(), 1);
    assert_eq!(head.headers.get_raw(b"content-length"), Some(&b"0"[..]));

    let rest = BytesMut::from(&wire[n..]);
    let mut rest = rest;
    let (head, n) = ClientTransaction::parse(&mut rest).unwrap().unwrap();
    assert_eq!(n, 19);
    assert_eq!(head.subject, StatusCode(200));
    assert_eq!(head.headers.len(), 0);
}

#[test]
fn status_line_forms() {
    assert_eq!(parse_status_line(b"HTTP/1.0 200"), Ok((StatusCode(200), HttpVersion::Http10)));
    assert_eq!(parse_status_line(b"HTTP/1.1 200 "), Ok((StatusCode(200), HttpVersion::Http11)));
    assert_eq!(
        parse_status_line(b"HTTP/1.1 599 Any phrase\t at all"),
        Ok((StatusCode(599), HttpVersion::Http11))
    );
    assert_eq!(parse_status_line(b"HTTP/1.1 999 x"), Ok((StatusCode(999), HttpVersion::Http11)));
    assert_eq!(parse_status_line(b""), Err(Error::Version));
    assert_eq!(parse_status_line(b"HTTP/1."), Err(Error::Version));
    assert_eq!(parse_status_line(b"HTTP/2.0 200 OK"), Err(Error::Version));
    assert_eq!(parse_status_line(b"http/1.1 200 OK"), Err(Error::Version));
    assert_eq!(parse_status_line(b"HTTP/1.1"), Err(Error::Status));
    assert_eq!(parse_status_line(b"HTTP/1.1 20"), Err(Error::Status));
    assert_eq!(parse_status_line(b"HTTP/1.1\t200 OK"), Err(Error::Status));
    assert_eq!(parse_status_line(b"HTTP/1.1 2x0 OK"), Err(Error::Status));
    assert_eq!(parse_status_line(b"HTTP/1.1 099 OK"), Err(Error::Status));
    assert_eq!(parse_status_line(b"HTTP/1.1 2000 OK"), Err(Error::Status));
    assert_eq!(parse_status_line(b"HTTP/1.1 200OK"), Err(Error::Status));
    assert_eq!(parse_status_line(b"HTTP/1.1 200 O\rK"), Err(Error::Status));
}

#[test]
fn request_line_errors() {
    assert_eq!(parse_request_line(b"").unwrap_err(), Error::Method);
    assert_eq!(parse_request_line(b" / HTTP/1.1").unwrap_err(), Error::Method);
    assert_eq!(parse_request_line(b"G(T / HTTP/1.1").unwrap_err(), Error::Method);
    assert_eq!(parse_request_line(b"GET\t/ HTTP/1.1").unwrap_err(), Error::Method);
    assert_eq!(parse_request_line(b"GET").unwrap_err(), Error::Uri);
    assert_eq!(parse_request_line(b"GET ").unwrap_err(), Error::Uri);
    assert_eq!(parse_request_line(b"GET  HTTP/1.1").unwrap_err(), Error::Uri);
    assert_eq!(parse_request_line(b"GET /\x7f HTTP/1.1").unwrap_err(), Error::Uri);
    assert_eq!(parse_request_line(b"GET /\xc3\xa9 HTTP/1.1").unwrap_err(), Error::Uri);
    assert_eq!(parse_request_line(b"GET /").unwrap_err(), Error::Version);
    assert_eq!(parse_request_line(b"GET / ").unwrap_err(), Error::Version);
    assert_eq!(parse_request_line(b"GET / HTTP/1.2").unwrap_err(), Error::Version);
    assert_eq!(parse_request_line(b"GET / HTTP/1.1 ").unwrap_err(), Error::Version);
    assert_eq!(parse_request_line(b"GET / x HTTP/1.1").unwrap_err(), Error::Version);
    let (line, version) = parse_request_line(b"OPTIONS * HTTP/1.0").unwrap();
    assert!(matches!(line.method, Method::Options));
    assert_eq!(line.uri.as_bytes(), b"*");
    assert_eq!(version, HttpVersion::Http10);
}

#[test]
fn incomplete_heads_ask_for_more() {
    let whole = b"POST /a HTTP/1.1\r\nHost: h\r\nContent-Length: 3\r\n\r\n";
    for cut in 0..whole.len() {
        let r = parse_request(&whole[..cut]);
        assert!(matches!(r, Ok(None)), "cut at {}", cut);
    }
    assert!(matches!(parse_request(whole), Ok(Some((_, 48)))));
    let whole = b"HTTP/1.1 200 OK\r\nServer: s\r\n\r\n";
    for cut in 0..whole.len() {
        assert!(matches!(parse_response(&whole[..cut]), Ok(None)), "cut at {}", cut);
    }
    assert!(matches!(parse_response(whole), Ok(Some((_, 30)))));
}

#[test]
fn retry_on_the_same_buffer_gives_the_same_answer() {
    let mut buf = BytesMut::from(&b"GET / HTTP/1.1\r\nHost: exam"[..]);
    let before = buf.clone();
    for _ in 0..3 {
        assert!(matches!(ServerTransaction::parse(&mut buf), Ok(None)));
        assert_eq!(buf, before);
    }
    buf.extend_from_slice(b"ple.org\r\n\r\n");
    let (head, n) = ServerTransaction::parse(&mut buf).unwrap().unwrap();
    assert_eq!(n, buf.len());
    assert_eq!(head.headers.value_at(0), b"example.org");
    let (again, m) = ServerTransaction::parse(&mut buf).unwrap().unwrap();
    assert_eq!(m, n);
    assert_eq!(again.headers.value_at(0), b"example.org");

    let mut buf = BytesMut::from(&b"HTTP/1.1 200 OK\r\n"[..]);
    let before = buf.clone();
    for _ in 0..3 {
        assert!(matches!(ClientTransaction::parse(&mut buf), Ok(None)));
        assert_eq!(buf, before);
    }
}

#[test]
fn a_complete_head_is_not_changed_by_what_follows() {
    let head = b"GET /a HTTP/1.1\r\nHost: h\r\n\r\n";
    let mut longer = head.to_vec();
    longer.extend_from_slice(b"\x00\x01garbage\r\n\r\n");
    let (a, n) = parse_request(head).unwrap().unwrap();
    let (b, m) = parse_request(&longer).unwrap().unwrap();
    assert_eq!(n, m);
    assert_eq!(a.headers.len(), b.headers.len());
    assert_eq!(a.subject.uri.as_bytes(), b.subject.uri.as_bytes());
}

#[test]
fn malformed_heads_are_refused() {
    assert_eq!(parse_request(b"\r\nGET / HTTP/1.1\r\n\r\n").unwrap_err(), Error::Method);
    assert_eq!(parse_request(b"GET\r\n").unwrap_err(), Error::Uri);
    assert_eq!(parse_request(b"GET / HTTP/0.9\r\n").unwrap_err(), Error::Version);
    assert_eq!(parse_request(b"GET / HTTP/1.1\nHost: h\r\n\r\n").unwrap_err(), Error::Version);
    assert_eq!(parse_request(b"GET / HTTP/1.1\r\nHost h\r\n\r\n").unwrap_err(), Error::Header);
    assert_eq!(parse_request(b"GET / HTTP/1.1\r\nHost : h\r\n\r\n").unwrap_err(), Error::Header);
    assert_eq!(parse_request(b"GET / HTTP/1.1\r\n: h\r\n\r\n").unwrap_err(), Error::Header);
    assert_eq!(
        parse_request(b"GET / HTTP/1.1\r\nA: 1\r\n folded\r\n\r\n").unwrap_err(),
        Error::Header
    );
    assert_eq!(parse_request(b"GET / HTTP/1.1\r\nA: b\x00c\r\n").unwrap_err(), Error::Header);
    assert_eq!(parse_response(b"HTTP/1.1 abc OK\r\n").unwrap_err(), Error::Status);
    assert_eq!(parse_response(b"ICY 200 OK\r\n").unwrap_err(), Error::Version);
    assert_eq!(parse_response(b"HTTP/1.1 200 OK\r\nbad header\r\n").unwrap_err(), Error::Header);
}

#[test]
fn an_error_is_reported_as_soon_as_its_line_is_whole() {
    assert!(matches!(parse_request(b"GET / HTTP/9.9"), Ok(None)));
    assert!(matches!(parse_request(b"GET / HTTP/9.9\r"), Ok(None)));
    assert_eq!(parse_request(b"GET / HTTP/9.9\r\n").unwrap_err(), Error::Version);
    assert!(matches!(parse_request(b"GET / HTTP/1.1\r\nbad"), Ok(None)));
    assert_eq!(parse_request(b"GET / HTTP/1.1\r\nbad\r\n").unwrap_err(), Error::Header);
}

#[test]
fn empty_header_value_is_accepted() {
    let (head, _) = parse_request(b"GET / HTTP/1.1\r\nX-Empty:\r\nY:   \r\n\r\n").unwrap().unwrap();
    assert_eq!(head.headers.len(), 2);
    assert_eq!(head.headers.value_at(0), b"");
    assert_eq!(head.headers.value_at(1), b"");
}

#[test]
fn too_many_headers_are_refused() {
    let mut wire = b"GET / HTTP/1.1\r\n".to_vec();
    for _ in 0..MAX_HEADERS {
        wire.extend_from_slice(b"A: b\r\n");
    }
    let mut ok = wire.clone();
    ok.extend_from_slice(b"\r\n");
    let (head, n) = parse_request(&ok).unwrap().unwrap();
    assert_eq!(head.headers.len(), 100);
    assert_eq!(n, ok.len());

    assert!(matches!(parse_request(&wire), Ok(None)));
    wire.extend_from_slice(b"A: b");
    assert!(matches!(parse_request(&wire), Ok(None)));
    wire.extend_from_slice(b"\r\n");
    assert_eq!(parse_request(&wire).unwrap_err(), Error::TooLarge);
}

#[test]
fn too_long_heads_are_refused() {
    let mut wire = b"GET / HTTP/1.1\r\nA: ".to_vec();
    wire.resize(MAX_HEAD_SIZE - 1, b'x');
    assert!(matches!(parse_request(&wire), Ok(None)));
    wire.push(b'x');
    assert_eq!(parse_request(&wire).unwrap_err(), Error::TooLarge);
    wire.extend_from_slice(b"\r\n\r\n");
    assert_eq!(parse_request(&wire).unwrap_err(), Error::TooLarge);

    let mut wire = b"HTTP/1.1 200 OK\r\nA: ".to_vec();
    wire.resize(MAX_HEAD_SIZE - 4, b'x');
    wire.extend_from_slice(b"\r\n\r\n");
    assert_eq!(wire.len(), MAX_HEAD_SIZE);
    let (_, n) = parse_response(&wire).unwrap().unwrap();
    assert_eq!(n, MAX_HEAD_SIZE);
    let mut wire = vec![b'x'; MAX_HEAD_SIZE];
    assert_eq!(parse_response(&wire).unwrap_err(), Error::TooLarge);
    wire.pop();
    assert!(matches!(parse_response(&wire), Ok(None)));
}

#[test]
fn header_lines_from_a_position() {
    let wire = b"xxA: 1\r\nB: 2\r\n\r\nrest";
    let (headers, end) = parse_header_lines(wire, 2).unwrap().unwrap();
    assert_eq!(end, 16);
    assert_eq!(headers.len(), 2);
    assert_eq!(headers.name_at(1), b"B");
    assert!(matches!(parse_header_lines(b"A: 1\r\n", 6), Ok(None)));
    assert!(matches!(parse_header_lines(b"\r\n", 0), Ok(Some((_, 2)))));
}
