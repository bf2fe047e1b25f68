use bytes::BytesMut;
use http_framing::header::fields::ContentLength;
use http_framing::{
    ChunkPhase, ClientTransaction, Decoder, Encoder, Headers, Http1Transaction, HttpVersion,
    MessageHead, Method, RequestLine, ServerTransaction, StatusCode, Uri,
};

fn send_request(
    version: HttpVersion,
    headers: Headers,
    parts: &[&[u8]],
    slot: &mut Option<Method>,
) -> (Vec<u8>, Encoder) {
    let mut head =
        MessageHead::new(version, RequestLine::new(Method::Post, Uri::from_bytes(b"/up").unwrap()));
    head.headers = headers;
    let mut wire = Vec::new();
    let mut encoder = ClientTransaction::encode(head, true, slot, &mut wire);
    for part in parts {
        encoder.encode(part, &mut wire).unwrap();
    }
    encoder.end(&mut wire).unwrap();
    (wire, encoder)
}

fn receive_request(wire: &[u8]) -> (Vec<u8>, Decoder, usize) {
    let mut buf = BytesMut::from(wire);
    let (head, n) = ServerTransaction::parse(&mut buf).unwrap().unwrap();
    let mut slot = None;
    let mut decoder = ServerTransaction::decoder(&head, &mut slot).unwrap();
    let out = decoder.decode_all(&wire[n..]).unwrap();
    (out.data, decoder, n + out.consumed)
}

#[test]
fn fixed_body_round_trip() {
    let mut headers = Headers::new();
    headers.set(ContentLength(11));
    let mut slot = None;
    let (mut wire, encoder) =
        send_request(HttpVersion::Http11, headers, &[b"hello", b" ", b"world"], &mut slot);
    assert_eq!(encoder, Encoder::Fixed(0));
    assert_eq!(wire, b"POST /up HTTP/1.1\r\nContent-Length: 11\r\n\r\nhello world".to_vec());
    wire.extend_from_slice(b"GET /next HTTP/1.1\r\n\r\n");
    let (body, decoder, used) = receive_request(&wire);
    assert_eq!(body, b"hello world".to_vec());
    assert_eq!(decoder, Decoder::Fixed(0));
    assert!(decoder.is_done());
    assert_eq!(&wire[used..], b"GET /next HTTP/1.1\r\n\r\n");
}

#[test]
fn empty_fixed_body_round_trip() {
    let mut headers = Headers::new();
    headers.set(ContentLength(0));
    let mut slot = None;
    let (wire, encoder) = send_request(HttpVersion::Http11, headers, &[], &mut slot);
    assert_eq!(encoder, Encoder::Fixed(0));
    let (body, decoder, used) = receive_request(&wire);
    assert!(body.is_empty());
    assert_eq!(decoder, Decoder::Zero);
    assert!(decoder.is_done());
    assert_eq!(used, wire.len());
}

#[test]
fn chunked_body_round_trip() {
    let mut slot = None;
    let parts: [&[u8]; 4] = [b"hello", b" ", b"0\r\n\r\n", &[7u8; 300]];
    let (mut wire, encoder) = send_request(HttpVersion::Http11, Headers::new(), &parts, &mut slot);
    assert_eq!(encoder, Encoder::Chunked(true));
    let end = wire.len();
    wire.extend_from_slice(b"GET /next HTTP/1.1\r\n\r\n");
    let (body, decoder, used) = receive_request(&wire);
    let mut expected = Vec::new();
    for part in parts {
        expected.extend_from_slice(part);
    }
    assert_eq!(body, expected);
    assert_eq!(decoder, Decoder::Chunked(ChunkPhase::Done));
    assert_eq!(used, end);
}

#[test]
fn chunked_body_without_parts_round_trip() {
    let mut slot = None;
    let (wire, _) = send_request(HttpVersion::Http11, Headers::new(), &[], &mut slot);
    assert_eq!(
        wire,
        b"POST /up HTTP/1.1\r\nTransfer-Encoding: chunked\r\n\r\n0\r\n\r\n".to_vec()
    );
    let (body, decoder, used) = receive_request(&wire);
    assert!(body.is_empty());
    assert!(decoder.is_done());
    assert_eq!(used, wire.len());
}

#[test]
fn response_round_trip_in_every_framing() {
    for (version, length, expected_encoder, expected_decoder) in [
        (HttpVersion::Http11, Some(4u64), Encoder::Fixed(0), Decoder::Fixed(0)),
        (HttpVersion::Http10, Some(4u64), Encoder::Fixed(0), Decoder::Fixed(0)),
        (HttpVersion::Http11, None, Encoder::Chunked(true), Decoder::Chunked(ChunkPhase::Done)),
        (HttpVersion::Http10, None, Encoder::CloseDelimited, Decoder::CloseDelimited),
    ] {
        let mut head = MessageHead::new(version, StatusCode(200));
        if let Some(n) = length {
            head.headers.set(ContentLength(n));
        }
        let mut server_slot = Some(Method::Get);
        let mut wire = Vec::new();
        let mut encoder = ServerTransaction::encode(head, true, &mut server_slot, &mut wire);
        encoder.encode(b"bo", &mut wire).unwrap();
        encoder.encode(b"dy", &mut wire).unwrap();
        encoder.end(&mut wire).unwrap();
        assert_eq!(encoder, expected_encoder);

        let mut buf = BytesMut::from(&wire[..]);
        let (head, n) = ClientTransaction::parse(&mut buf).unwrap().unwrap();
        assert_eq!(head.version, version);
        let mut client_slot = Some(Method::Get);
        let mut decoder = ClientTransaction::decoder(&head, &mut client_slot).unwrap();
        let out = decoder.decode_all(&wire[n..]).unwrap();
        assert_eq!(out.data, b"body".to_vec());
        assert_eq!(n + out.consumed, wire.len());
        assert_eq!(decoder, expected_decoder);
    }
}
