use http_framing::http::h1::decode::chunk_size;
use http_framing::{ChunkPhase, Decoder, Error};

#[test]
fn zero_takes_nothing() {
    let mut d = Decoder::Zero;
    let step = d.decode(b"GET / HTTP/1.1\r\n").unwrap();
    assert_eq!(step.consumed, 0);
    assert!(step.data.is_empty());
    assert!(d.is_done());
}

#[test]
fn fixed_takes_no_more_than_is_left() {
    let mut d = Decoder::Fixed(5);
    assert!(!d.is_done());
    let step = d.decode(b"he").unwrap();
    assert_eq!((step.consumed, step.data), (2, b"he".to_vec()));
    assert_eq!(d, Decoder::Fixed(3));
    let step = d.decode(b"lloGET /").unwrap();
    assert_eq!((step.consumed, step.data), (3, b"llo".to_vec()));
    assert_eq!(d, Decoder::Fixed(0));
    assert!(d.is_done());
    let step = d.decode(b"GET /").unwrap();
    assert_eq!((step.consumed, step.data), (0, Vec::new()));
}

#[test]
fn fixed_waits_on_empty_input() {
    let mut d = Decoder::Fixed(5);
    let step = d.decode(b"").unwrap();
    assert_eq!((step.consumed, step.data), (0, Vec::new()));
    assert_eq!(d, Decoder::Fixed(5));
}

#[test]
fn close_delimited_takes_everything() {
    let mut d = Decoder::CloseDelimited;
    let step = d.decode(b"anything\r\n0\r\n\r\n").unwrap();
    assert_eq!(step.consumed, 15);
    assert_eq!(step.data, b"anything\r\n0\r\n\r\n".to_vec());
    assert_eq!(d, Decoder::CloseDelimited);
    assert!(!d.is_done());
}

#[test]
fn chunk_size_lines() {
    assert_eq!(chunk_size(b"0"), Some(0));
    assert_eq!(chunk_size(b"5"), Some(5));
    assert_eq!(chunk_size(b"1f"), Some(31));
    assert_eq!(chunk_size(b"1F"), Some(31));
    assert_eq!(chunk_size(b"000a"), Some(10));
    assert_eq!(chunk_size(b"a;name=value"), Some(10));
    assert_eq!(chunk_size(b"a ; name"), Some(10));
    assert_eq!(chunk_size(b"a\t"), Some(10));
    assert_eq!(chunk_size(b"ffffffffffffffff"), Some(u64::MAX));
    assert_eq!(chunk_size(b"10000000000000000"), None);
    assert_eq!(chunk_size(b""), None);
    assert_eq!(chunk_size(b";ext"), None);
    assert_eq!(chunk_size(b"g"), None);
    assert_eq!(chunk_size(b"5x"), None);
    assert_eq!(chunk_size(b"0x5"), None);
    assert_eq!(chunk_size(b"-5"), None);
    assert_eq!(chunk_size(b"5;a\rb"), None);
    assert_eq!(chunk_size(b"5;a\x00"), None);
}

#[test]
fn chunked_goes_through_its_phases() {
    let wire = b"5;x=y\r\nhello\r\n3\r\nabc\r\n0\r\nTrailer: v\r\n\r\nNEXT";
    let mut d = Decoder::Chunked(ChunkPhase::Size);
    let mut at = 0;

    let step = d.decode(&wire[at..]).unwrap();
    assert_eq!((step.consumed, step.data), (7, Vec::new()));
    assert_eq!(d, Decoder::Chunked(ChunkPhase::Data(5)));
    at += step.consumed;

    let step = d.decode(&wire[at..at + 2]).unwrap();
    assert_eq!((step.consumed, step.data), (2, b"he".to_vec()));
    assert_eq!(d, Decoder::Chunked(ChunkPhase::Data(3)));
    at += step.consumed;

    let step = d.decode(&wire[at..]).unwrap();
    assert_eq!((step.consumed, step.data), (3, b"llo".to_vec()));
    assert_eq!(d, Decoder::Chunked(ChunkPhase::Data(0)));
    at += step.consumed;

    let step = d.decode(&wire[at..]).unwrap();
    assert_eq!((step.consumed, step.data), (2, Vec::new()));
    assert_eq!(d, Decoder::Chunked(ChunkPhase::Size));
    at += step.consumed;

    let step = d.decode(&wire[at..]).unwrap();
    assert_eq!((step.consumed, step.data), (3, Vec::new()));
    assert_eq!(d, Decoder::Chunked(ChunkPhase::Data(3)));
    at += step.consumed;

    let step = d.decode(&wire[at..]).unwrap();
    assert_eq!((step.consumed, step.data), (3, b"abc".to_vec()));
    at += step.consumed;

    let step = d.decode(&wire[at..]).unwrap();
    assert_eq!((step.consumed, step.data), (2, Vec::new()));
    at += step.consumed;

    let step = d.decode(&wire[at..]).unwrap();
    assert_eq!((step.consumed, step.data), (3, Vec::new()));
    assert_eq!(d, Decoder::Chunked(ChunkPhase::Trailer));
    assert!(!d.is_done());
    at += step.consumed;

    let step = d.decode(&wire[at..]).unwrap();
    assert_eq!((step.consumed, step.data), (12, Vec::new()));
    assert_eq!(d, Decoder::Chunked(ChunkPhase::Trailer));
    at += step.consumed;

    let step = d.decode(&wire[at..]).unwrap();
    assert_eq!((step.consumed, step.data), (2, Vec::new()));
    assert_eq!(d, Decoder::Chunked(ChunkPhase::Done));
    assert!(d.is_done());
    at += step.consumed;

    assert_eq!(&wire[at..], b"NEXT");
    let step = d.decode(&wire[at..]).unwrap();
    assert_eq!((step.consumed, step.data), (0, Vec::new()));
}

#[test]
fn chunked_waits_for_whole_lines() {
    let mut d = Decoder::Chunked(ChunkPhase::Size);
    for partial in [&b""[..], b"1", b"1f", b"1f\r", b"zz\r"] {
        let step = d.decode(partial).unwrap();
        assert_eq!((step.consumed, step.data), (0, Vec::new()));
        assert_eq!(d, Decoder::Chunked(ChunkPhase::Size));
    }
    let mut d = Decoder::Chunked(ChunkPhase::Trailer);
    for partial in [&b""[..], b"\r", b"Name: v", b"Name: v\r"] {
        let step = d.decode(partial).unwrap();
        assert_eq!((step.consumed, step.data), (0, Vec::new()));
        assert_eq!(d, Decoder::Chunked(ChunkPhase::Trailer));
    }
    let mut d = Decoder::Chunked(ChunkPhase::Data(0));
    for partial in [&b""[..], b"\r"] {
        let step = d.decode(partial).unwrap();
        assert_eq!((step.consumed, step.data), (0, Vec::new()));
        assert_eq!(d, Decoder::Chunked(ChunkPhase::Data(0)));
    }
}

#[test]
fn chunked_refuses_broken_coding() {
    let mut d = Decoder::Chunked(ChunkPhase::Size);
    assert_eq!(d.decode(b"xyz\r\n").unwrap_err(), Error::Chunk);
    assert_eq!(d, Decoder::Chunked(ChunkPhase::Size));
    assert_eq!(d.decode(b"\r\n").unwrap_err(), Error::Chunk);
    assert_eq!(d.decode(b"1\n2\r\n").unwrap_err(), Error::Chunk);
    assert_eq!(d.decode(b"10000000000000000\r\n").unwrap_err(), Error::Chunk);

    let mut d = Decoder::Chunked(ChunkPhase::Data(0));
    assert_eq!(d.decode(b"x").unwrap_err(), Error::Chunk);
    assert_eq!(d.decode(b"\rx").unwrap_err(), Error::Chunk);
    assert_eq!(d.decode(b"\n\r").unwrap_err(), Error::Chunk);
    assert_eq!(d, Decoder::Chunked(ChunkPhase::Data(0)));

    let mut d = Decoder::Chunked(ChunkPhase::Trailer);
    assert_eq!(d.decode(b"no colon\r\n").unwrap_err(), Error::Chunk);
    assert_eq!(d.decode(b": empty name\r\n").unwrap_err(), Error::Chunk);
    assert_eq!(d.decode(b"bad name: v\r\n").unwrap_err(), Error::Chunk);
    assert_eq!(d.decode(b"Name: a\x01b\r\n").unwrap_err(), Error::Chunk);
    assert_eq!(d, Decoder::Chunked(ChunkPhase::Trailer));
}

#[test]
fn decode_all_reads_a_whole_chunked_body() {
    let wire = b"5\r\nhello\r\n6\r\n world\r\n0\r\n\r\nGET / HTTP/1.1\r\n";
    let mut d = Decoder::Chunked(ChunkPhase::Size);
    let out = d.decode_all(wire).unwrap();
    assert_eq!(out.consumed, 26);
    assert_eq!(out.data, b"hello world".to_vec());
    assert!(d.is_done());
    assert_eq!(&wire[out.consumed..], b"GET / HTTP/1.1\r\n");
}

#[test]
fn decode_all_resumes_across_arrivals() {
    let wire = b"5\r\nhello\r\n6\r\n world\r\n0\r\n\r\n";
    for cut in 0..wire.len() {
        let mut d = Decoder::Chunked(ChunkPhase::Size);
        let first = d.decode_all(&wire[..cut]).unwrap();
        assert!(first.consumed <= cut);
        let second = d.decode_all(&wire[first.consumed..]).unwrap();
        assert_eq!(first.consumed + second.consumed, wire.len());
        let mut data = first.data;
        data.extend(second.data);
        assert_eq!(data, b"hello world".to_vec());
        assert_eq!(d, Decoder::Chunked(ChunkPhase::Done));
    }
}

#[test]
fn decode_all_leaves_the_decoder_alone_on_error() {
    let mut d = Decoder::Chunked(ChunkPhase::Size);
    assert_eq!(d.decode_all(b"5\r\nhello\r\nX\r\n").unwrap_err(), Error::Chunk);
    assert_eq!(d, Decoder::Chunked(ChunkPhase::Size));
}

#[test]
fn decode_all_on_the_other_framings() {
    let mut d = Decoder::Fixed(4);
    let out = d.decode_all(b"bodyNEXT").unwrap();
    assert_eq!((out.consumed, out.data), (4, b"body".to_vec()));
    assert_eq!(d, Decoder::Fixed(0));

    let mut d = Decoder::Fixed(10);
    let out = d.decode_all(b"body").unwrap();
    assert_eq!((out.consumed, out.data), (4, b"body".to_vec()));
    assert_eq!(d, Decoder::Fixed(6));

    let mut d = Decoder::Zero;
    let out = d.decode_all(b"NEXT").unwrap();
    assert_eq!((out.consumed, out.data), (0, Vec::new()));

    let mut d = Decoder::CloseDelimited;
    let out = d.decode_all(b"all of it").unwrap();
    assert_eq!((out.consumed, out.data), (9, b"all of it".to_vec()));
}
