use http_framing::{Encoder, Error};

#[test]
fn zero_refuses_every_write() {
    let mut e = Encoder::Zero;
    let mut dst = b"head".to_vec();
    assert_eq!(e.encode(b"x", &mut dst), Err(Error::Write));
    assert_eq!(e.encode(b"", &mut dst), Err(Error::Write));
    assert_eq!(dst, b"head".to_vec());
    assert!(e.is_eof());
    assert_eq!(e.end(&mut dst), Ok(()));
    assert_eq!(dst, b"head".to_vec());
    assert_eq!(e, Encoder::Zero);
}

#[test]
fn fixed_passes_the_declared_bytes_on() {
    let mut e = Encoder::Fixed(5);
    let mut dst = Vec::new();
    assert!(!e.is_eof());
    assert_eq!(e.encode(b"he", &mut dst), Ok(()));
    assert_eq!(e, Encoder::Fixed(3));
    assert_eq!(e.encode(b"", &mut dst), Ok(()));
    assert_eq!(e, Encoder::Fixed(3));
    assert_eq!(e.encode(b"llo", &mut dst), Ok(()));
    assert_eq!(e, Encoder::Fixed(0));
    assert!(e.is_eof());
    assert_eq!(dst, b"hello".to_vec());
    assert_eq!(e.end(&mut dst), Ok(()));
    assert_eq!(dst, b"hello".to_vec());
}

#[test]
fn fixed_refuses_to_write_past_the_length() {
    let mut e = Encoder::Fixed(5);
    let mut dst = Vec::new();
    assert_eq!(e.encode(b"hello!", &mut dst), Err(Error::Write));
    assert_eq!(e, Encoder::Fixed(5));
    assert!(dst.is_empty());
    assert_eq!(e.encode(b"hell", &mut dst), Ok(()));
    assert_eq!(e.encode(b"o!", &mut dst), Err(Error::Write));
    assert_eq!(e, Encoder::Fixed(1));
    assert_eq!(dst, b"hell".to_vec());
}

#[test]
fn fixed_refuses_to_write_once_exhausted() {
    let mut e = Encoder::Fixed(1);
    let mut dst = Vec::new();
    assert_eq!(e.encode(b"x", &mut dst), Ok(()));
    assert_eq!(e.encode(b"y", &mut dst), Err(Error::Write));
    assert_eq!(e.encode(b"", &mut dst), Err(Error::Write));
    assert_eq!(dst, b"x".to_vec());
}

#[test]
fn fixed_refuses_to_end_early() {
    let mut e = Encoder::Fixed(2);
    let mut dst = Vec::new();
    assert_eq!(e.encode(b"x", &mut dst), Ok(()));
    assert_eq!(e.end(&mut dst), Err(Error::Write));
    assert_eq!(e, Encoder::Fixed(1));
    assert_eq!(dst, b"x".to_vec());
}

#[test]
fn chunked_wraps_every_write() {
    let mut e = Encoder::Chunked(false);
    let mut dst = Vec::new();
    assert_eq!(e.encode(b"hello", &mut dst), Ok(()));
    assert_eq!(dst, b"5\r\nhello\r\n".to_vec());
    assert_eq!(e.encode(&[b'a'; 26], &mut dst), Ok(()));
    assert_eq!(dst, b"5\r\nhello\r\n1A\r\naaaaaaaaaaaaaaaaaaaaaaaaaa\r\n".to_vec());
    assert_eq!(e, Encoder::Chunked(false));
    assert!(!e.is_eof());
}

#[test]
fn chunked_writes_sizes_in_hexadecimal() {
    let mut e = Encoder::Chunked(false);
    let mut dst = Vec::new();
    assert_eq!(e.encode(&[0u8; 255], &mut dst), Ok(()));
    assert_eq!(&dst[..4], b"FF\r\n");
    assert_eq!(dst.len(), 4 + 255 + 2);
    let mut dst = Vec::new();
    assert_eq!(e.encode(&[0u8; 4096], &mut dst), Ok(()));
    assert_eq!(&dst[..6], b"1000\r\n");
}

#[test]
fn chunked_passes_an_empty_write_on_as_nothing() {
    let mut e = Encoder::Chunked(false);
    let mut dst = Vec::new();
    assert_eq!(e.encode(b"", &mut dst), Ok(()));
    assert!(dst.is_empty());
    assert_eq!(e, Encoder::Chunked(false));
}

#[test]
fn chunked_ends_with_one_last_chunk() {
    let mut e = Encoder::Chunked(false);
    let mut dst = Vec::new();
    assert_eq!(e.encode(b"hi", &mut dst), Ok(()));
    assert_eq!(e.end(&mut dst), Ok(()));
    assert_eq!(dst, b"2\r\nhi\r\n0\r\n\r\n".to_vec());
    assert_eq!(e, Encoder::Chunked(true));
    assert!(e.is_eof());
    assert_eq!(e.end(&mut dst), Ok(()));
    assert_eq!(dst, b"2\r\nhi\r\n0\r\n\r\n".to_vec());
    assert_eq!(e.encode(b"more", &mut dst), Err(Error::Write));
    assert_eq!(e.encode(b"", &mut dst), Err(Error::Write));
    assert_eq!(dst, b"2\r\nhi\r\n0\r\n\r\n".to_vec());
}

#[test]
fn close_delimited_passes_everything_on() {
    let mut e = Encoder::CloseDelimited;
    let mut dst = Vec::new();
    assert_eq!(e.encode(b"0\r\n\r\n", &mut dst), Ok(()));
    assert_eq!(e.encode(b"", &mut dst), Ok(()));
    assert_eq!(e.end(&mut dst), Ok(()));
    assert_eq!(dst, b"0\r\n\r\n".to_vec());
    assert!(!e.is_eof());
    assert!(e.is_close_delimited());
    assert!(!Encoder::Zero.is_close_delimited());
}
