use bishop::line::{LineCodec, LineError};
use bytes::{BufMut, BytesMut};

#[test]
fn line_round_trip() {
    let mut codec = LineCodec;
    let mut buf = BytesMut::new();
    codec.encode(b"hello", &mut buf).unwrap();
    assert_eq!(buf.to_vec(), b"hello\n".to_vec());
    assert_eq!(codec.decode(&mut buf), Some(b"hello".to_vec()));
    assert!(buf.is_empty());
}

#[test]
fn line_without_delimiter_is_incomplete() {
    let mut buf = BytesMut::new();
    buf.put_slice(b"partial");
    assert_eq!(LineCodec.decode(&mut buf), None);
    assert_eq!(buf.to_vec(), b"partial".to_vec());
}

#[test]
fn lines_decode_in_order() {
    let mut buf = BytesMut::new();
    buf.put_slice(b"one\n\ntwo\nrest");
    assert_eq!(LineCodec.decode(&mut buf), Some(b"one".to_vec()));
    assert_eq!(LineCodec.decode(&mut buf), Some(Vec::new()));
    assert_eq!(LineCodec.decode(&mut buf), Some(b"two".to_vec()));
    assert_eq!(LineCodec.decode(&mut buf), None);
    assert_eq!(buf.to_vec(), b"rest".to_vec());
}

#[test]
fn line_with_delimiter_is_refused() {
    let mut buf = BytesMut::new();
    buf.put_slice(b"x");
    assert_eq!(LineCodec.encode(b"a\nb", &mut buf), Err(LineError::ContainsDelimiter));
    assert_eq!(buf.to_vec(), b"x".to_vec());
}
