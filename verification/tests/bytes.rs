use dnswire::bytes::{bytes_eq, BytesBuf, BytesSlice};
use dnswire::error::ParseError;

#[test]
fn split_u8_reads_first_byte() {
    let data: [u8; 3] = [7, 8, 9];
    let (v, rest) = data[..].split_u8().unwrap();
    assert_eq!(v, 7);
    assert_eq!(rest, &[8, 9]);
}

#[test]
fn split_u16_is_big_endian() {
    let data: [u8; 2] = [0x01, 0x02];
    let (v, rest) = data[..].split_u16().unwrap();
    assert_eq!(v, 0x0102);
    assert!(rest.is_empty());
}

#[test]
fn split_u32_is_big_endian() {
    let data: [u8; 5] = [0x01, 0x02, 0x03, 0x04, 0x05];
    let (v, rest) = data[..].split_u32().unwrap();
    assert_eq!(v, 0x01020304);
    assert_eq!(rest, &[0x05]);
}

#[test]
fn split_bytes_splits_at_index() {
    let data: [u8; 4] = [1, 2, 3, 4];
    let (head, rest) = data[..].split_bytes(3).unwrap();
    assert_eq!(head, &[1, 2, 3]);
    assert_eq!(rest, &[4]);
}

#[test]
fn tail_drops_a_prefix() {
    let data: [u8; 4] = [1, 2, 3, 4];
    let rest = data[..].tail(2).unwrap();
    assert_eq!(rest, &[3, 4]);
}

#[test]
fn cursor_bounds_fail_with_unexpected_end() {
    let data: [u8; 1] = [1];
    assert_eq!(data[..].split_u16().unwrap_err(), ParseError::UnexpectedEnd);
    assert_eq!(data[..].split_u32().unwrap_err(), ParseError::UnexpectedEnd);
    assert_eq!(data[..].split_bytes(2).unwrap_err(), ParseError::UnexpectedEnd);
    assert_eq!(data[..].tail(2).unwrap_err(), ParseError::UnexpectedEnd);
    let empty: [u8; 0] = [];
    assert_eq!(empty[..].split_u8().unwrap_err(), ParseError::UnexpectedEnd);
    // The view is untouched; a retry with a fitting size succeeds.
    let (v, _) = data[..].split_u8().unwrap();
    assert_eq!(v, 1);
}

#[test]
fn check_len_decides_on_the_view_length() {
    let data: [u8; 2] = [1, 2];
    assert!(data[..].check_len(0).is_ok());
    assert!(data[..].check_len(2).is_ok());
    assert_eq!(data[..].check_len(3).unwrap_err(), ParseError::UnexpectedEnd);
}

#[test]
fn push_u16_appends_big_endian_bytes() {
    let mut sink: Vec<u8> = Vec::new();
    sink.push_u16(0x0102);
    assert_eq!(sink, vec![0x01, 0x02]);
}

#[test]
fn push_u32_appends_big_endian_bytes() {
    let mut sink: Vec<u8> = Vec::new();
    sink.push_u32(0x01020304);
    assert_eq!(sink, vec![0x01, 0x02, 0x03, 0x04]);
}

#[test]
fn pushes_are_pure_appends() {
    let mut sink: Vec<u8> = Vec::new();
    sink.push_u8(0xAB);
    sink.reserve(100);
    sink.push_bytes(&[1, 2]);
    sink.push_u8(3);
    assert_eq!(sink, vec![0xAB, 1, 2, 3]);
}

#[test]
fn bytes_eq_compares_contents() {
    assert!(bytes_eq(&[1, 2], &[1, 2]));
    assert!(!bytes_eq(&[1, 2], &[1, 3]));
    assert!(!bytes_eq(&[1, 2], &[1, 2, 3]));
    assert!(bytes_eq(&[], &[]));
}
