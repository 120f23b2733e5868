use dnswire::error::SyntaxError;
use dnswire::master::Stream;
use dnswire::rdata::GenericRecordData;

fn scan(text: &[u8]) -> (Result<(), SyntaxError>, Vec<u8>) {
    let mut stream = Stream::new(text);
    let mut sink: Vec<u8> = Vec::new();
    let r = GenericRecordData::scan_into(&mut stream, &mut sink);
    (r, sink)
}

#[test]
fn scan_generic_data() {
    let (r, sink) = scan(b"\\# 0002 0A0B");
    assert!(r.is_ok());
    assert_eq!(sink, vec![0x0A, 0x0B]);
}

#[test]
fn scan_overrun_stops_after_declared_length() {
    let (r, sink) = scan(b"\\# 0001 0A0B");
    assert_eq!(r.unwrap_err(), SyntaxError::LongGenericData);
    assert_eq!(sink, vec![0x0A]);
}

#[test]
fn scan_empty_data() {
    let (r, sink) = scan(b"\\# 0000");
    assert!(r.is_ok());
    assert!(sink.is_empty());
}

#[test]
fn scan_data_split_over_words() {
    let (r, sink) = scan(b"\\# 0003 0a 0B0c");
    assert!(r.is_ok());
    assert_eq!(sink, vec![0x0A, 0x0B, 0x0C]);
}

#[test]
fn scan_too_little_data_is_unexpected_end() {
    let (r, sink) = scan(b"\\# 0003 0A0B");
    assert_eq!(r.unwrap_err(), SyntaxError::UnexpectedEnd);
    assert_eq!(sink, vec![0x0A, 0x0B]);
}

#[test]
fn scan_bad_hex_digit_is_illegal() {
    let (r, sink) = scan(b"\\# 0002 0G0B");
    assert_eq!(r.unwrap_err(), SyntaxError::IllegalCharacter);
    assert!(sink.is_empty());
}

#[test]
fn scan_odd_digit_count_is_illegal() {
    let (r, sink) = scan(b"\\# 0002 0A0");
    assert_eq!(r.unwrap_err(), SyntaxError::IllegalCharacter);
    assert!(sink.is_empty());
}

#[test]
fn scan_missing_marker_is_rejected() {
    let (r, sink) = scan(b"0002 0A0B");
    assert_eq!(r.unwrap_err(), SyntaxError::ExpectedLiteral);
    assert!(sink.is_empty());
}

#[test]
fn scan_oversized_length_is_rejected() {
    let (r, sink) = scan(b"\\# 99999 AA");
    assert_eq!(r.unwrap_err(), SyntaxError::NumberTooLarge);
    assert!(sink.is_empty());
}

#[test]
fn scan_missing_length_is_rejected() {
    let (r, _) = scan(b"\\# ");
    assert_eq!(r.unwrap_err(), SyntaxError::UnexpectedEnd);
    let (r2, _) = scan(b"\\# xy");
    assert_eq!(r2.unwrap_err(), SyntaxError::IllegalCharacter);
}

#[test]
fn stream_scans_decimal_numbers() {
    let mut stream = Stream::new(b"  123 tail");
    assert_eq!(stream.scan_u16().unwrap(), 123);
    assert_eq!(stream.position(), 5);
    let mut big = Stream::new(b"65536");
    assert_eq!(big.scan_u16().unwrap_err(), SyntaxError::NumberTooLarge);
    let mut zeros = Stream::new(b"00065535");
    assert_eq!(zeros.scan_u16().unwrap(), 65535);
}

#[test]
fn stream_scans_hex_words() {
    let mut stream = Stream::new(b" aF10 ");
    assert_eq!(stream.scan_hex_word().unwrap(), vec![0xAF, 0x10]);
    let mut empty = Stream::new(b"   ");
    assert_eq!(empty.scan_hex_word().unwrap_err(), SyntaxError::UnexpectedEnd);
}

#[test]
fn stream_skips_literals() {
    let mut stream = Stream::new(b"  \\# rest");
    assert!(stream.skip_literal(b"\\#").is_ok());
    assert_eq!(stream.position(), 4);
    let mut other = Stream::new(b"abc");
    assert_eq!(other.skip_literal(b"\\#").unwrap_err(), SyntaxError::ExpectedLiteral);
    assert_eq!(other.position(), 0);
}
