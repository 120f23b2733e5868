use dnswire::error::ParseError;
use dnswire::name::Name;
use dnswire::parse::{Nest, Parser};

#[test]
fn parse_plain_name() {
    let msg: [u8; 5] = [3, b'f', b'o', b'o', 0];
    let mut p = Parser::new(&msg);
    let name = Name::parse(&mut p).unwrap();
    assert_eq!(name.as_bytes(), &[3, b'f', b'o', b'o', 0]);
    assert_eq!(p.position(), 5);
    assert_eq!(p.left(), 0);
}

#[test]
fn parse_name_with_two_labels() {
    let msg: [u8; 9] = [3, b'f', b'o', b'o', 2, b'd', b'e', 0, 9];
    let mut p = Parser::new(&msg);
    let name = Name::parse(&mut p).unwrap();
    assert_eq!(name.as_bytes(), &[3, b'f', b'o', b'o', 2, b'd', b'e', 0]);
    assert_eq!(p.position(), 8);
    assert_eq!(p.left(), 1);
}

#[test]
fn parse_name_follows_compression_pointer() {
    // A name at offset 0, and at offset 5 a pointer back to it.
    let msg: [u8; 7] = [3, b'f', b'o', b'o', 0, 0xC0, 0x00];
    let nest = Nest::new(&msg, 5, 7);
    let mut p = nest.parser();
    let name = Name::parse(&mut p).unwrap();
    assert_eq!(name.as_bytes(), &[3, b'f', b'o', b'o', 0]);
    // Reading resumes right behind the pointer.
    assert_eq!(p.position(), 7);
}

#[test]
fn parse_name_label_then_pointer() {
    // "www" followed by a pointer to "foo." at offset 0.
    let msg: [u8; 11] = [3, b'f', b'o', b'o', 0, 3, b'w', b'w', b'w', 0xC0, 0x00];
    let nest = Nest::new(&msg, 5, 11);
    let mut p = nest.parser();
    let name = Name::parse(&mut p).unwrap();
    assert_eq!(name.as_bytes(), &[3, b'w', b'w', b'w', 3, b'f', b'o', b'o', 0]);
    assert_eq!(p.position(), 11);
}

#[test]
fn truncated_name_is_unexpected_end() {
    let msg: [u8; 4] = [3, b'f', b'o', b'o'];
    let mut p = Parser::new(&msg);
    assert_eq!(Name::parse(&mut p).unwrap_err(), ParseError::UnexpectedEnd);
    // The parser is left as it was.
    assert_eq!(p.position(), 0);
}

#[test]
fn undefined_label_type_is_rejected() {
    let msg: [u8; 2] = [0x40, 0];
    let mut p = Parser::new(&msg);
    assert_eq!(Name::parse(&mut p).unwrap_err(), ParseError::BadLabelType);
}

#[test]
fn pointer_loop_is_rejected() {
    let msg: [u8; 2] = [0xC0, 0x00];
    let mut p = Parser::new(&msg);
    assert_eq!(Name::parse(&mut p).unwrap_err(), ParseError::BadPointer);
}

#[test]
fn pointer_outside_message_is_rejected() {
    let msg: [u8; 2] = [0xC0, 0x09];
    let mut p = Parser::new(&msg);
    assert_eq!(Name::parse(&mut p).unwrap_err(), ParseError::BadPointer);
}

#[test]
fn names_compare_by_uncompressed_bytes() {
    let m1: [u8; 5] = [3, b'f', b'o', b'o', 0];
    let m2: [u8; 7] = [3, b'f', b'o', b'o', 0, 0xC0, 0x00];
    let a = Name::parse(&mut Parser::new(&m1)).unwrap();
    let b = Name::parse(&mut Nest::new(&m2, 5, 7).parser()).unwrap();
    assert_eq!(a, b);
    let m3: [u8; 5] = [3, b'b', b'a', b'r', 0];
    let c = Name::parse(&mut Parser::new(&m3)).unwrap();
    assert_ne!(a, c);
}

#[test]
fn name_composes_to_its_bytes() {
    let msg: [u8; 5] = [3, b'f', b'o', b'o', 0];
    let name = Name::parse(&mut Parser::new(&msg)).unwrap();
    let mut sink: Vec<u8> = Vec::new();
    name.compose(&mut sink).unwrap();
    assert_eq!(sink, msg.to_vec());
}

#[test]
fn parser_primitives_advance() {
    let msg: [u8; 9] = [1, 0x01, 0x02, 0x0A, 0x0B, 0x0C, 0x0D, 5, 6];
    let mut p = Parser::new(&msg);
    assert_eq!(p.parse_u8().unwrap(), 1);
    assert_eq!(p.parse_u16().unwrap(), 0x0102);
    assert_eq!(p.parse_u32().unwrap(), 0x0A0B0C0D);
    assert_eq!(p.parse_bytes(2).unwrap(), &[5, 6]);
    assert_eq!(p.left(), 0);
    assert_eq!(p.parse_u8().unwrap_err(), ParseError::UnexpectedEnd);
}

#[test]
fn nest_captures_a_region() {
    let msg: [u8; 6] = [9, 9, 1, 2, 3, 9];
    let mut p = Parser::new(&msg);
    p.parse_u16().unwrap();
    let nest = p.parse_nest(3).unwrap();
    assert_eq!(nest.len(), 3);
    assert_eq!(nest.as_bytes(), &[1, 2, 3]);
    assert_eq!(p.left(), 1);
    let mut sink: Vec<u8> = Vec::new();
    nest.compose(&mut sink).unwrap();
    assert_eq!(sink, vec![1, 2, 3]);
}
