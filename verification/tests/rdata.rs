use dnswire::name::Name;
use dnswire::parse::{Nest, Parser};
use dnswire::rdata::{GenericRecordData, RecordData};
use dnswire::rfc1035::{Minfo, Mx, Null, SingleName, Soa, Txt, A};
use dnswire::rtype::RRType;

fn name_from(bytes: &[u8]) -> Name {
    Name::parse(&mut Parser::new(bytes)).unwrap()
}

#[test]
fn cname_round_trip() {
    let v = SingleName::new(RRType::Cname, name_from(&[3, b'f', b'o', b'o', 0]));
    let mut wire: Vec<u8> = Vec::new();
    v.compose(&mut wire).unwrap();
    assert_eq!(wire, vec![3, b'f', b'o', b'o', 0]);
    let mut p = Parser::new(&wire);
    let r: SingleName = SingleName::parse(v.rtype(), &mut p).unwrap().unwrap();
    assert_eq!(r, v);
    assert_eq!(p.left(), 0);
}

#[test]
fn mx_round_trip() {
    let v = Mx::new(10, name_from(&[2, b'm', b'x', 0]));
    let mut wire: Vec<u8> = Vec::new();
    v.compose(&mut wire).unwrap();
    assert_eq!(wire, vec![0, 10, 2, b'm', b'x', 0]);
    let mut p = Parser::new(&wire);
    let r: Mx = Mx::parse(RRType::Mx, &mut p).unwrap().unwrap();
    assert_eq!(r, v);
    assert_eq!(p.left(), 0);
}

#[test]
fn minfo_round_trip() {
    let v = Minfo::new(name_from(&[1, b'a', 0]), name_from(&[1, b'b', 0]));
    let mut wire: Vec<u8> = Vec::new();
    v.compose(&mut wire).unwrap();
    let mut p = Parser::new(&wire);
    let r: Minfo = Minfo::parse(RRType::Minfo, &mut p).unwrap().unwrap();
    assert_eq!(r, v);
    assert_eq!(p.left(), 0);
}

#[test]
fn soa_round_trip() {
    let v = Soa::new(
        name_from(&[2, b'n', b's', 0]),
        name_from(&[1, b'h', 0]),
        2024,
        7200,
        3600,
        86400,
        60,
    );
    let mut wire: Vec<u8> = Vec::new();
    v.compose(&mut wire).unwrap();
    let mut p = Parser::new(&wire);
    let r: Soa = Soa::parse(RRType::Soa, &mut p).unwrap().unwrap();
    assert_eq!(r, v);
    assert_eq!(r.serial(), 2024);
    assert_eq!(p.left(), 0);
}

#[test]
fn a_round_trip() {
    let v = A::new(0x01020304);
    let mut wire: Vec<u8> = Vec::new();
    v.compose(&mut wire).unwrap();
    assert_eq!(wire, vec![1, 2, 3, 4]);
    let mut p = Parser::new(&wire);
    let r: A = A::parse(RRType::A, &mut p).unwrap().unwrap();
    assert_eq!(r, v);
    assert_eq!(p.left(), 0);
}

#[test]
fn txt_and_null_round_trip() {
    let v = Txt::new(vec![1, 2, 3]);
    let mut wire: Vec<u8> = Vec::new();
    v.compose(&mut wire).unwrap();
    let mut p = Parser::new(&wire);
    let r: Txt = Txt::parse(RRType::Txt, &mut p).unwrap().unwrap();
    assert_eq!(r, v);
    assert_eq!(p.left(), 0);

    let n = Null::new(vec![9, 8]);
    let mut wire2: Vec<u8> = Vec::new();
    n.compose(&mut wire2).unwrap();
    let mut p2 = Parser::new(&wire2);
    let r2: Null = Null::parse(RRType::Null, &mut p2).unwrap().unwrap();
    assert_eq!(r2, n);
}

#[test]
fn generic_round_trip() {
    let bytes: [u8; 4] = [1, 2, 3, 4];
    let g = GenericRecordData::new(RRType::Aaaa, Nest::new(&bytes, 0, 4));
    let mut wire: Vec<u8> = Vec::new();
    g.compose(&mut wire).unwrap();
    assert_eq!(wire, bytes.to_vec());
    let mut p = Parser::new(&wire);
    let r: GenericRecordData = GenericRecordData::parse(RRType::Aaaa, &mut p).unwrap().unwrap();
    assert_eq!(r.rtype(), RRType::Aaaa);
    assert_eq!(r.data().as_bytes(), &bytes);
    assert_eq!(p.left(), 0);
    assert!(r == g);
}

#[test]
fn declination_is_silent() {
    let bytes: [u8; 5] = [3, b'f', b'o', b'o', 0];
    let mut p = Parser::new(&bytes);
    let before = p.position();
    let r: Option<_> = SingleName::parse(RRType::A, &mut p);
    assert!(matches!(r, None::<Result<SingleName, _>>));
    assert_eq!(p.position(), before);
    assert!(Mx::parse(RRType::Cname, &mut p).is_none());
    assert!(Soa::parse(RRType::Mx, &mut p).is_none());
    assert!(A::parse(RRType::Soa, &mut p).is_none());
    assert!(Txt::parse(RRType::Null, &mut p).is_none());
    assert!(Null::parse(RRType::Txt, &mut p).is_none());
    assert!(Minfo::parse(RRType::Int(4711), &mut p).is_none());
    assert_eq!(p.position(), before);
}

#[test]
fn concrete_reparses_a_generic_value() {
    let bytes: [u8; 5] = [3, b'f', b'o', b'o', 0];
    let g = GenericRecordData::new(RRType::Cname, Nest::new(&bytes, 0, 5));
    let r: SingleName = g.concrete().unwrap().unwrap();
    assert_eq!(r.name().as_bytes(), &bytes);
    let declined: Option<Result<Mx, _>> = g.concrete();
    assert!(declined.is_none());
}

#[test]
fn equal_names_in_different_encodings_compare_equal() {
    // One value holds the name inline, the other a pointer to an
    // earlier occurrence in its message.
    let inline: [u8; 5] = [3, b'f', b'o', b'o', 0];
    let pointed: [u8; 7] = [3, b'f', b'o', b'o', 0, 0xC0, 0x00];
    let a = GenericRecordData::new(RRType::Cname, Nest::new(&inline, 0, 5));
    let b = GenericRecordData::new(RRType::Cname, Nest::new(&pointed, 5, 7));
    assert!(a == b);
    assert!(b == a);
}

#[test]
fn different_names_compare_unequal() {
    let foo: [u8; 5] = [3, b'f', b'o', b'o', 0];
    let bar: [u8; 5] = [3, b'b', b'a', b'r', 0];
    let a = GenericRecordData::new(RRType::Ns, Nest::new(&foo, 0, 5));
    let b = GenericRecordData::new(RRType::Ns, Nest::new(&bar, 0, 5));
    assert!(a != b);
}

#[test]
fn different_types_compare_unequal() {
    let bytes: [u8; 5] = [3, b'f', b'o', b'o', 0];
    let a = GenericRecordData::new(RRType::Cname, Nest::new(&bytes, 0, 5));
    let b = GenericRecordData::new(RRType::Ns, Nest::new(&bytes, 0, 5));
    assert!(a != b);
}

#[test]
fn other_types_compare_by_raw_bytes() {
    let one: [u8; 4] = [1, 2, 3, 4];
    let two: [u8; 4] = [1, 2, 3, 5];
    let a = GenericRecordData::new(RRType::Aaaa, Nest::new(&one, 0, 4));
    let b = GenericRecordData::new(RRType::Aaaa, Nest::new(&one, 0, 4));
    let c = GenericRecordData::new(RRType::Aaaa, Nest::new(&two, 0, 4));
    assert!(a == b);
    assert!(a != c);
}

#[test]
fn mx_equality_goes_through_decompression() {
    let inline: [u8; 6] = [0, 5, 2, b'm', b'x', 0];
    let pointed: [u8; 8] = [2, b'm', b'x', 0, 0, 5, 0xC0, 0x00];
    let a = GenericRecordData::new(RRType::Mx, Nest::new(&inline, 0, 6));
    let b = GenericRecordData::new(RRType::Mx, Nest::new(&pointed, 4, 8));
    assert!(a == b);
    let other_pref: [u8; 6] = [0, 6, 2, b'm', b'x', 0];
    let c = GenericRecordData::new(RRType::Mx, Nest::new(&other_pref, 0, 6));
    assert!(a != c);
}

#[test]
fn display_shows_a_name_and_is_idempotent() {
    let bytes: [u8; 5] = [3, b'f', b'o', b'o', 0];
    let g = GenericRecordData::new(RRType::Cname, Nest::new(&bytes, 0, 5));
    let first = g.display_string();
    let second = g.display_string();
    assert_eq!(first, "foo.");
    assert_eq!(first, second);
}

#[test]
fn display_of_failed_reparse_is_empty() {
    let bytes: [u8; 2] = [3, b'f'];
    let g = GenericRecordData::new(RRType::Cname, Nest::new(&bytes, 0, 2));
    assert_eq!(g.display_string(), "");
    assert_eq!(g.display_string(), "");
}

#[test]
fn display_of_unknown_type_is_a_placeholder() {
    let bytes: [u8; 1] = [1];
    let g = GenericRecordData::new(RRType::Int(4711), Nest::new(&bytes, 0, 1));
    assert_eq!(g.display_string(), "...");
}

#[test]
fn display_of_an_address() {
    let bytes: [u8; 4] = [192, 0, 2, 17];
    let g = GenericRecordData::new(RRType::A, Nest::new(&bytes, 0, 4));
    assert_eq!(g.display_string(), "192.0.2.17");
}

#[test]
fn display_of_mx() {
    let bytes: [u8; 6] = [0, 5, 2, b'm', b'x', 0];
    let g = GenericRecordData::new(RRType::Mx, Nest::new(&bytes, 0, 6));
    assert_eq!(g.display_string(), "5 mx.");
}

#[test]
fn display_escapes_unprintable_text() {
    let bytes: [u8; 3] = [b'a', 0, b'.'];
    let g = GenericRecordData::new(RRType::Txt, Nest::new(&bytes, 0, 3));
    assert_eq!(g.display_string(), "a\\000\\046");
}

#[test]
fn display_of_soa() {
    let mut wire: Vec<u8> = Vec::new();
    let v = Soa::new(name_from(&[2, b'n', b's', 0]), name_from(&[1, b'h', 0]), 1, 2, 3, 4, 5);
    v.compose(&mut wire).unwrap();
    let len = wire.len();
    let g = GenericRecordData::new(RRType::Soa, Nest::new(&wire, 0, len));
    assert_eq!(g.display_string(), "ns. h. 1 2 3 4 5");
}
