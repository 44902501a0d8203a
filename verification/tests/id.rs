use authz_core::id::{hex_digit, Id};
use bson::oid::ObjectId;

#[test]
fn id_hex_is_24_lower_case_digits() {
    let id = Id::new(0x0123_4567_89ab_cdef_0011_2233).unwrap();
    assert_eq!(id.to_hex(), "0123456789abcdef00112233");
    assert_eq!(Id::new(0).unwrap().to_hex(), "000000000000000000000000");
    assert_eq!(Id::new((1u128 << 96) - 1).unwrap().to_hex(), "ffffffffffffffffffffffff");
}

#[test]
fn id_limit_is_two_to_the_96() {
    assert!(Id::new((1u128 << 96) - 1).is_some());
    assert!(Id::new(1u128 << 96).is_none());
    assert!(Id::new(u128::MAX).is_none());
    assert_eq!(Id::new(77).unwrap().value(), 77);
}

#[test]
fn id_parse_takes_both_cases_and_only_24_digits() {
    let id = Id::parse("0123456789abcdef00112233").unwrap();
    assert_eq!(id.value(), 0x0123_4567_89ab_cdef_0011_2233);
    assert_eq!(Id::parse("0123456789ABCDEF00112233"), Some(id));
    assert_eq!(Id::parse("0123456789AbCdEf00112233"), Some(id));
    assert_eq!(Id::parse(""), None);
    assert_eq!(Id::parse("0123456789abcdef0011223"), None);
    assert_eq!(Id::parse("0123456789abcdef001122334"), None);
    assert_eq!(Id::parse("0123456789abcdef0011223g"), None);
    assert_eq!(Id::parse("0123456789abcdef0011223é"), None);
    assert_eq!(Id::parse(" 123456789abcdef00112233"), None);
}

#[test]
fn id_hex_round_trip() {
    for value in [0u128, 1, 15, 16, 255, 0xdead_beef, (1u128 << 95) + 12345, (1u128 << 96) - 1] {
        let id = Id::new(value).unwrap();
        assert_eq!(Id::parse(&id.to_hex()), Some(id));
    }
}

#[test]
fn id_agrees_with_object_id() {
    let oid = ObjectId::new();
    let id = Id::from_bytes(&oid.bytes());
    assert_eq!(id.to_hex(), oid.to_hex());
    assert_eq!(Id::parse(&oid.to_hex()), Some(id));
    let fixed = ObjectId::parse_str("65a1b2c3d4e5f60718293a4b").unwrap();
    assert_eq!(Id::from_bytes(&fixed.bytes()).value(), 0x65a1_b2c3_d4e5_f607_1829_3a4b);
    assert_eq!(Id::from_bytes(&[0, 0, 0, 0, 0, 0, 0, 0, 0, 0, 1, 2]).value(), 258);
    assert_eq!(Id::from_bytes(&[255; 12]).value(), (1u128 << 96) - 1);
}

#[test]
fn hex_digits_one_by_one() {
    assert_eq!(hex_digit('0'), Some(0));
    assert_eq!(hex_digit('9'), Some(9));
    assert_eq!(hex_digit('a'), Some(10));
    assert_eq!(hex_digit('f'), Some(15));
    assert_eq!(hex_digit('A'), Some(10));
    assert_eq!(hex_digit('F'), Some(15));
    assert_eq!(hex_digit('g'), None);
    assert_eq!(hex_digit('G'), None);
    assert_eq!(hex_digit('/'), None);
    assert_eq!(hex_digit(':'), None);
    assert_eq!(hex_digit('@'), None);
    assert_eq!(hex_digit('`'), None);
}

#[test]
fn id_bytes_round_trip() {
    let oid = ObjectId::new();
    assert_eq!(Id::from_bytes(&oid.bytes()).to_bytes(), oid.bytes());
    assert_eq!(Id::new(258).unwrap().to_bytes(), [0, 0, 0, 0, 0, 0, 0, 0, 0, 0, 1, 2]);
    assert_eq!(Id::new(0).unwrap().to_bytes(), [0; 12]);
    assert_eq!(Id::new((1u128 << 96) - 1).unwrap().to_bytes(), [255; 12]);
    assert_eq!(
        Id::new(0x0102_0304_0506_0708_090a_0b0c).unwrap().to_bytes(),
        [1, 2, 3, 4, 5, 6, 7, 8, 9, 10, 11, 12]
    );
}
