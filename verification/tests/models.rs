use inference_super_router::json::{Json, JsonObject};
use inference_super_router::models::{DomainBytes32, DomainEthAddress, DomainUint256};
use inference_super_router::order::{is_text_le, sort_positions};
use inference_super_router::text::{
    contains, decimal_text, parse_decimal, parse_signed, same_text, signed_decimal_text,
    strip_prefix, strip_suffix, trim, trim_end_of,
};

#[test]
fn addresses_read_back() {
    let text = "0x833589fcd6edb6e08f4c7c32d4f71b54bda02913";
    let a = DomainEthAddress::from_hex(text).unwrap();
    assert_eq!(a.to_hex(), text);
    assert_eq!(a.inner()[0], 0x83);
    let b = DomainEthAddress::from_hex("833589fCD6eDb6E08f4c7C32D4f71b54bdA02913").unwrap();
    assert_eq!(a, b);
}

#[test]
fn bad_addresses_are_refused() {
    assert_eq!(
        DomainEthAddress::from_hex("0x1234").unwrap_err(),
        "Invalid address length: expected 20, got 2"
    );
    assert_eq!(DomainEthAddress::from_hex("0x123").unwrap_err(), "Odd number of digits");
    assert_eq!(
        DomainEthAddress::from_hex("zz").unwrap_err(),
        "Invalid character 'z' at position 0"
    );
    assert_eq!(
        DomainBytes32::from_hex("00").unwrap_err(),
        "Invalid bytes32 length: expected 32, got 1"
    );
    let h = "0x00000000000000000000000000000000000000000000000000000000000000ff";
    let b = DomainBytes32::from_hex(h).unwrap();
    assert_eq!(b.to_hex(), h);
    assert_eq!(b.inner()[31], 255);
}

#[test]
fn amounts_read_back() {
    let max = "340282366920938463463374607431768211455";
    assert_eq!(DomainUint256::from_str(max).unwrap().to_string(), max);
    assert_eq!(DomainUint256::from_str("+007").unwrap().inner(), 7);
    assert_eq!(
        DomainUint256::from_str_checked("340282366920938463463374607431768211456").unwrap_err(),
        "number too large to fit in target type"
    );
    assert_eq!(
        DomainUint256::from_str("").unwrap_err(),
        "cannot parse integer from empty string"
    );
    assert_eq!(DomainUint256::from(5u64), DomainUint256(5));
    assert_eq!(DomainUint256::from(6u128).inner(), 6);
}

#[test]
fn json_reads_back() {
    let j = Json::parse(b" {\"a\": [1, -2, true, null, \"x\"], \"a\": {\"b\": 18446744073709551615}} ")
        .unwrap();
    let b = j.get("a").unwrap().get("b").unwrap();
    assert_eq!(b.as_u64(), Some(u64::MAX));
    assert_eq!(b.as_i64(), None);
    assert_eq!(j.to_text(), "{\"a\":{\"b\":18446744073709551615}}");
    assert!(Json::parse(b"{").unwrap_err().starts_with("EOF while parsing"));
}

#[test]
fn json_values_are_told_apart() {
    let j = Json::parse(b"[1, -2, true, null, \"x\", 1.5]").unwrap();
    let v = j.as_list().unwrap();
    assert_eq!(v[0].as_u64(), Some(1));
    assert_eq!(v[1].as_u64(), None);
    assert_eq!(v[1].as_i64(), Some(-2));
    assert_eq!(v[2].as_bool(), Some(true));
    assert!(matches!(v[3], Json::Null));
    assert_eq!(v[4].as_str(), Some("x"));
    assert_eq!(v[5].as_u64(), None);
    assert_eq!(v[5].as_i64(), None);
    assert_eq!(v[5].copy().to_text(), "1.5");
    assert!(j.get("a").is_none());
}

#[test]
fn objects_hold_the_last_value() {
    let mut o = JsonObject::new();
    o.put("k", Json::signed(-1));
    o.put("l", Json::Null);
    o.put("k", Json::signed(i64::MIN));
    assert_eq!(o.get("k").unwrap().as_i64(), Some(i64::MIN));
    o.remove("k");
    assert!(o.get("k").is_none());
    assert_eq!(Json::Object(o).to_text(), "{\"l\":null}");
}

#[test]
fn texts_are_cut() {
    assert_eq!(strip_prefix("0xab", "0x"), Some("ab".to_string()));
    assert_eq!(strip_prefix("ab", "0x"), None);
    assert_eq!(strip_suffix("ab:", ":"), Some("ab".to_string()));
    assert_eq!(strip_suffix("", ":"), None);
    assert!(contains("hello", "ell"));
    assert!(contains("hello", ""));
    assert!(!contains("hello", "elo"));
    assert_eq!(trim(" \t\u{a0}a b\n"), "a b");
    assert_eq!(trim_end_of("a//", '/'), "a");
    assert!(same_text("ä", "ä"));
    assert!(!same_text("a", "ab"));
}

#[test]
fn numbers_are_written_and_read() {
    assert_eq!(decimal_text(0), "0");
    assert_eq!(decimal_text(1090), "1090");
    assert_eq!(signed_decimal_text(i64::MIN), "-9223372036854775808");
    assert_eq!(parse_signed("-9223372036854775808"), Some(i64::MIN));
    assert_eq!(parse_signed("-9223372036854775809"), None);
    assert_eq!(parse_signed("+5"), Some(5));
    assert_eq!(parse_signed("-"), None);
    assert_eq!(parse_decimal("65535", 65535), Some(65535));
    assert_eq!(parse_decimal("65536", 65535), None);
    assert_eq!(parse_decimal("", 5), None);
}

#[test]
fn texts_are_ordered() {
    assert!(is_text_le("", ""));
    assert!(is_text_le("a", "ab"));
    assert!(!is_text_le("b", "ab"));
    assert!(is_text_le("Z", "a"));
    let keys = vec!["b".to_string(), "a".to_string(), "b".to_string(), "".to_string()];
    assert_eq!(sort_positions(&keys), vec![3, 1, 0, 2]);
}
