use wat_service::data_set::get_value_type_description;
use wat_service::idx::{Idx, InternIdent};
use wat_service::text::{parse_uint, push_decimal, str_eq, string_is, ParsedUint};

#[test]
fn decimal_notation() {
    let mut s = String::from("n=");
    push_decimal(&mut s, 0);
    assert_eq!(s, "n=0");
    let mut s = String::new();
    push_decimal(&mut s, 1234567890);
    assert_eq!(s, "1234567890");
    let mut s = String::new();
    push_decimal(&mut s, u64::MAX);
    assert_eq!(s, "18446744073709551615");
}

#[test]
fn unsigned_literals() {
    let max = u64::MAX;
    assert_eq!(parse_uint("1_000", max), ParsedUint::Value(1000));
    assert_eq!(parse_uint("0x1F", max), ParsedUint::Value(31));
    assert_eq!(parse_uint("0xff_ff", max), ParsedUint::Value(65535));
    assert_eq!(parse_uint("+5", max), ParsedUint::Value(5));
    assert_eq!(parse_uint("18446744073709551615", max), ParsedUint::Value(u64::MAX));
    assert_eq!(parse_uint("18446744073709551616", max), ParsedUint::Overflow);
    assert_eq!(parse_uint("4294967296", u32::MAX as u64), ParsedUint::Overflow);
    assert_eq!(parse_uint("abc", max), ParsedUint::Invalid);
    assert_eq!(parse_uint("", max), ParsedUint::Invalid);
    assert_eq!(parse_uint("0x", max), ParsedUint::Invalid);
    assert_eq!(parse_uint("+", max), ParsedUint::Invalid);
    assert_eq!(parse_uint("-1", max), ParsedUint::Invalid);
    assert_eq!(parse_uint("99999999999999999999x", max), ParsedUint::Overflow);
    assert_eq!(parse_uint("12x99999999999999999999", max), ParsedUint::Invalid);
}

#[test]
fn string_equality() {
    assert!(str_eq("local.get", "local.get"));
    assert!(!str_eq("local.get", "local.set"));
    assert!(string_is(&"测试".to_string(), "测试"));
}

#[test]
fn index_rendering() {
    let idents = vec!["$a".to_string(), "$b".to_string()];
    assert_eq!(Idx { num: Some(3), name: Some(InternIdent(1)) }.render(&idents), "$b");
    assert_eq!(Idx { num: Some(3), name: None }.render(&idents), "3");
    assert_eq!(Idx { num: Some(7), name: Some(InternIdent(9)) }.render(&idents), "7");
    assert_eq!(Idx { num: None, name: None }.render(&idents), "");
}

#[test]
fn value_type_descriptions() {
    assert_eq!(get_value_type_description("i32"), Some("The type `i32` classifies 32 bit integers."));
    assert_eq!(get_value_type_description("i33"), None);
}
