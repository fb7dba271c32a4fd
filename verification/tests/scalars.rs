use trek::method::Method;
use trek::text::{format_u64, parse_bool, parse_char, parse_i64, parse_u64, str_eq};

#[test]
fn unsigned_parsing() {
    assert_eq!(parse_u64("233"), Some(233));
    assert_eq!(parse_u64("+7"), Some(7));
    assert_eq!(parse_u64("0"), Some(0));
    assert_eq!(parse_u64("18446744073709551615"), Some(u64::MAX));
    assert_eq!(parse_u64("18446744073709551616"), None);
    assert_eq!(parse_u64(""), None);
    assert_eq!(parse_u64("+"), None);
    assert_eq!(parse_u64("-1"), None);
    assert_eq!(parse_u64("12a"), None);
    assert_eq!(parse_u64(" 1"), None);
}

#[test]
fn signed_parsing() {
    assert_eq!(parse_i64("-5"), Some(-5));
    assert_eq!(parse_i64("+5"), Some(5));
    assert_eq!(parse_i64("32"), Some(32));
    assert_eq!(parse_i64("9223372036854775807"), Some(i64::MAX));
    assert_eq!(parse_i64("-9223372036854775808"), Some(i64::MIN));
    assert_eq!(parse_i64("9223372036854775808"), None);
    assert_eq!(parse_i64("-9223372036854775809"), None);
    assert_eq!(parse_i64("-"), None);
    assert_eq!(parse_i64(""), None);
}

#[test]
fn bool_and_char_parsing() {
    assert_eq!(parse_bool("true"), Some(true));
    assert_eq!(parse_bool("false"), Some(false));
    assert_eq!(parse_bool("True"), None);
    assert_eq!(parse_bool(""), None);
    assert_eq!(parse_char("x"), Some('x'));
    assert_eq!(parse_char("xy"), None);
    assert_eq!(parse_char(""), None);
}

#[test]
fn unsigned_formatting() {
    assert_eq!(format_u64(0), "0");
    assert_eq!(format_u64(7), "7");
    assert_eq!(format_u64(10), "10");
    assert_eq!(format_u64(1234567890), "1234567890");
    assert_eq!(format_u64(u64::MAX), "18446744073709551615");
}

#[test]
fn string_equality() {
    assert!(str_eq("abc", "abc"));
    assert!(!str_eq("abc", "abd"));
    assert!(!str_eq("abc", "ab"));
    assert!(str_eq("", ""));
}

#[test]
fn method_names() {
    assert_eq!(Method::from_name("GET"), Some(Method::Get));
    assert_eq!(Method::from_name("POST"), Some(Method::Post));
    assert_eq!(Method::from_name("TRACE"), Some(Method::Trace));
    assert_eq!(Method::from_name("get"), None);
    assert_eq!(Method::from_name("FETCH"), None);
    assert_eq!(Method::Get.as_str(), "GET");
    assert_eq!(Method::Options.as_str(), "OPTIONS");
    let all = Method::all();
    assert_eq!(all.len(), 9);
    for (i, m) in all.iter().enumerate() {
        assert_eq!(m.index(), i);
    }
}
