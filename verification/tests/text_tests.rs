use tapd_cli::text::{parse_i64_str, str_contains, str_eq, u64_to_string};

#[test]
fn decimal_formatting() {
    assert_eq!(u64_to_string(0), "0");
    assert_eq!(u64_to_string(9), "9");
    assert_eq!(u64_to_string(10), "10");
    assert_eq!(u64_to_string(1234567890), "1234567890");
    assert_eq!(u64_to_string(u64::MAX), u64::MAX.to_string());
}

#[test]
fn parse_i64_matches_std() {
    for input in [
        "0", "-0", "+0", "42", "-42", "+42", "", "-", "+", "+-1", "-+1", "1a", " 1", "1 ",
        "9223372036854775807", "9223372036854775808", "-9223372036854775808",
        "-9223372036854775809", "00000000000000000000000001", "99999999999999999999999",
        "１", "٣",
    ] {
        assert_eq!(parse_i64_str(input), input.parse::<i64>().ok(), "input {input:?}");
    }
}

#[test]
fn contains_and_equality() {
    assert!(str_contains("https://api.tapd.cn", "api.tapd.cn"));
    assert!(!str_contains("https://api.tapd.com", "api.tapd.cn"));
    assert!(str_contains("abc", ""));
    assert!(!str_contains("", "a"));
    assert!(str_contains("认证失败: x", "认证失败"));
    assert!(str_eq("story", "story"));
    assert!(!str_eq("story", "stor"));
}
