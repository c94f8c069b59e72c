use continuum::text::{
    contains, parse_i64, parse_uint, replace_all, split_on, strip_prefix, to_ascii_lowercase, trim,
    u64_to_string, zero_padded_string,
};

#[test]
fn trimming_and_case() {
    assert_eq!(trim("  a b \t\n"), "a b");
    assert_eq!(trim(""), "");
    assert_eq!(to_ascii_lowercase("AbC-É"), "abc-É");
}

#[test]
fn searching_and_replacing() {
    assert!(contains("hello world", "o w"));
    assert!(contains("abc", ""));
    assert!(!contains("abc", "abcd"));
    assert_eq!(replace_all("aaa", "aa", "b"), "ba");
    assert_eq!(replace_all("x.y.z", ".", "::"), "x::y::z");
    assert_eq!(strip_prefix("prefix-rest", "prefix-").as_deref(), Some("rest"));
    assert_eq!(strip_prefix("rest", "prefix-"), None);
}

#[test]
fn splitting() {
    assert_eq!(split_on("a|b||c", '|'), vec!["a", "b", "", "c"]);
    assert_eq!(split_on("", '|'), vec![""]);
    assert_eq!(split_on("|", '|'), vec!["", ""]);
}

#[test]
fn numbers() {
    assert_eq!(u64_to_string(0), "0");
    assert_eq!(u64_to_string(u64::MAX), u64::MAX.to_string());
    assert_eq!(zero_padded_string(42, 20), "00000000000000000042");
    assert_eq!(zero_padded_string(-42, 5), "-0042");
    assert_eq!(parse_i64("-9223372036854775808"), Some(i64::MIN));
    assert_eq!(parse_i64("9223372036854775808"), None);
    assert_eq!(parse_i64("+12"), Some(12));
    assert_eq!(parse_i64("1a"), None);
    assert_eq!(parse_uint("255", 255), Some(255));
    assert_eq!(parse_uint("256", 255), None);
    assert_eq!(parse_uint("-1", 255), None);
    assert_eq!(parse_uint("+0", 255), Some(0));
    assert_eq!(parse_uint("", 255), None);
}
