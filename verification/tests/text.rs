use aliyun_sts_rust_sdk::crypto::sha256;
use aliyun_sts_rust_sdk::policy::policy_to_json;
use aliyun_sts_rust_sdk::signing::form_string_of;
use aliyun_sts_rust_sdk::{Policy, StatementBlock, Effects, StringOrArray};
use aliyun_sts_rust_sdk::text::{
    decimal_u64, join_strings, starts_with, str_eq, str_lt, to_ascii_lowercase,
};

#[test]
fn decimal_numerals() {
    assert_eq!(decimal_u64(0), "0");
    assert_eq!(decimal_u64(3600), "3600");
    assert_eq!(decimal_u64(u64::MAX), "18446744073709551615");
    assert_eq!(decimal_u64(1704164645000), "1704164645000");
}

#[test]
fn ascii_case_folding() {
    assert_eq!(to_ascii_lowercase("Content-Type"), "content-type");
    assert_eq!(to_ascii_lowercase("ÀB"), "Àb");
}

#[test]
fn string_comparisons() {
    assert!(str_eq("abc", "abc"));
    assert!(!str_eq("abc", "abd"));
    assert!(starts_with("x-acs-date", "x-acs"));
    assert!(!starts_with("x-ac", "x-acs"));
    assert!(str_lt("a", "b"));
    assert!(str_lt("a", "ab"));
    assert!(!str_lt("ab", "ab"));
    assert!(str_lt("Z", "a"));
    assert!(str_lt("z", "中"));
}

#[test]
fn joining() {
    let v = vec!["a".to_string(), "b".to_string(), "c".to_string()];
    assert_eq!(join_strings(&v, ";"), "a;b;c");
    assert_eq!(join_strings(&Vec::new(), ";"), "");
}

#[test]
fn hex_is_lower_case() {
    let h = sha256(b"hello");
    assert_eq!(h, "2cf24dba5fb0a30e26e83b2ac5b9e29e1b161e5c1fa7425e73043362938b9824");
    assert!(h.chars().all(|c| c.is_ascii_digit() || ('a'..='f').contains(&c)));
}

fn field(k: &str, v: &str) -> String {
    form_string_of(&vec![(k.to_string(), v.to_string())])
}

#[test]
fn url_encoding_escapes_reserved_bytes() {
    assert_eq!(field("aZ09-._~", "x"), "aZ09-._~=x");
    assert_eq!(field("k", "a b/c:*"), "k=a%20b%2Fc%3A%2A");
    assert_eq!(field("中", "="), "%E4%B8%AD=%3D");
}

#[test]
fn json_string_escapes() {
    let p = Policy::v1(vec![StatementBlock {
        effect: Effects::Allow,
        action: StringOrArray::StringValue("a\"b\\c\n\t\u{1}".into()),
        resource: StringOrArray::StringValue("oss:*".into()),
        condition: None,
    }]);
    assert_eq!(
        policy_to_json(&p),
        "{\"Version\":\"1\",\"Statement\":[{\"Effect\":\"Allow\",\"Action\":\"a\\\"b\\\\c\\n\\t\\u0001\",\"Resource\":\"oss:*\"}]}"
    );
}
