use aliyun_sts_rust_sdk::sort::sort_entries;
use aliyun_sts_rust_sdk::Headers;

#[test]
fn insert_lowercases_and_replaces_in_place() {
    let mut h = Headers::new();
    h.insert("Accept", "a");
    h.insert("x-acs-date", "d");
    h.insert("ACCEPT", "b");
    assert_eq!(h.len(), 2);
    assert_eq!(
        h.entries(),
        vec![("accept".to_string(), "b".to_string()), ("x-acs-date".to_string(), "d".to_string())]
    );
    assert_eq!(h.get("Accept").as_deref(), Some("b"));
    assert_eq!(h.get("missing"), None);
}

#[test]
fn sort_entries_orders_by_key_stably() {
    let v: Vec<(String, String)> = vec![
        ("b".into(), "1".into()),
        ("a".into(), "2".into()),
        ("b".into(), "3".into()),
        ("B".into(), "4".into()),
        ("ab".into(), "5".into()),
    ];
    let s = sort_entries(&v);
    let keys: Vec<(&str, &str)> = s.iter().map(|(k, v)| (k.as_str(), v.as_str())).collect();
    assert_eq!(keys, vec![("B", "4"), ("a", "2"), ("ab", "5"), ("b", "1"), ("b", "3")]);
}
