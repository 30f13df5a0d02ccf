use aliyun_sts_rust_sdk::clock::{
    iso_8601_data_time_string, iso_8601_of_timestamp, signature_nonce, signature_nonce_of,
};
use aliyun_sts_rust_sdk::crypto::{hmac_sha256, sha256};
use aliyun_sts_rust_sdk::signing::form_string_of;
use aliyun_sts_rust_sdk::{Headers, StsClient};

fn pairs(v: &[(&str, &str)]) -> Vec<(String, String)> {
    v.iter().map(|(k, v)| (k.to_string(), v.to_string())).collect()
}

#[test]
fn test_dt_string() {
    let s = iso_8601_data_time_string().unwrap();
    println!("{}", s);
    assert_eq!(s.len(), 20);
    let b = s.as_bytes();
    for i in [0, 1, 2, 3, 5, 6, 8, 9, 11, 12, 14, 15, 17, 18] {
        assert!(b[i].is_ascii_digit());
    }
    assert_eq!(b[4], b'-');
    assert_eq!(b[7], b'-');
    assert_eq!(b[10], b'T');
    assert_eq!(b[13], b':');
    assert_eq!(b[16], b':');
    assert_eq!(b[19], b'Z');
}

#[test]
fn sha256_known_digests() {
    assert_eq!(
        sha256(b""),
        "e3b0c44298fc1c149afbf4c8996fb92427ae41e4649b934ca495991b7852b855"
    );
    assert_eq!(
        sha256(b"abc"),
        "ba7816bf8f01cfea414140de5dae2223b00361a396177a9cb410ff61f20015ad"
    );
}

#[test]
fn hmac_sha256_known_tag() {
    assert_eq!(
        hmac_sha256(b"Jefe", b"what do ya want for nothing?"),
        "5bdcc146bf60754e6a042426089575c75a003f089d2739839dec58b964ec3843"
    );
}

#[test]
fn form_string_keeps_order_and_encodes() {
    let p = pairs(&[("b", "2 3"), ("a", "x/y"), ("Zed", "中")]);
    assert_eq!(form_string_of(&p), "b=2%203&a=x%2Fy&Zed=%E4%B8%AD");
    assert_eq!(form_string_of(&Vec::new()), "");
}

#[test]
fn sign_assume_role_style_request() {
    let client = StsClient::new("sts.aliyuncs.com", "LTAI5tExample", "s3cr3t");
    let mut headers = Headers::new();
    headers.insert("x-acs-action", "AssumeRole");
    let payload = pairs(&[
        ("DurationSeconds", "3600"),
        ("RoleArn", "acs:ram::123456:role/test"),
        ("RoleSessionName", "aliyun-sts-rust-sdk"),
    ]);
    let req = client.sign_request(
        "POST",
        "/",
        Some(headers),
        None,
        Some(payload),
        "2024-01-02T03:04:05Z",
        "1704164645000",
    );
    assert_eq!(req.method, "POST");
    assert_eq!(req.url, "https://sts.aliyuncs.com/");
    assert_eq!(
        req.body.as_deref(),
        Some("DurationSeconds=3600&RoleArn=acs%3Aram%3A%3A123456%3Arole%2Ftest&RoleSessionName=aliyun-sts-rust-sdk")
    );
    let expected = pairs(&[
        ("x-acs-action", "AssumeRole"),
        ("x-sdk-version", "rust/0.1.0"),
        ("x-acs-version", "2015-04-01"),
        ("x-acs-signature-nonce", "1704164645000"),
        ("x-acs-date", "2024-01-02T03:04:05Z"),
        ("host", "sts.aliyuncs.com"),
        ("accept", "application/json"),
        ("x-acs-content-sha256", "8353fde8daabfe9f601a87f8833cc653e8dfef8474c9e0e35b46c08d14571efd"),
        ("authorization", "ACS3-HMAC-SHA256 Credential=LTAI5tExample,SignedHeaders=host;x-acs-action;x-acs-content-sha256;x-acs-date;x-acs-signature-nonce;x-acs-version,Signature=6d3d971622817c905cc619d2f0560dffd6f58b885f646ed288def568d4fb6f05"),
        ("content-length", "100"),
        ("content-type", "application/x-www-form-urlencoded"),
    ]);
    assert_eq!(req.headers.entries(), expected);
}

#[test]
fn sign_request_with_query_and_no_body() {
    let client = StsClient::new("ecs.aliyuncs.com", "AK", "SK");
    let query = pairs(&[("b", "2 3"), ("a", "x/y"), ("Zed", "中")]);
    let req = client.sign_request(
        "GET",
        "/path",
        None,
        Some(query),
        None,
        "2024-01-02T03:04:05Z",
        "-5",
    );
    assert_eq!(req.url, "https://ecs.aliyuncs.com/path?Zed=%E4%B8%AD&a=x%2Fy&b=2%203");
    assert_eq!(req.body, None);
    assert_eq!(req.headers.get("Content-Length"), None);
    assert_eq!(
        req.headers.get("Authorization").as_deref(),
        Some("ACS3-HMAC-SHA256 Credential=AK,SignedHeaders=host;x-acs-content-sha256;x-acs-date;x-acs-signature-nonce;x-acs-version,Signature=9562a6cbe7fc9a62510efaba3d043c684fc976eae7e56ef7646a6e484ba8fed5")
    );
    assert_eq!(
        req.headers.get("x-acs-content-sha256").as_deref(),
        Some("e3b0c44298fc1c149afbf4c8996fb92427ae41e4649b934ca495991b7852b855")
    );
}

#[test]
fn caller_headers_are_overwritten_by_fixed_ones() {
    let client = StsClient::new("sts.aliyuncs.com", "AK", "SK");
    let mut headers = Headers::new();
    headers.insert("Host", "elsewhere.example.com");
    headers.insert("X-Custom", "kept");
    let req = client.sign_request("POST", "/", Some(headers), None, None, "d", "n");
    assert_eq!(req.headers.get("host").as_deref(), Some("sts.aliyuncs.com"));
    assert_eq!(req.headers.get("x-custom").as_deref(), Some("kept"));
    assert_eq!(req.headers.entries()[0].0, "host");
    let auth = req.headers.get("authorization").unwrap();
    assert!(auth.contains("SignedHeaders=host;x-acs-content-sha256;x-acs-date;x-acs-signature-nonce;x-acs-version,"));
    assert!(!auth.contains("x-custom"));
}

#[test]
fn prepare_request_uses_current_time() {
    let client = StsClient::new("sts.aliyuncs.com", "AK", "SK");
    let req = client.prepare_request("POST", "/", None, None, None).unwrap();
    let date = req.headers.get("x-acs-date").unwrap();
    assert_eq!(date.len(), 20);
    assert!(date.ends_with('Z'));
    let nonce = req.headers.get("x-acs-signature-nonce").unwrap();
    assert!(nonce.parse::<i64>().unwrap() > 1_600_000_000_000);
    let auth = req.headers.get("authorization").unwrap();
    let sig = auth.rsplit("Signature=").next().unwrap();
    assert_eq!(sig.len(), 64);
    assert!(sig.chars().all(|c| c.is_ascii_digit() || ('a'..='f').contains(&c)));
    assert_eq!(
        req.headers.get("x-acs-content-sha256").as_deref(),
        Some("e3b0c44298fc1c149afbf4c8996fb92427ae41e4649b934ca495991b7852b855")
    );
}

#[test]
fn secret_changes_only_the_signature() {
    let sign = |secret: &str| {
        let client = StsClient::new("sts.aliyuncs.com", "AK", secret);
        let mut headers = Headers::new();
        headers.insert("x-acs-action", "AssumeRole");
        client.sign_request(
            "POST",
            "/",
            Some(headers),
            Some(pairs(&[("k", "v")])),
            Some(pairs(&[("RoleArn", "arn")])),
            "2024-01-02T03:04:05Z",
            "1704164645000",
        )
    };
    let a = sign("secret-one");
    let b = sign("secret-two");
    assert_eq!(a.method, b.method);
    assert_eq!(a.url, b.url);
    assert_eq!(a.body, b.body);
    let (ea, eb) = (a.headers.entries(), b.headers.entries());
    assert_eq!(ea.len(), eb.len());
    for (x, y) in ea.iter().zip(eb.iter()) {
        assert_eq!(x.0, y.0);
        if x.0 == "authorization" {
            let (pa, sa) = x.1.split_at(x.1.len() - 64);
            let (pb, sb) = y.1.split_at(y.1.len() - 64);
            assert_eq!(pa, pb);
            assert!(pa.ends_with(",Signature="));
            assert_ne!(sa, sb);
        } else {
            assert_eq!(x.1, y.1);
        }
    }
    assert!(!ea.iter().any(|e| e.1.contains("secret-one")));
}

#[test]
fn nonce_is_milliseconds_of_the_reading() {
    assert_eq!(signature_nonce_of(1704164645, 123_456_789).as_deref(), Some("1704164645123"));
    assert_eq!(signature_nonce_of(0, 999_999_999).as_deref(), Some("999"));
    assert_eq!(signature_nonce_of(9223372036854774, 0).as_deref(), Some("9223372036854774000"));
    assert_eq!(signature_nonce_of(9223372036854775, 0), None);
    let n: u64 = signature_nonce().unwrap().parse().unwrap();
    assert!(n > 1_600_000_000_000);
}

#[test]
fn date_of_a_clock_reading() {
    assert_eq!(iso_8601_of_timestamp(0, 0).as_deref(), Some("1970-01-01T00:00:00Z"));
    assert_eq!(
        iso_8601_of_timestamp(1704164645, 999_999_999).as_deref(),
        Some("2024-01-02T03:04:05Z")
    );
    assert_eq!(
        iso_8601_of_timestamp(253402300799, 0).as_deref(),
        Some("9999-12-31T23:59:59Z")
    );
    assert_eq!(
        iso_8601_of_timestamp(253402300800, 0).as_deref(),
        Some("+10000-01-01T00:00:Z")
    );
    assert_eq!(iso_8601_of_timestamp(u64::MAX, 0), None);
}
