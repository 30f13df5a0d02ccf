use aliyun_sts_rust_sdk::policy::policy_to_json;
use aliyun_sts_rust_sdk::sts::{
    assume_role_payload, assume_role_result, put_object_credentials, put_object_policy,
    put_object_request,
};
use aliyun_sts_rust_sdk::{
    AssumeRoleRequest, AssumeRoleResponse, AssumeRoleResponseCredentials, Condition, Effects,
    Policy, StatementBlock, StringOrArray, StsClient, Versions,
};

fn condition(entries: Vec<(&str, StringOrArray)>) -> Condition {
    let mut c = Condition::new();
    for (k, v) in entries {
        c.insert(k.to_string(), v);
    }
    c
}

#[test]
fn condition_keys_stay_distinct() {
    let mut c = condition(vec![
        ("IpAddress", StringOrArray::StringValue("10.0.0.0/8".into())),
        ("StringLike", StringOrArray::ArrayValue(vec![])),
    ]);
    c.insert("IpAddress".into(), StringOrArray::StringValue("192.168.0.0/16".into()));
    assert_eq!(c.len(), 2);
    assert_eq!(
        c.entries(),
        &vec![
            ("IpAddress".to_string(), StringOrArray::StringValue("192.168.0.0/16".into())),
            ("StringLike".to_string(), StringOrArray::ArrayValue(vec![])),
        ]
    );
    let d = c.clone();
    assert_eq!(d, c);
    let v = StringOrArray::ArrayValue(vec!["a".into(), "b".into()]);
    assert_eq!(v.clone(), v);
}

fn credentials() -> AssumeRoleResponseCredentials {
    AssumeRoleResponseCredentials {
        security_token: "token".to_string(),
        access_key_id: "STS.id".to_string(),
        access_key_secret: "secret".to_string(),
        expiration: "2018-01-01T12:00:00Z".to_string(),
    }
}

fn response(credentials: Option<AssumeRoleResponseCredentials>, message: Option<&str>) -> AssumeRoleResponse {
    AssumeRoleResponse {
        request_id: "req".to_string(),
        assume_role_user: None,
        credentials,
        message: message.map(|m| m.to_string()),
        recommend: None,
        host_id: None,
        code: None,
    }
}

/// Testing assume role request serializing
#[test]
fn test_ser() {
    let arn = "acs:ram::1234567890:role/uploader";
    let role_session_name = "aliyun-sts-rust-sdk";

    let policy = Policy {
        version: Versions::V1,
        statement: vec![StatementBlock {
            action: StringOrArray::ArrayValue(vec!["oss:*".to_owned()]),
            effect: Effects::Allow,
            resource: StringOrArray::ArrayValue(vec!["acs:oss:*:*:xxxxxx".to_owned()]),
            condition: None,
        }],
    };

    let req = AssumeRoleRequest::new(arn, role_session_name, Some(policy), 3600);
    let fields = assume_role_payload(&req);
    println!("{:?}", fields);
    assert_eq!(
        fields,
        vec![
            ("DurationSeconds".to_string(), "3600".to_string()),
            ("RoleArn".to_string(), arn.to_string()),
            ("RoleSessionName".to_string(), role_session_name.to_string()),
            (
                "Policy".to_string(),
                "{\"Version\":\"1\",\"Statement\":[{\"Effect\":\"Allow\",\"Action\":[\"oss:*\"],\"Resource\":[\"acs:oss:*:*:xxxxxx\"]}]}".to_string()
            ),
        ]
    );
}

#[test]
fn policy_json_with_condition_and_string_values() {
    let p = Policy::v1(vec![
        StatementBlock {
            effect: Effects::Deny,
            action: StringOrArray::StringValue("oss:GetObject".into()),
            resource: StringOrArray::ArrayValue(vec!["a".into(), "b".into()]),
            condition: Some(condition(vec![
                ("IpAddress", StringOrArray::StringValue("10.0.0.0/8".into())),
                ("StringLike", StringOrArray::ArrayValue(vec![])),
            ])),
        },
        StatementBlock {
            effect: Effects::Allow,
            action: StringOrArray::ArrayValue(vec![]),
            resource: StringOrArray::StringValue("*".into()),
            condition: None,
        },
    ]);
    assert_eq!(
        policy_to_json(&p),
        "{\"Version\":\"1\",\"Statement\":[{\"Effect\":\"Deny\",\"Action\":\"oss:GetObject\",\"Resource\":[\"a\",\"b\"],\"Condition\":{\"IpAddress\":\"10.0.0.0/8\",\"StringLike\":[]}},{\"Effect\":\"Allow\",\"Action\":[],\"Resource\":\"*\"}]}"
    );
    assert_eq!(policy_to_json(&Policy::v1(vec![])), "{\"Version\":\"1\",\"Statement\":[]}");
}

#[test]
fn put_object_policy_strips_one_leading_slash() {
    let expected = "{\"Version\":\"1\",\"Statement\":[{\"Effect\":\"Allow\",\"Action\":[\"oss:*\"],\"Resource\":[\"acs:oss:*:*:mi-dev-public/yuanyq-test/file-from-rust.zip\"]}]}";
    assert_eq!(policy_to_json(&put_object_policy("mi-dev-public", "yuanyq-test/file-from-rust.zip")), expected);
    assert_eq!(policy_to_json(&put_object_policy("mi-dev-public", "/yuanyq-test/file-from-rust.zip")), expected);
    let p = put_object_policy("b", "//k");
    assert_eq!(p.statement[0].resource, StringOrArray::ArrayValue(vec!["acs:oss:*:*:b//k".into()]));
}

#[test]
fn put_object_request_fields() {
    let r = put_object_request("arn:x", "bucket", "/key", 900);
    assert_eq!(r.role_arn, "arn:x");
    assert_eq!(r.role_session_name, "aliyun-sts-rust-sdk");
    assert_eq!(r.duration_seconds, 900);
    assert_eq!(r.external_id, None);
    assert_eq!(r.policy, Some(put_object_policy("bucket", "key")));
}

#[test]
fn payload_with_external_id_and_no_policy() {
    let mut req = AssumeRoleRequest::new("arn", "s", None, 1);
    req.external_id = Some("ext".into());
    assert_eq!(
        assume_role_payload(&req),
        vec![
            ("DurationSeconds".to_string(), "1".to_string()),
            ("RoleArn".to_string(), "arn".to_string()),
            ("RoleSessionName".to_string(), "s".to_string()),
            ("ExternalId".to_string(), "ext".to_string()),
        ]
    );
}

#[test]
fn credentials_from_answers() {
    let c = put_object_credentials(Ok(response(Some(credentials()), None))).unwrap();
    assert_eq!(c.access_key_id, "STS.id");
    assert_eq!(
        put_object_credentials(Ok(response(None, Some("NoPermission")))).unwrap_err(),
        "NoPermission"
    );
    assert_eq!(put_object_credentials(Ok(response(None, None))).unwrap_err(), "调用阿里云服务失败");
    assert_eq!(put_object_credentials(Err("timeout".into())).unwrap_err(), "timeout");
}

#[test]
fn assume_role_results() {
    assert_eq!(
        assume_role_result(Ok("not json".into()), None).unwrap_err(),
        "Error while parsing response: not json"
    );
    assert_eq!(assume_role_result(Err("io".into()), None).unwrap_err(), "io");
    let r = assume_role_result(Ok("{}".into()), Some(response(None, Some("m")))).unwrap();
    assert_eq!(r.message.as_deref(), Some("m"));
}

#[test]
fn prepare_assume_role_request() {
    let client = StsClient::new("sts.aliyuncs.com", "AK", "SK");
    let req = AssumeRoleRequest::new("arn", "s", None, 3600);
    let signed = client.prepare_assume_role(&req).unwrap();
    assert_eq!(signed.method, "POST");
    assert_eq!(signed.url, "https://sts.aliyuncs.com/");
    assert_eq!(signed.body.as_deref(), Some("DurationSeconds=3600&RoleArn=arn&RoleSessionName=s"));
    assert_eq!(signed.headers.get("x-acs-action").as_deref(), Some("AssumeRole"));
    assert_eq!(signed.headers.get("content-length").as_deref(), Some("50"));
}
