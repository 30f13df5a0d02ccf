//! The `AssumeRole` call: its request, its form fields and what its answer
//! gives back, and the put-object shortcut built on it.

use vstd::prelude::*;

use crate::client::StsClient;
use crate::headers::{entry_views, header_insert, is_visible_value, Headers};
use crate::policy::{policy_json, policy_to_json, Effects, Policy, StatementBlock, StringOrArray, Versions};
use crate::signing::{
    caller_headers_readable, distinct_keys, payload_string, request_signature, sha256_hex,
    signed_request, Pairs, SignedRequest,
};
use crate::encoding::is_hex64;
use crate::headers::distinct_names;
use crate::clock::{is_clock_date, is_clock_nonce, is_reading_of, is_request_date};
use crate::text::{chars_of, copy_string, decimal, decimal_u64, push_str, string_of};

verus! {

/// The body of an `AssumeRole` request.
#[derive(Debug, Clone, PartialEq, Eq)]
pub struct AssumeRoleRequest {
    /// Token lifetime in seconds.
    pub duration_seconds: u32,
    /// A policy that further narrows what the token may do.
    pub policy: Option<Policy>,
    /// The ARN of the RAM role to assume.
    pub role_arn: String,
    /// The role session name.
    pub role_session_name: String,
    /// The role's external ID.
    pub external_id: Option<String>,
}

impl AssumeRoleRequest {
    /// A request for `role_arn` under `role_session_name`, with no external ID.
    pub fn new(role_arn: &str, role_session_name: &str, policy: Option<Policy>, duration_seconds: u32) -> (res: Self)
        ensures
            res.duration_seconds == duration_seconds,
            res.policy == policy,
            res.role_arn@ == role_arn@,
            res.role_session_name@ == role_session_name@,
            res.external_id is None,
    {
        AssumeRoleRequest {
            duration_seconds,
            policy,
            external_id: None,
            role_arn: copy_string(role_arn),
            role_session_name: copy_string(role_session_name),
        }
    }
}

/// The `AssumeRoleUser` part of an answer.
#[derive(Debug, Clone, PartialEq, Eq)]
pub struct AssumeRoleResponseUser {
    pub arn: String,
    pub assume_role_id: String,
}

/// The `Credentials` part of an answer.
#[derive(Debug, Clone, PartialEq, Eq)]
pub struct AssumeRoleResponseCredentials {
    pub security_token: String,
    pub access_key_id: String,
    pub access_key_secret: String,
    /// Expiry time, `yyyy-MM-ddTHH:mm:ssZ`.
    pub expiration: String,
}

/// The answer to an `AssumeRole` call.
#[derive(Debug, Clone, PartialEq, Eq)]
pub struct AssumeRoleResponse {
    pub request_id: String,
    pub assume_role_user: Option<AssumeRoleResponseUser>,
    pub credentials: Option<AssumeRoleResponseCredentials>,
    pub message: Option<String>,
    pub recommend: Option<String>,
    pub host_id: Option<String>,
    pub code: Option<String>,
}

// ---------------------------------------------------------------------------
// The AssumeRole call
// ---------------------------------------------------------------------------

/// The form fields of an `AssumeRole` request: duration, role ARN and
/// session name, then the external ID and the policy JSON where present.
pub open spec fn assume_role_fields(req: AssumeRoleRequest) -> Pairs {
    seq![
        ("DurationSeconds"@, decimal(req.duration_seconds as nat)),
        ("RoleArn"@, req.role_arn@),
        ("RoleSessionName"@, req.role_session_name@),
    ] + match req.external_id {
        Some(e) => seq![("ExternalId"@, e@)],
        None => Seq::empty(),
    } + match req.policy {
        Some(p) => seq![("Policy"@, policy_json(p))],
        None => Seq::empty(),
    }
}

/// The headers an `AssumeRole` request starts from.
pub open spec fn assume_role_headers() -> Pairs {
    header_insert(Seq::empty(), "x-acs-action"@, "AssumeRole"@)
}

/// The form fields of an `AssumeRole` request.
pub fn assume_role_payload(req: &AssumeRoleRequest) -> (res: Vec<(String, String)>)
    ensures
        entry_views(res@) == assume_role_fields(*req),
{
    let mut fields: Vec<(String, String)> = Vec::new();
    fields.push((copy_string("DurationSeconds"), decimal_u64(req.duration_seconds as u64)));
    fields.push((copy_string("RoleArn"), copy_string(req.role_arn.as_str())));
    fields.push((copy_string("RoleSessionName"), copy_string(req.role_session_name.as_str())));
    match &req.external_id {
        Some(eid) => fields.push((copy_string("ExternalId"), copy_string(eid.as_str()))),
        None => {},
    }
    match &req.policy {
        Some(p) => fields.push((copy_string("Policy"), policy_to_json(p))),
        None => {},
    }
    proof {
        assert(entry_views(fields@) =~= assume_role_fields(*req));
    }
    fields
}

/// No form field of an `AssumeRole` request is named twice.
proof fn lemma_assume_role_fields_distinct(req: AssumeRoleRequest)
    ensures
        distinct_names(assume_role_fields(req)),
{
    reveal_strlit("DurationSeconds");
    reveal_strlit("RoleArn");
    reveal_strlit("RoleSessionName");
    reveal_strlit("ExternalId");
    reveal_strlit("Policy");
    let f = assume_role_fields(req);
    assert forall|i: int, j: int| 0 <= i < f.len() && 0 <= j < f.len() && i != j implies f[i].0
        != f[j].0 by {
        assert(f[i].0.len() != f[j].0.len() || f[i].0[0] != f[j].0[0]);
    }
}

impl StsClient {
    /// The signed `AssumeRole` request for `req`: a form `POST` to `/` with
    /// the `x-acs-action: AssumeRole` header, signed with the current time;
    /// `None` when the system clock cannot give a request date and nonce.
    pub fn prepare_assume_role(&self, req: &AssumeRoleRequest) -> (res: Option<SignedRequest>)
        requires
            is_visible_value(self.endpoint_view()),
            crate::headers::is_header_value(self.key_id_view()),
        ensures
            res is Some ==> is_hex64(sha256_hex(payload_string(Some(assume_role_fields(*req))))),
            res matches Some(r) ==> exists|dt: Seq<char>, nonce: Seq<char>|
                #![trigger is_clock_date(dt), is_clock_nonce(nonce)]
                {
                    &&& is_request_date(dt)
                    &&& is_clock_date(dt)
                    &&& is_clock_nonce(nonce)
                    &&& is_reading_of(dt, nonce)
                    &&& r@ == signed_request(
                        self.endpoint_view(),
                        self.key_id_view(),
                        self.secret_view(),
                        "POST"@,
                        "/"@,
                        assume_role_headers(),
                        None,
                        Some(assume_role_fields(*req)),
                        dt,
                        nonce,
                    )
                    &&& is_hex64(
                        request_signature(
                            self.endpoint_view(),
                            self.key_id_view(),
                            self.secret_view(),
                            "POST"@,
                            "/"@,
                            assume_role_headers(),
                            None,
                            Some(assume_role_fields(*req)),
                            dt,
                            nonce,
                        ),
                    )
                },
    {
        proof {
            reveal_strlit("x-acs-action");
            reveal_strlit("AssumeRole");
            assert(crate::text::ascii_lowercase("x-acs-action"@) =~= "x-acs-action"@);
        }
        let mut headers = Headers::new();
        headers.insert("x-acs-action", "AssumeRole");
        proof {
            assert(is_visible_value("AssumeRole"@));
            assert(caller_headers_readable(headers@));
        }
        let payload = assume_role_payload(req);
        let ghost hv = headers@;
        let ghost pv = entry_views(payload@);
        assert(hv == assume_role_headers());
        proof {
            lemma_assume_role_fields_distinct(*req);
        }
        self.prepare_request("POST", "/", Some(headers), None, Some(payload))
    }
}

/// What an `AssumeRole` call gives back: the transport's error as it is, the
/// parsed answer, or, when the body does not parse, an error that quotes it.
pub open spec fn assume_role_outcome(
    response: Result<Seq<char>, Seq<char>>,
    parsed: Option<AssumeRoleResponse>,
) -> Result<AssumeRoleResponse, Seq<char>> {
    match response {
        Err(e) => Err(e),
        Ok(content) => match parsed {
            Some(r) => Ok(r),
            None => Err("Error while parsing response: "@ + content),
        },
    }
}

/// The result of an `AssumeRole` call from the transport's result and, for a
/// body, the answer parsed from it (`None` when it does not parse).
pub fn assume_role_result(
    response: Result<String, String>,
    parsed: Option<AssumeRoleResponse>,
) -> (res: Result<AssumeRoleResponse, String>)
    ensures
        match (res, assume_role_outcome(
            match response {
                Ok(c) => Ok(c@),
                Err(e) => Err(e@),
            },
            parsed,
        )) {
            (Ok(r), Ok(s)) => r == s,
            (Err(e), Err(s)) => e@ == s,
            _ => false,
        },
{
    match response {
        Ok(content) => match parsed {
            Some(r) => Ok(r),
            None => {
                let mut msg = copy_string("Error while parsing response: ");
                push_str(&mut msg, content.as_str());
                Err(msg)
            },
        },
        Err(e) => Err(e),
    }
}

// ---------------------------------------------------------------------------
// Put-object credentials
// ---------------------------------------------------------------------------

/// The session name of put-object requests.
pub open spec fn put_object_session_name() -> Seq<char> {
    "aliyun-sts-rust-sdk"@
}

/// `key` without one leading `/`.
pub open spec fn sanitized_key(key: Seq<char>) -> Seq<char> {
    if key.len() > 0 && key[0] == '/' {
        key.drop_first()
    } else {
        key
    }
}

/// The OSS resource of `bucket/key`.
pub open spec fn object_resource(bucket: Seq<char>, key: Seq<char>) -> Seq<char> {
    "acs:oss:*:*:"@ + bucket + "/"@ + sanitized_key(key)
}

/// A one-element string array with the given view.
pub open spec fn is_single(x: StringOrArray, s: Seq<char>) -> bool {
    x matches StringOrArray::ArrayValue(v) && v@.len() == 1 && v@[0]@ == s
}

/// The policy that allows every OSS action on `bucket/key` and nothing else.
pub open spec fn is_put_object_policy(p: Policy, bucket: Seq<char>, key: Seq<char>) -> bool {
    &&& p.version == Versions::V1
    &&& p.statement@.len() == 1
    &&& p.statement@[0].effect == Effects::Allow
    &&& is_single(p.statement@[0].action, "oss:*"@)
    &&& is_single(p.statement@[0].resource, object_resource(bucket, key))
    &&& p.statement@[0].condition is None
}

fn sanitize_key(object_key: &str) -> (res: String)
    ensures
        res@ == sanitized_key(object_key@),
{
    let cs = chars_of(object_key);
    if cs.len() > 0 && cs[0] == '/' {
        let mut rest: Vec<char> = Vec::new();
        for i in 1..cs.len()
            invariant
                cs@ == object_key@,
                1 <= i <= cs@.len(),
                rest@ == object_key@.subrange(1, i as int),
        {
            rest.push(cs[i]);
            proof {
                assert(rest@ =~= object_key@.subrange(1, i + 1));
            }
        }
        proof {
            assert(rest@ =~= object_key@.drop_first());
        }
        string_of(&rest)
    } else {
        copy_string(object_key)
    }
}

/// The policy that allows every OSS action on the object `object_key` of
/// `bucket_name` (one leading `/` of the key is dropped).
pub fn put_object_policy(bucket_name: &str, object_key: &str) -> (res: Policy)
    ensures
        is_put_object_policy(res, bucket_name@, object_key@),
{
    let key = sanitize_key(object_key);
    let mut resource = copy_string("acs:oss:*:*:");
    push_str(&mut resource, bucket_name);
    push_str(&mut resource, "/");
    push_str(&mut resource, key.as_str());
    let mut actions: Vec<String> = Vec::new();
    actions.push(copy_string("oss:*"));
    let mut resources: Vec<String> = Vec::new();
    resources.push(resource);
    let block = StatementBlock {
        action: StringOrArray::ArrayValue(actions),
        effect: Effects::Allow,
        resource: StringOrArray::ArrayValue(resources),
        condition: None,
    };
    let mut statement: Vec<StatementBlock> = Vec::new();
    statement.push(block);
    Policy { version: Versions::V1, statement }
}

/// The `AssumeRole` request for uploading `object_key` to `bucket_name`.
pub fn put_object_request(
    arn: &str,
    bucket_name: &str,
    object_key: &str,
    duration_seconds: u32,
) -> (res: AssumeRoleRequest)
    ensures
        res.duration_seconds == duration_seconds,
        res.role_arn@ == arn@,
        res.role_session_name@ == put_object_session_name(),
        res.external_id is None,
        res.policy matches Some(p) && is_put_object_policy(p, bucket_name@, object_key@),
{
    let policy = put_object_policy(bucket_name, object_key);
    AssumeRoleRequest::new(arn, "aliyun-sts-rust-sdk", Some(policy), duration_seconds)
}

/// The message given when an answer has neither credentials nor a message.
pub open spec fn default_failure_message() -> Seq<char> {
    "调用阿里云服务失败"@
}

/// The credentials of an `AssumeRole` result: those of the answer when it has
/// some; else the answer's message (or a fixed one); a failed call's error as
/// it is.
pub fn put_object_credentials(result: Result<AssumeRoleResponse, String>) -> (res: Result<
    AssumeRoleResponseCredentials,
    String,
>)
    ensures
        match result {
            Ok(r) => match r.credentials {
                Some(c) => res == Ok::<AssumeRoleResponseCredentials, String>(c),
                None => res matches Err(m) && m@ == match r.message {
                    Some(msg) => msg@,
                    None => default_failure_message(),
                },
            },
            Err(e) => res matches Err(m) && m@ == e@,
        },
{
    match result {
        Ok(r) => {
            if let Some(c) = r.credentials {
                Ok(c)
            } else {
                match r.message {
                    Some(m) => Err(m),
                    None => Err(copy_string("调用阿里云服务失败")),
                }
            }
        },
        Err(e) => Err(e),
    }
}

} // verus!
