//! Properties of the signing and of the put-object shortcut that hold for
//! all inputs.

use vstd::prelude::*;
use vstd::utf8::encode_utf8;

use crate::headers::{
    distinct_names, has_name, header_get, header_insert, headers_wf, lemma_insert_get,
};
use crate::signing::{
    authorization, base_headers, canonical_headers, canonical_query, canonical_request,
    final_headers, form_string, hashed_headers, is_signed_name, keep_signed,
    lemma_keep_signed_entries, payload_string, request_authorization, request_signature,
    request_url, sha256_hex, signature, signed_entries, signed_header_names, signed_request,
    string_to_sign, Pairs,
};
use crate::sort::{
    is_sorted_by_key, is_strictly_sorted_by_key, lemma_sort_distinct, lemma_sort_permutation,
    lemma_sort_same_entries, lemma_sort_sorted, sort_by_key,
};
use crate::policy::{
    condition_json, statement_json, Condition, Effects, StatementBlock, StringOrArray,
};
use crate::sts::{
    assume_role_fields, is_put_object_policy, object_resource, sanitized_key, AssumeRoleRequest,
};
use crate::policy::policy_json;
use crate::text::decimal;

verus! {

proof fn lemma_keep_signed_distinct(h: Pairs)
    requires
        distinct_names(h),
    ensures
        distinct_names(keep_signed(h)),
    decreases h.len(),
{
    if h.len() > 0 {
        let t = h.drop_last();
        assert(distinct_names(t));
        lemma_keep_signed_distinct(t);
        if is_signed_name(h.last().0) {
            let k = keep_signed(t);
            assert forall|j: int| 0 <= j < k.len() implies k[j].0 != h.last().0 by {
                lemma_keep_signed_entries(t, k[j]);
                assert(k.contains(k[j]));
                let i = choose|i: int| 0 <= i < t.len() && t[i] == k[j];
                assert(h[i] == t[i]);
                assert(h[h.len() - 1] == h.last());
            }
            let r = keep_signed(h);
            assert forall|a: int, b: int| 0 <= a < r.len() && 0 <= b < r.len() && a != b implies r[a].0
                != r[b].0 by {
                if a < k.len() && b < k.len() {
                    assert(r[a] == k[a] && r[b] == k[b]);
                } else if a < k.len() {
                    assert(r[a] == k[a]);
                } else if b < k.len() {
                    assert(r[b] == k[b]);
                }
            }
        }
    }
}

/// The canonical headers of well-formed headers are exactly their `host` and
/// `x-acs*` entries, in strictly increasing order of name.
pub proof fn law_canonical_headers(h: Pairs, e: (Seq<char>, Seq<char>))
    requires
        headers_wf(h),
    ensures
        is_strictly_sorted_by_key(signed_entries(h)),
        signed_entries(h).contains(e) <==> (h.contains(e) && is_signed_name(e.0)),
{
    lemma_keep_signed_distinct(h);
    lemma_sort_distinct(keep_signed(h));
    lemma_sort_same_entries(keep_signed(h), e);
    lemma_keep_signed_entries(h, e);
}

/// The canonical query holds the query's fields (a permutation of them),
/// in non-decreasing order of key.
pub proof fn law_canonical_query(q: Pairs)
    ensures
        is_sorted_by_key(sort_by_key(q)),
        sort_by_key(q).to_multiset() == q.to_multiset(),
{
    lemma_sort_sorted(q);
    lemma_sort_permutation(q);
}

/// The names that the signing writes are pairwise different.
proof fn lemma_fixed_names()
    ensures
        "x-sdk-version"@.len() == 13,
        "x-acs-version"@.len() == 13,
        "authorization"@.len() == 13,
        "x-sdk-version"@[2] != "x-acs-version"@[2],
        "x-sdk-version"@[0] != "authorization"@[0],
        "x-acs-version"@[0] != "authorization"@[0],
        "x-acs-signature-nonce"@.len() == 21,
        "x-acs-date"@.len() == 10,
        "host"@.len() == 4,
        "accept"@.len() == 6,
        "x-acs-content-sha256"@.len() == 20,
        "content-length"@.len() == 14,
        "content-type"@.len() == 12,
{
    reveal_strlit("x-sdk-version");
    reveal_strlit("x-acs-version");
    reveal_strlit("x-acs-signature-nonce");
    reveal_strlit("x-acs-date");
    reveal_strlit("host");
    reveal_strlit("accept");
    reveal_strlit("x-acs-content-sha256");
    reveal_strlit("authorization");
    reveal_strlit("content-length");
    reveal_strlit("content-type");
}

/// What the fixed headers set, and that they keep names distinct.
proof fn lemma_base_get(h0: Pairs, endpoint: Seq<char>, dt: Seq<char>, nonce: Seq<char>, m: Seq<char>)
    requires
        distinct_names(h0),
    ensures
        distinct_names(base_headers(h0, endpoint, dt, nonce)),
        header_get(base_headers(h0, endpoint, dt, nonce), m) == if m == "host"@ {
            Some(endpoint)
        } else if m == "x-acs-date"@ {
            Some(dt)
        } else if m == "x-acs-signature-nonce"@ {
            Some(nonce)
        } else if m == "accept"@ {
            Some("application/json"@)
        } else if m == "x-acs-version"@ {
            Some("2015-04-01"@)
        } else if m == "x-sdk-version"@ {
            Some("rust/0.1.0"@)
        } else {
            header_get(h0, m)
        },
{
    lemma_fixed_names();
    let h1 = header_insert(h0, "x-sdk-version"@, "rust/0.1.0"@);
    let h2 = header_insert(h1, "x-acs-version"@, "2015-04-01"@);
    let h3 = header_insert(h2, "x-acs-signature-nonce"@, nonce);
    let h4 = header_insert(h3, "x-acs-date"@, dt);
    let h5 = header_insert(h4, "host"@, endpoint);
    lemma_insert_get(h0, "x-sdk-version"@, "rust/0.1.0"@, m);
    lemma_insert_get(h1, "x-acs-version"@, "2015-04-01"@, m);
    lemma_insert_get(h2, "x-acs-signature-nonce"@, nonce, m);
    lemma_insert_get(h3, "x-acs-date"@, dt, m);
    lemma_insert_get(h4, "host"@, endpoint, m);
    lemma_insert_get(h5, "accept"@, "application/json"@, m);
}

/// What the last headers set.
proof fn lemma_final_get(h: Pairs, auth: Seq<char>, body: Seq<char>, m: Seq<char>)
    requires
        distinct_names(h),
    ensures
        header_get(final_headers(h, auth, body), m) == if m == "content-type"@ {
            Some("application/x-www-form-urlencoded"@)
        } else if m == "content-length"@ && body.len() > 0 {
            Some(decimal(encode_utf8(body).len()))
        } else if m == "authorization"@ {
            Some(auth)
        } else {
            header_get(h, m)
        },
{
    lemma_fixed_names();
    let h1 = header_insert(h, "authorization"@, auth);
    lemma_insert_get(h, "authorization"@, auth, m);
    if body.len() > 0 {
        lemma_insert_get(h1, "content-length"@, decimal(encode_utf8(body).len()), m);
        let h2 = header_insert(h1, "content-length"@, decimal(encode_utf8(body).len()));
        lemma_insert_get(h2, "content-type"@, "application/x-www-form-urlencoded"@, m);
    } else {
        lemma_insert_get(h1, "content-type"@, "application/x-www-form-urlencoded"@, m);
    }
}

/// In the signed request, `host`, `x-acs-date` and `x-acs-signature-nonce`
/// carry the endpoint and the time values, `x-acs-content-sha256` the hash
/// of the body, `authorization` the signature and `content-type` the form
/// type; `content-length` is the body's byte length when there is a body
/// and otherwise whatever the caller gave; there is a body exactly when the
/// form string is not empty.
pub proof fn law_signed_request_headers(
    endpoint: Seq<char>,
    key_id: Seq<char>,
    secret: Seq<char>,
    method: Seq<char>,
    uri: Seq<char>,
    h0: Pairs,
    query: Option<Pairs>,
    payload: Option<Pairs>,
    dt: Seq<char>,
    nonce: Seq<char>,
)
    requires
        distinct_names(h0),
    ensures
        ({
            let r = signed_request(endpoint, key_id, secret, method, uri, h0, query, payload, dt, nonce);
            let body = payload_string(payload);
            &&& header_get(r.headers, "host"@) == Some(endpoint)
            &&& header_get(r.headers, "x-acs-date"@) == Some(dt)
            &&& header_get(r.headers, "x-acs-signature-nonce"@) == Some(nonce)
            &&& header_get(r.headers, "x-acs-content-sha256"@) == Some(sha256_hex(body))
            &&& header_get(r.headers, "authorization"@) == Some(
                request_authorization(
                    endpoint,
                    key_id,
                    secret,
                    method,
                    uri,
                    h0,
                    query,
                    payload,
                    dt,
                    nonce,
                ),
            )
            &&& header_get(r.headers, "content-type"@) == Some("application/x-www-form-urlencoded"@)
            &&& header_get(r.headers, "content-length"@) == if body.len() > 0 {
                Some(decimal(encode_utf8(body).len()))
            } else {
                header_get(h0, "content-length"@)
            }
            &&& (r.body is Some <==> body.len() > 0)
        }),
{
    lemma_fixed_names();
    let body = payload_string(payload);
    let hash = sha256_hex(body);
    let auth = request_authorization(endpoint, key_id, secret, method, uri, h0, query, payload, dt, nonce);
    let base = base_headers(h0, endpoint, dt, nonce);
    let hashed = hashed_headers(h0, endpoint, dt, nonce, hash);
    assert(hashed == header_insert(base, "x-acs-content-sha256"@, hash));
    lemma_base_get(h0, endpoint, dt, nonce, "host"@);
    lemma_base_get(h0, endpoint, dt, nonce, "x-acs-date"@);
    lemma_base_get(h0, endpoint, dt, nonce, "x-acs-signature-nonce"@);
    lemma_base_get(h0, endpoint, dt, nonce, "content-length"@);
    lemma_insert_get(base, "x-acs-content-sha256"@, hash, "host"@);
    lemma_insert_get(base, "x-acs-content-sha256"@, hash, "x-acs-date"@);
    lemma_insert_get(base, "x-acs-content-sha256"@, hash, "x-acs-signature-nonce"@);
    lemma_insert_get(base, "x-acs-content-sha256"@, hash, "content-length"@);
    lemma_final_get(hashed, auth, body, "host"@);
    lemma_final_get(hashed, auth, body, "x-acs-date"@);
    lemma_final_get(hashed, auth, body, "x-acs-signature-nonce"@);
    lemma_final_get(hashed, auth, body, "x-acs-content-sha256"@);
    lemma_final_get(hashed, auth, body, "authorization"@);
    lemma_final_get(hashed, auth, body, "content-type"@);
    lemma_final_get(hashed, auth, body, "content-length"@);
}

/// `a` and `b` hold the same names in the same order, with the same value
/// under every name but `n`.
pub open spec fn agree_except(a: Pairs, b: Pairs, n: Seq<char>) -> bool {
    &&& a.len() == b.len()
    &&& forall|i: int| 0 <= i < a.len() ==> #[trigger] a[i].0 == b[i].0
    &&& forall|i: int| 0 <= i < a.len() && a[i].0 != n ==> #[trigger] a[i].1 == b[i].1
}

/// Setting one name to two values gives headers that agree but under it.
proof fn lemma_insert_two_values(h: Pairs, n: Seq<char>, v1: Seq<char>, v2: Seq<char>)
    requires
        distinct_names(h),
    ensures
        agree_except(header_insert(h, n, v1), header_insert(h, n, v2), n),
{
}

/// Setting a name that is present replaces the entry where it stands.
proof fn lemma_insert_at(h: Pairs, n: Seq<char>, v: Seq<char>, k: int)
    requires
        distinct_names(h),
        0 <= k < h.len(),
        h[k].0 == n,
    ensures
        header_insert(h, n, v) == h.update(k, (n, v)),
{
    assert(has_name(h, n));
}

/// The same insertion into headers that agree but under `n` keeps them so.
proof fn lemma_insert_keeps_agreement(a: Pairs, b: Pairs, n: Seq<char>, m: Seq<char>, v: Seq<char>)
    requires
        distinct_names(a),
        agree_except(a, b, n),
    ensures
        agree_except(header_insert(a, m, v), header_insert(b, m, v), n),
{
    assert forall|x: int, y: int|
        0 <= x < b.len() && 0 <= y < b.len() && x != y implies b[x].0 != b[y].0 by {
        assert(a[x].0 == b[x].0 && a[y].0 == b[y].0);
    }
    if has_name(a, m) {
        let i = choose|i: int| 0 <= i < a.len() && a[i].0 == m;
        assert(a[i].0 == b[i].0);
        let ra = a.update(i, (m, v));
        let rb = b.update(i, (m, v));
        lemma_insert_at(a, m, v, i);
        lemma_insert_at(b, m, v, i);
        assert forall|k: int| 0 <= k < ra.len() implies #[trigger] ra[k].0 == rb[k].0 by {
            assert(a[k].0 == b[k].0);
        }
        assert forall|k: int| 0 <= k < ra.len() && ra[k].0 != n implies #[trigger] ra[k].1
            == rb[k].1 by {
            assert(a[k].0 == b[k].0);
        }
    } else {
        assert forall|j: int| 0 <= j < b.len() implies b[j].0 != m by {
            assert(a[j].0 == b[j].0);
        }
        assert(!has_name(b, m));
        let ra = a.push((m, v));
        let rb = b.push((m, v));
        assert forall|k: int| 0 <= k < ra.len() implies #[trigger] ra[k].0 == rb[k].0 by {
            if k < a.len() {
                assert(a[k].0 == b[k].0);
            }
        }
        assert forall|k: int| 0 <= k < ra.len() && ra[k].0 != n implies #[trigger] ra[k].1
            == rb[k].1 by {
            if k < a.len() {
                assert(a[k].0 == b[k].0);
            }
        }
    }
}

/// The access key secret goes into the signature and nowhere else: two
/// requests signed alike under different secrets have the same method, URL
/// and body, the same header names in the same order and the same value
/// under every header but `authorization`; each `authorization` names the
/// same key ID and signed headers, followed by its own signature.
pub proof fn law_secret_only_signs(
    endpoint: Seq<char>,
    key_id: Seq<char>,
    secret1: Seq<char>,
    secret2: Seq<char>,
    method: Seq<char>,
    uri: Seq<char>,
    h0: Pairs,
    query: Option<Pairs>,
    payload: Option<Pairs>,
    dt: Seq<char>,
    nonce: Seq<char>,
)
    requires
        distinct_names(h0),
    ensures
        ({
            let r1 = signed_request(endpoint, key_id, secret1, method, uri, h0, query, payload, dt, nonce);
            let r2 = signed_request(endpoint, key_id, secret2, method, uri, h0, query, payload, dt, nonce);
            let names = signed_header_names(
                signed_entries(hashed_headers(h0, endpoint, dt, nonce, sha256_hex(payload_string(payload)))),
            );
            &&& r1.method == r2.method
            &&& r1.url == r2.url
            &&& r1.body == r2.body
            &&& agree_except(r1.headers, r2.headers, "authorization"@)
            &&& header_get(r1.headers, "authorization"@) == Some(
                authorization(
                    key_id,
                    names,
                    request_signature(endpoint, key_id, secret1, method, uri, h0, query, payload, dt, nonce),
                ),
            )
            &&& header_get(r2.headers, "authorization"@) == Some(
                authorization(
                    key_id,
                    names,
                    request_signature(endpoint, key_id, secret2, method, uri, h0, query, payload, dt, nonce),
                ),
            )
        }),
{
    lemma_fixed_names();
    let body = payload_string(payload);
    let hash = sha256_hex(body);
    let hashed = hashed_headers(h0, endpoint, dt, nonce, hash);
    let base = base_headers(h0, endpoint, dt, nonce);
    lemma_base_get(h0, endpoint, dt, nonce, "host"@);
    lemma_insert_get(base, "x-acs-content-sha256"@, hash, "host"@);
    assert(distinct_names(hashed));
    let a1 = request_authorization(endpoint, key_id, secret1, method, uri, h0, query, payload, dt, nonce);
    let a2 = request_authorization(endpoint, key_id, secret2, method, uri, h0, query, payload, dt, nonce);
    let len = decimal(encode_utf8(body).len());
    let x1 = header_insert(hashed, "authorization"@, a1);
    let x2 = header_insert(hashed, "authorization"@, a2);
    lemma_insert_two_values(hashed, "authorization"@, a1, a2);
    lemma_insert_get(hashed, "authorization"@, a1, "host"@);
    let ct = "application/x-www-form-urlencoded"@;
    if body.len() > 0 {
        let y1 = header_insert(x1, "content-length"@, len);
        let y2 = header_insert(x2, "content-length"@, len);
        lemma_insert_keeps_agreement(x1, x2, "authorization"@, "content-length"@, len);
        lemma_insert_get(x1, "content-length"@, len, "host"@);
        lemma_insert_keeps_agreement(y1, y2, "authorization"@, "content-type"@, ct);
    } else {
        lemma_insert_keeps_agreement(x1, x2, "authorization"@, "content-type"@, ct);
    }
    law_signed_request_headers(endpoint, key_id, secret1, method, uri, h0, query, payload, dt, nonce);
    law_signed_request_headers(endpoint, key_id, secret2, method, uri, h0, query, payload, dt, nonce);
}

/// The signature covers the query that the URL carries: the URL ends with
/// `?` and the query fields sorted by key (nothing when there are none), and
/// the `authorization` value is the HMAC, under the secret, of a canonical
/// request whose query line is that same string, whatever the body is.
pub proof fn law_signature_covers_url_query(
    endpoint: Seq<char>,
    key_id: Seq<char>,
    secret: Seq<char>,
    method: Seq<char>,
    uri: Seq<char>,
    h0: Pairs,
    query: Option<Pairs>,
    payload: Option<Pairs>,
    dt: Seq<char>,
    nonce: Seq<char>,
)
    requires
        distinct_names(h0),
    ensures
        ({
            let r = signed_request(endpoint, key_id, secret, method, uri, h0, query, payload, dt, nonce);
            let q = match query {
                Some(fields) => form_string(sort_by_key(fields)),
                None => Seq::empty(),
            };
            let hash = sha256_hex(payload_string(payload));
            let sg = signed_entries(hashed_headers(h0, endpoint, dt, nonce, hash));
            &&& r.url == "https://"@ + endpoint + uri + if q.len() == 0 {
                Seq::empty()
            } else {
                "?"@ + q
            }
            &&& header_get(r.headers, "authorization"@) == Some(
                authorization(
                    key_id,
                    signed_header_names(sg),
                    signature(
                        secret,
                        string_to_sign(
                            canonical_request(
                                method,
                                uri,
                                q,
                                canonical_headers(sg),
                                signed_header_names(sg),
                                hash,
                            ),
                        ),
                    ),
                ),
            )
        }),
{
    law_signed_request_headers(endpoint, key_id, secret, method, uri, h0, query, payload, dt, nonce);
}

/// The fields of an `AssumeRole` request: `DurationSeconds`, `RoleArn` and
/// `RoleSessionName` always, with the request's values; `ExternalId` exactly
/// when the request has an external ID and `Policy` exactly when it has a
/// policy (its JSON), each whatever the other is; no other field.
pub proof fn law_assume_role_fields(req: AssumeRoleRequest, v: Seq<char>)
    ensures
        assume_role_fields(req).contains(("DurationSeconds"@, v)) <==> v == decimal(
            req.duration_seconds as nat,
        ),
        assume_role_fields(req).contains(("RoleArn"@, v)) <==> v == req.role_arn@,
        assume_role_fields(req).contains(("RoleSessionName"@, v)) <==> v == req.role_session_name@,
        assume_role_fields(req).contains(("ExternalId"@, v)) <==> (req.external_id matches Some(e)
            && e@ == v),
        assume_role_fields(req).contains(("Policy"@, v)) <==> (req.policy matches Some(p)
            && policy_json(p) == v),
        forall|i: int|
            0 <= i < assume_role_fields(req).len() ==> {
                let n = #[trigger] assume_role_fields(req)[i].0;
                n == "DurationSeconds"@ || n == "RoleArn"@ || n == "RoleSessionName"@ || n
                    == "ExternalId"@ || n == "Policy"@
            },
{
    reveal_strlit("DurationSeconds");
    reveal_strlit("RoleArn");
    reveal_strlit("RoleSessionName");
    reveal_strlit("ExternalId");
    reveal_strlit("Policy");
    let f = assume_role_fields(req);
    let d = ("DurationSeconds"@, decimal(req.duration_seconds as nat));
    let a = ("RoleArn"@, req.role_arn@);
    let n = ("RoleSessionName"@, req.role_session_name@);
    match req.external_id {
        Some(e) => match req.policy {
            Some(p) => {
                assert(f =~= seq![d, a, n, ("ExternalId"@, e@), ("Policy"@, policy_json(p))]);
                assert(f[3] == ("ExternalId"@, e@) && f[4] == ("Policy"@, policy_json(p)));
            },
            None => {
                assert(f =~= seq![d, a, n, ("ExternalId"@, e@)]);
                assert(f[3] == ("ExternalId"@, e@));
            },
        },
        None => match req.policy {
            Some(p) => {
                assert(f =~= seq![d, a, n, ("Policy"@, policy_json(p))]);
                assert(f[3] == ("Policy"@, policy_json(p)));
            },
            None => {
                assert(f =~= seq![d, a, n]);
            },
        },
    }
    assert(f[0] == d && f[1] == a && f[2] == n);
    assert forall|i: int| 0 <= i < f.len() implies {
        ||| f[i] == d
        ||| f[i] == a
        ||| f[i] == n
        ||| (req.external_id matches Some(e) && f[i] == ("ExternalId"@, e@))
        ||| (req.policy matches Some(p) && f[i] == ("Policy"@, policy_json(p)))
    } by {
        if i >= 3 {
            match req.external_id {
                Some(e) => match req.policy {
                    Some(p) => {
                        assert(f[3] == ("ExternalId"@, e@) && f[4] == ("Policy"@, policy_json(p)));
                    },
                    None => {},
                },
                None => {},
            }
        }
    }
    assert("DurationSeconds"@[0] != "RoleSessionName"@[0]);
    if f.contains(("DurationSeconds"@, v)) {
        let i = choose|i: int| 0 <= i < f.len() && f[i] == ("DurationSeconds"@, v);
        assert(f[i].0 == "DurationSeconds"@);
    }
    if f.contains(("RoleArn"@, v)) {
        let i = choose|i: int| 0 <= i < f.len() && f[i] == ("RoleArn"@, v);
        assert(f[i].0 == "RoleArn"@);
    }
    if f.contains(("RoleSessionName"@, v)) {
        let i = choose|i: int| 0 <= i < f.len() && f[i] == ("RoleSessionName"@, v);
        assert(f[i].0 == "RoleSessionName"@);
    }
    if f.contains(("ExternalId"@, v)) {
        let i = choose|i: int| 0 <= i < f.len() && f[i] == ("ExternalId"@, v);
        assert(f[i].0 == "ExternalId"@);
    }
    if f.contains(("Policy"@, v)) {
        let i = choose|i: int| 0 <= i < f.len() && f[i] == ("Policy"@, v);
        assert(f[i].0 == "Policy"@);
    }
    if v == decimal(req.duration_seconds as nat) {
        assert(f[0] == ("DurationSeconds"@, v));
    }
    if v == req.role_arn@ {
        assert(f[1] == ("RoleArn"@, v));
    }
    if v == req.role_session_name@ {
        assert(f[2] == ("RoleSessionName"@, v));
    }
    if req.external_id matches Some(e) && e@ == v {
        assert(f[3] == ("ExternalId"@, v));
    }
    if req.policy matches Some(p) && policy_json(p) == v {
        if req.external_id is Some {
            assert(f[4] == ("Policy"@, v));
        } else {
            assert(f[3] == ("Policy"@, v));
        }
    }
}

/// The put-object policy allows every OSS action, and nothing else, on the
/// object named by the key exactly as given, after the bucket: for a key
/// that does not start with `/` the resource is `acs:oss:*:*:bucket/key`,
/// and a key behind one `/` names the same resource.
pub proof fn law_put_object_resource(p: crate::policy::Policy, bucket: Seq<char>, key: Seq<char>)
    requires
        is_put_object_policy(p, bucket, key),
    ensures
        p.statement@.len() == 1,
        p.statement@[0].effect == Effects::Allow,
        p.statement@[0].condition is None,
        p.statement@[0].action matches StringOrArray::ArrayValue(v) && v@.len() == 1 && v@[0]@
            == "oss:*"@,
        p.statement@[0].resource matches StringOrArray::ArrayValue(v) && v@.len() == 1 && v@[0]@
            == "acs:oss:*:*:"@ + bucket + "/"@ + if key.len() > 0 && key[0] == '/' {
            key.drop_first()
        } else {
            key
        },
{
}

/// Where a key does not start with `/`, its resource ends with the key
/// exactly as given.
pub proof fn law_object_resource_verbatim(bucket: Seq<char>, key: Seq<char>)
    requires
        key.len() == 0 || key[0] != '/',
    ensures
        object_resource(bucket, key) == "acs:oss:*:*:"@ + bucket + "/"@ + key,
        object_resource(bucket, seq!['/'] + key) == "acs:oss:*:*:"@ + bucket + "/"@ + key,
{
    assert((seq!['/'] + key).drop_first() =~= key);
}

/// A statement's condition is written whenever it has one, whatever the
/// effect: its JSON is that of the same statement without the condition,
/// with `,"Condition":` and the condition's JSON before the closing brace.
pub proof fn law_statement_condition(s: StatementBlock, c: Condition)
    requires
        s.condition == Some(c),
    ensures
        statement_json(s) == statement_json(
            StatementBlock { effect: s.effect, action: s.action, resource: s.resource, condition: None },
        ).drop_last() + ",\"Condition\":"@ + condition_json(c@) + "}"@,
{
    let bare = StatementBlock {
        effect: s.effect,
        action: s.action,
        resource: s.resource,
        condition: None,
    };
    reveal_strlit("}");
    let head = "{\"Effect\":"@ + crate::policy::effect_json(s.effect) + ",\"Action\":"@
        + crate::policy::string_or_array_json(s.action) + ",\"Resource\":"@
        + crate::policy::string_or_array_json(s.resource);
    assert(statement_json(bare) =~= head + Seq::<char>::empty() + "}"@);
    assert((head + Seq::<char>::empty() + "}"@).drop_last() =~= head);
    assert(statement_json(s) =~= head + (",\"Condition\":"@ + condition_json(c@)) + "}"@);
}

/// Two statements that differ only in their effect have JSON that differs
/// only in the effect: `{"Effect":"Allow"` or `{"Effect":"Deny"`, followed
/// by the same text.
pub proof fn law_statement_effect(s: StatementBlock)
    ensures
        ({
            let allow = StatementBlock {
                effect: Effects::Allow,
                action: s.action,
                resource: s.resource,
                condition: s.condition,
            };
            let deny = StatementBlock {
                effect: Effects::Deny,
                action: s.action,
                resource: s.resource,
                condition: s.condition,
            };
            &&& statement_json(allow).take(17) == "{\"Effect\":\"Allow\""@
            &&& statement_json(deny).take(16) == "{\"Effect\":\"Deny\""@
            &&& statement_json(allow).skip(17) == statement_json(deny).skip(16)
        }),
{
    reveal_strlit("{\"Effect\":");
    reveal_strlit("\"Allow\"");
    reveal_strlit("\"Deny\"");
    reveal_strlit("{\"Effect\":\"Allow\"");
    reveal_strlit("{\"Effect\":\"Deny\"");
    let allow = StatementBlock {
        effect: Effects::Allow,
        action: s.action,
        resource: s.resource,
        condition: s.condition,
    };
    let deny = StatementBlock {
        effect: Effects::Deny,
        action: s.action,
        resource: s.resource,
        condition: s.condition,
    };
    let tail = ",\"Action\":"@ + crate::policy::string_or_array_json(s.action) + ",\"Resource\":"@
        + crate::policy::string_or_array_json(s.resource) + match s.condition {
        Some(c) => ",\"Condition\":"@ + condition_json(c@),
        None => Seq::empty(),
    } + "}"@;
    assert(statement_json(allow) =~= "{\"Effect\":\"Allow\""@ + tail);
    assert(statement_json(deny) =~= "{\"Effect\":\"Deny\""@ + tail);
    assert(("{\"Effect\":\"Allow\""@ + tail).take(17) =~= "{\"Effect\":\"Allow\""@);
    assert(("{\"Effect\":\"Allow\""@ + tail).skip(17) =~= tail);
    assert(("{\"Effect\":\"Deny\""@ + tail).take(16) =~= "{\"Effect\":\"Deny\""@);
    assert(("{\"Effect\":\"Deny\""@ + tail).skip(16) =~= tail);
}

/// Exactly one leading `/` of an object key is dropped: a key and the same
/// key behind one more `/` name the same resource, as long as the key does
/// not itself start with `/`.
pub proof fn law_object_key_slash(bucket: Seq<char>, key: Seq<char>)
    ensures
        sanitized_key(seq!['/'] + key) == key,
        (key.len() == 0 || key[0] != '/') ==> object_resource(bucket, seq!['/'] + key)
            == object_resource(bucket, key),
{
    assert((seq!['/'] + key).drop_first() =~= key);
}

} // verus!
