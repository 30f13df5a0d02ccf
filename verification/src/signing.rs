//! ACS3-HMAC-SHA256 request signing: the canonical request, the string to
//! sign, the signature and the headers of the request that goes out.

use vstd::prelude::*;
use vstd::utf8::encode_utf8;

use crate::crypto::{spec_hmac_sha256, spec_sha256};
use crate::encoding::{hex_lower, percent_encode, url_encode};
use crate::headers::{distinct_names, entry_views, header_insert, is_visible_value, Headers};
use crate::sort::sort_by_key;
use crate::text::{
    copy_string, decimal, is_prefix, join, join_strings, push_str, starts_with, str_eq, views,
};

verus! {

/// A list of (key, value) pairs as character sequences.
pub type Pairs = Seq<(Seq<char>, Seq<char>)>;

// ---------------------------------------------------------------------------
// Form strings
// ---------------------------------------------------------------------------

/// Percent-encoding of the UTF-8 form of `s`.
pub open spec fn url_enc(s: Seq<char>) -> Seq<char> {
    percent_encode(encode_utf8(s))
}

/// One `key=value` field, both sides percent-encoded.
pub open spec fn form_field(e: (Seq<char>, Seq<char>)) -> Seq<char> {
    url_enc(e.0) + "="@ + url_enc(e.1)
}

/// The fields of `pairs`, in order, joined by `&`.
pub open spec fn form_string(pairs: Pairs) -> Seq<char> {
    join(pairs.map_values(|e: (Seq<char>, Seq<char>)| form_field(e)), "&"@)
}

/// The canonical query string: the query fields sorted by key.
pub open spec fn canonical_query(query: Option<Pairs>) -> Seq<char> {
    match query {
        Some(q) => form_string(sort_by_key(q)),
        None => Seq::empty(),
    }
}

/// The form body: the payload fields in the order given.
pub open spec fn payload_string(payload: Option<Pairs>) -> Seq<char> {
    match payload {
        Some(p) => form_string(p),
        None => Seq::empty(),
    }
}

/// The `key=value&...` string of `pairs`, in order.
pub fn form_string_of(pairs: &Vec<(String, String)>) -> (res: String)
    ensures
        res@ == form_string(entry_views(pairs@)),
{
    let ghost target = entry_views(pairs@).map_values(
        |e: (Seq<char>, Seq<char>)| form_field(e),
    );
    let mut fields: Vec<String> = Vec::new();
    for i in 0..pairs.len()
        invariant
            target == entry_views(pairs@).map_values(|e: (Seq<char>, Seq<char>)| form_field(e)),
            fields@.len() == i,
            i <= pairs@.len(),
            views(fields@) == target.take(i as int),
    {
        let mut field = url_encode(pairs[i].0.as_str());
        push_str(&mut field, "=");
        let v = url_encode(pairs[i].1.as_str());
        push_str(&mut field, v.as_str());
        fields.push(field);
        proof {
            assert(views(fields@) =~= target.take(i + 1));
        }
    }
    proof {
        assert(target.take(pairs@.len() as int) =~= target);
    }
    join_strings(&fields, "&")
}

// ---------------------------------------------------------------------------
// Canonical headers
// ---------------------------------------------------------------------------

/// Names of the headers that the signature covers: `host` and those that
/// begin with `x-acs`.
pub open spec fn is_signed_name(n: Seq<char>) -> bool {
    n == "host"@ || is_prefix("x-acs"@, n)
}

/// The entries of `h` whose names the signature covers, in order.
pub open spec fn keep_signed(h: Pairs) -> Pairs
    decreases h.len(),
{
    if h.len() == 0 {
        Seq::empty()
    } else if is_signed_name(h.last().0) {
        keep_signed(h.drop_last()).push(h.last())
    } else {
        keep_signed(h.drop_last())
    }
}

/// The signed entries of `h`, sorted by name.
pub open spec fn signed_entries(h: Pairs) -> Pairs {
    sort_by_key(keep_signed(h))
}

/// `name:value` lines joined by newlines.
pub open spec fn canonical_headers(c: Pairs) -> Seq<char> {
    join(c.map_values(|e: (Seq<char>, Seq<char>)| e.0 + ":"@ + e.1), "\n"@)
}

/// The names joined by `;`.
pub open spec fn signed_header_names(c: Pairs) -> Seq<char> {
    join(c.map_values(|e: (Seq<char>, Seq<char>)| e.0), ";"@)
}

/// An entry is kept exactly when it is one of `h` and its name is signed.
pub(crate) proof fn lemma_keep_signed_entries(h: Pairs, e: (Seq<char>, Seq<char>))
    ensures
        keep_signed(h).contains(e) <==> (h.contains(e) && is_signed_name(e.0)),
    decreases h.len(),
{
    if h.len() > 0 {
        let t = h.drop_last();
        lemma_keep_signed_entries(t, e);
        if h.contains(e) && is_signed_name(e.0) {
            let i = choose|i: int| 0 <= i < h.len() && h[i] == e;
            if i < t.len() {
                assert(t[i] == e);
                assert(t.contains(e));
                let k = choose|k: int| 0 <= k < keep_signed(t).len() && keep_signed(t)[k] == e;
                if is_signed_name(h.last().0) {
                    assert(keep_signed(h)[k] == e);
                }
            } else {
                assert(keep_signed(h).last() == e);
            }
        }
        if keep_signed(h).contains(e) {
            let k = choose|k: int| 0 <= k < keep_signed(h).len() && keep_signed(h)[k] == e;
            if is_signed_name(h.last().0) && k == keep_signed(t).len() {
                assert(h[h.len() - 1] == e);
            } else {
                assert(keep_signed(t)[k] == e);
                assert(keep_signed(t).contains(e));
                let i = choose|i: int| 0 <= i < t.len() && t[i] == e;
                assert(h[i] == e);
            }
        }
    } else {
        assert(!keep_signed(h).contains(e));
    }
}

/// The entries of `h` whose names the signature covers, in order.
pub(crate) fn keep_signed_of(h: &Vec<(String, String)>) -> (res: Vec<(String, String)>)
    ensures
        entry_views(res@) == keep_signed(entry_views(h@)),
{
    let mut out: Vec<(String, String)> = Vec::new();
    for i in 0..h.len()
        invariant
            i <= h@.len(),
            entry_views(out@) == keep_signed(entry_views(h@).take(i as int)),
    {
        let ghost t = entry_views(h@).take(i + 1);
        proof {
            assert(t.drop_last() =~= entry_views(h@).take(i as int));
            assert(t.last() == (h@[i as int].0@, h@[i as int].1@));
        }
        let name = h[i].0.as_str();
        if str_eq(name, "host") || starts_with(name, "x-acs") {
            out.push((copy_string(name), copy_string(h[i].1.as_str())));
            proof {
                assert(entry_views(out@) =~= keep_signed(entry_views(h@).take(i as int)).push(
                    t.last(),
                ));
            }
        }
    }
    proof {
        assert(entry_views(h@).take(h@.len() as int) =~= entry_views(h@));
    }
    out
}

/// The canonical header lines and the signed header names of the entries
/// `c`, in order.
pub(crate) fn canonical_headers_of(c: &Vec<(String, String)>) -> (res: (String, String))
    ensures
        res.0@ == canonical_headers(entry_views(c@)),
        res.1@ == signed_header_names(entry_views(c@)),
{
    let ghost lines_t = entry_views(c@).map_values(
        |e: (Seq<char>, Seq<char>)| e.0 + ":"@ + e.1,
    );
    let ghost names_t = entry_views(c@).map_values(|e: (Seq<char>, Seq<char>)| e.0);
    let mut lines: Vec<String> = Vec::new();
    let mut names: Vec<String> = Vec::new();
    for i in 0..c.len()
        invariant
            lines_t == entry_views(c@).map_values(
                |e: (Seq<char>, Seq<char>)| e.0 + ":"@ + e.1,
            ),
            names_t == entry_views(c@).map_values(|e: (Seq<char>, Seq<char>)| e.0),
            i <= c@.len(),
            lines@.len() == i,
            names@.len() == i,
            views(lines@) == lines_t.take(i as int),
            views(names@) == names_t.take(i as int),
    {
        let mut line = copy_string(c[i].0.as_str());
        push_str(&mut line, ":");
        push_str(&mut line, c[i].1.as_str());
        lines.push(line);
        names.push(copy_string(c[i].0.as_str()));
        proof {
            assert(views(lines@) =~= lines_t.take(i + 1));
            assert(views(names@) =~= names_t.take(i + 1));
        }
    }
    proof {
        assert(lines_t.take(c@.len() as int) =~= lines_t);
        assert(names_t.take(c@.len() as int) =~= names_t);
    }
    (join_strings(&lines, "\n"), join_strings(&names, ";"))
}

// ---------------------------------------------------------------------------
// The signed request
// ---------------------------------------------------------------------------

/// The headers after the fixed ones are set, before the content hash.
pub open spec fn base_headers(h0: Pairs, endpoint: Seq<char>, dt: Seq<char>, nonce: Seq<char>) -> Pairs {
    let h1 = header_insert(h0, "x-sdk-version"@, "rust/0.1.0"@);
    let h2 = header_insert(h1, "x-acs-version"@, "2015-04-01"@);
    let h3 = header_insert(h2, "x-acs-signature-nonce"@, nonce);
    let h4 = header_insert(h3, "x-acs-date"@, dt);
    let h5 = header_insert(h4, "host"@, endpoint);
    header_insert(h5, "accept"@, "application/json"@)
}

/// The headers that the signature is computed over.
pub open spec fn hashed_headers(
    h0: Pairs,
    endpoint: Seq<char>,
    dt: Seq<char>,
    nonce: Seq<char>,
    content_hash: Seq<char>,
) -> Pairs {
    header_insert(base_headers(h0, endpoint, dt, nonce), "x-acs-content-sha256"@, content_hash)
}

/// Lower-case hex SHA-256 of the UTF-8 form of `s`.
pub open spec fn sha256_hex(s: Seq<char>) -> Seq<char> {
    hex_lower(spec_sha256(encode_utf8(s)))
}

/// The canonical request.
pub open spec fn canonical_request(
    method: Seq<char>,
    uri: Seq<char>,
    query: Seq<char>,
    headers: Seq<char>,
    names: Seq<char>,
    content_hash: Seq<char>,
) -> Seq<char> {
    method + "\n"@ + uri + "\n"@ + query + "\n"@ + headers + "\n\n"@ + names + "\n"@ + content_hash
}

/// The string to sign for a canonical request.
pub open spec fn string_to_sign(canonical: Seq<char>) -> Seq<char> {
    "ACS3-HMAC-SHA256\n"@ + sha256_hex(canonical)
}

/// The signature: lower-case hex HMAC-SHA256 of the string to sign under
/// the access key secret.
pub open spec fn signature(secret: Seq<char>, to_sign: Seq<char>) -> Seq<char> {
    hex_lower(spec_hmac_sha256(encode_utf8(secret), encode_utf8(to_sign)))
}

/// The `Authorization` header value.
pub open spec fn authorization(key_id: Seq<char>, names: Seq<char>, sig: Seq<char>) -> Seq<char> {
    "ACS3-HMAC-SHA256 Credential="@ + key_id + ",SignedHeaders="@ + names + ",Signature="@ + sig
}

/// The headers of the request that goes out.
pub open spec fn final_headers(hashed: Pairs, auth: Seq<char>, body: Seq<char>) -> Pairs {
    let h1 = header_insert(hashed, "authorization"@, auth);
    let h2 = if body.len() > 0 {
        header_insert(h1, "content-length"@, decimal(encode_utf8(body).len()))
    } else {
        h1
    };
    header_insert(h2, "content-type"@, "application/x-www-form-urlencoded"@)
}

/// The URL of the request.
pub open spec fn request_url(endpoint: Seq<char>, uri: Seq<char>, query: Seq<char>) -> Seq<char> {
    "https://"@ + endpoint + uri + if query.len() == 0 {
        Seq::empty()
    } else {
        "?"@ + query
    }
}

/// What a signed request holds.
pub struct RequestView {
    pub method: Seq<char>,
    pub url: Seq<char>,
    pub headers: Pairs,
    pub body: Option<Seq<char>>,
}

/// The signature of the request signed with the given time values.
pub open spec fn request_signature(
    endpoint: Seq<char>,
    key_id: Seq<char>,
    secret: Seq<char>,
    method: Seq<char>,
    uri: Seq<char>,
    h0: Pairs,
    query: Option<Pairs>,
    payload: Option<Pairs>,
    dt: Seq<char>,
    nonce: Seq<char>,
) -> Seq<char> {
    let content_hash = sha256_hex(payload_string(payload));
    let signed = signed_entries(hashed_headers(h0, endpoint, dt, nonce, content_hash));
    let cr = canonical_request(
        method,
        uri,
        canonical_query(query),
        canonical_headers(signed),
        signed_header_names(signed),
        content_hash,
    );
    signature(secret, string_to_sign(cr))
}

/// The `Authorization` value of the request signed with the given time
/// values.
pub open spec fn request_authorization(
    endpoint: Seq<char>,
    key_id: Seq<char>,
    secret: Seq<char>,
    method: Seq<char>,
    uri: Seq<char>,
    h0: Pairs,
    query: Option<Pairs>,
    payload: Option<Pairs>,
    dt: Seq<char>,
    nonce: Seq<char>,
) -> Seq<char> {
    let content_hash = sha256_hex(payload_string(payload));
    let signed = signed_entries(hashed_headers(h0, endpoint, dt, nonce, content_hash));
    authorization(
        key_id,
        signed_header_names(signed),
        request_signature(endpoint, key_id, secret, method, uri, h0, query, payload, dt, nonce),
    )
}

/// The request signed with the given time values.
pub open spec fn signed_request(
    endpoint: Seq<char>,
    key_id: Seq<char>,
    secret: Seq<char>,
    method: Seq<char>,
    uri: Seq<char>,
    h0: Pairs,
    query: Option<Pairs>,
    payload: Option<Pairs>,
    dt: Seq<char>,
    nonce: Seq<char>,
) -> RequestView {
    let body = payload_string(payload);
    let hashed = hashed_headers(h0, endpoint, dt, nonce, sha256_hex(body));
    let auth = request_authorization(
        endpoint,
        key_id,
        secret,
        method,
        uri,
        h0,
        query,
        payload,
        dt,
        nonce,
    );
    RequestView {
        method,
        url: request_url(endpoint, uri, canonical_query(query)),
        headers: final_headers(hashed, auth, body),
        body: if body.len() > 0 {
            Some(body)
        } else {
            None
        },
    }
}

/// Names whose values the signing overwrites before it reads them.
pub open spec fn is_overwritten_name(n: Seq<char>) -> bool {
    n == "x-acs-version"@ || n == "x-acs-signature-nonce"@ || n == "x-acs-date"@ || n == "host"@
        || n == "x-acs-content-sha256"@
}

/// Every signed header that the caller supplies, and that the signing keeps,
/// reads back as text.
pub open spec fn caller_headers_readable(h0: Pairs) -> bool {
    forall|i: int|
        0 <= i < h0.len() && is_signed_name(#[trigger] h0[i].0) && !is_overwritten_name(h0[i].0)
            ==> is_visible_value(h0[i].1)
}

/// No key occurs twice, where there are pairs at all.
pub open spec fn distinct_keys(p: Option<Pairs>) -> bool {
    match p {
        Some(p) => distinct_names(p),
        None => true,
    }
}

/// The view of optional pairs.
pub open spec fn opt_pairs(v: Option<Vec<(String, String)>>) -> Option<Pairs> {
    match v {
        Some(v) => Some(entry_views(v@)),
        None => None,
    }
}

/// The view of optional headers (none: no entries).
pub open spec fn opt_headers(h: Option<Headers>) -> Pairs {
    match h {
        Some(h) => h@,
        None => Seq::empty(),
    }
}

/// A request ready to be sent.
pub struct SignedRequest {
    pub method: String,
    pub url: String,
    pub headers: Headers,
    pub body: Option<String>,
}

impl View for SignedRequest {
    type V = RequestView;

    open spec fn view(&self) -> RequestView {
        RequestView {
            method: self.method@,
            url: self.url@,
            headers: self.headers@,
            body: match self.body {
                Some(b) => Some(b@),
                None => None,
            },
        }
    }
}

} // verus!
