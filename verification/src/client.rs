//! The STS client's credentials and the signing of its requests.

use vstd::prelude::*;

use crate::crypto::{hmac_sha256, sha256, spec_hmac_sha256, spec_sha256};
use crate::encoding::{hex_digit_lower, hex_lower, is_hex64};
use crate::headers::{
    entry_views, header_insert, headers_wf, is_header_name, is_header_value, is_name_char, is_value_char,
    is_visible_char, is_visible_value, Headers,
};
use crate::signing::{
    authorization, base_headers, caller_headers_readable, canonical_headers, canonical_headers_of,
    canonical_request, final_headers, form_string_of, keep_signed, keep_signed_of,
    distinct_keys, lemma_keep_signed_entries, opt_headers, opt_pairs, payload_string,
    request_signature, request_url, sha256_hex, signature, signed_entries, signed_header_names, signed_request,
    string_to_sign, Pairs, SignedRequest,
};
use vstd::utf8::encode_utf8;
use crate::clock::{
    is_clock_date, is_clock_nonce, is_reading_of, is_request_date, iso_8601_of_timestamp,
    lemma_clock_nonce_visible, lemma_request_date_visible, signature_nonce_of, unix_time,
};
use crate::sort::{lemma_sort_same_entries, sort_by_key, sort_entries};
use crate::text::{
    ascii_lowercase, copy_string, decimal, decimal_u64, digit, join, push_str,
};

verus! {

// ---------------------------------------------------------------------------
// Which strings make valid header values
// ---------------------------------------------------------------------------

proof fn lemma_visible_is_value(s: Seq<char>)
    requires
        is_visible_value(s),
    ensures
        is_header_value(s),
{
    assert forall|i: int| 0 <= i < s.len() implies is_value_char(#[trigger] s[i]) by {
        assert(is_visible_char(s[i]));
    }
}

proof fn lemma_name_is_value(s: Seq<char>)
    requires
        is_header_name(s),
    ensures
        is_header_value(s),
{
    assert forall|i: int| 0 <= i < s.len() implies is_value_char(#[trigger] s[i]) by {
        assert(is_name_char(s[i]));
    }
}

proof fn lemma_concat_value(a: Seq<char>, b: Seq<char>)
    requires
        is_header_value(a),
        is_header_value(b),
    ensures
        is_header_value(a + b),
{
    assert forall|i: int| 0 <= i < (a + b).len() implies is_value_char(#[trigger] (a + b)[i]) by {
        if i < a.len() {
            assert((a + b)[i] == a[i]);
        } else {
            assert((a + b)[i] == b[i - a.len()]);
        }
    }
}

proof fn lemma_concat_visible(a: Seq<char>, b: Seq<char>)
    requires
        is_visible_value(a),
        is_visible_value(b),
    ensures
        is_visible_value(a + b),
{
    assert forall|i: int| 0 <= i < (a + b).len() implies is_visible_char(#[trigger] (a + b)[i]) by {
        if i < a.len() {
            assert((a + b)[i] == a[i]);
        } else {
            assert((a + b)[i] == b[i - a.len()]);
        }
    }
}

proof fn lemma_hex_visible(b: Seq<u8>)
    ensures
        is_visible_value(hex_lower(b)),
    decreases b.len(),
{
    if b.len() > 0 {
        lemma_hex_visible(b.drop_first());
        let d = seq![hex_digit_lower(b[0] as nat / 16), hex_digit_lower(b[0] as nat % 16)];
        assert(is_visible_value(d));
        lemma_concat_visible(d, hex_lower(b.drop_first()));
    }
}

pub(crate) proof fn lemma_decimal_visible(n: nat)
    ensures
        is_visible_value(decimal(n)),
    decreases n,
{
    if n >= 10 {
        lemma_decimal_visible(n / 10);
        lemma_concat_visible(decimal(n / 10), seq![digit(n % 10)]);
        assert(decimal(n) =~= decimal(n / 10) + seq![digit(n % 10)]);
    }
}

proof fn lemma_join_value(list: Seq<Seq<char>>, sep: Seq<char>)
    requires
        is_header_value(sep),
        forall|i: int| 0 <= i < list.len() ==> is_header_value(#[trigger] list[i]),
    ensures
        is_header_value(join(list, sep)),
    decreases list.len(),
{
    if list.len() > 1 {
        lemma_join_value(list.drop_last(), sep);
        lemma_concat_value(join(list.drop_last(), sep), sep);
        lemma_concat_value(join(list.drop_last(), sep) + sep, list.last());
    } else if list.len() == 1 {
        assert(is_header_value(list[0]));
    } else {
        assert(is_header_value(Seq::<char>::empty()));
    }
}

/// Every signed entry of well-formed headers has a valid name.
proof fn lemma_signed_names_valid(h: Pairs)
    requires
        headers_wf(h),
    ensures
        forall|i: int|
            0 <= i < sort_by_key(keep_signed(h)).len() ==> is_header_name(
                #[trigger] sort_by_key(keep_signed(h))[i].0,
            ),
{
    assert forall|i: int| 0 <= i < sort_by_key(keep_signed(h)).len() implies is_header_name(
        #[trigger] sort_by_key(keep_signed(h))[i].0,
    ) by {
        let e = sort_by_key(keep_signed(h))[i];
        assert(sort_by_key(keep_signed(h)).contains(e));
        lemma_sort_same_entries(keep_signed(h), e);
        lemma_keep_signed_entries(h, e);
        let m = choose|m: int| 0 <= m < h.len() && h[m] == e;
        assert(is_header_name(h[m].0));
    }
}

// ---------------------------------------------------------------------------
// Steps of the signing
// ---------------------------------------------------------------------------

fn with_fixed_headers(h0: Headers, endpoint: &str, dt_string: &str, nonce: &str) -> (res: Headers)
    requires
        is_visible_value(endpoint@),
        is_visible_value(dt_string@),
        is_visible_value(nonce@),
    ensures
        res@ == base_headers(h0@, endpoint@, dt_string@, nonce@),
{
    proof {
        reveal_strlit("x-sdk-version");
        reveal_strlit("rust/0.1.0");
        reveal_strlit("x-acs-version");
        reveal_strlit("2015-04-01");
        reveal_strlit("x-acs-signature-nonce");
        reveal_strlit("x-acs-date");
        reveal_strlit("host");
        reveal_strlit("Accept");
        reveal_strlit("accept");
        reveal_strlit("application/json");
        lemma_visible_is_value(endpoint@);
        lemma_visible_is_value(dt_string@);
        lemma_visible_is_value(nonce@);
    }
    let mut h = h0;
    assert(ascii_lowercase("x-sdk-version"@) =~= "x-sdk-version"@);
    h.insert("x-sdk-version", "rust/0.1.0");
    assert(ascii_lowercase("x-acs-version"@) =~= "x-acs-version"@);
    h.insert("x-acs-version", "2015-04-01");
    assert(ascii_lowercase("x-acs-signature-nonce"@) =~= "x-acs-signature-nonce"@);
    h.insert("x-acs-signature-nonce", nonce);
    assert(ascii_lowercase("x-acs-date"@) =~= "x-acs-date"@);
    h.insert("x-acs-date", dt_string);
    assert(ascii_lowercase("host"@) =~= "host"@);
    h.insert("host", endpoint);
    assert(ascii_lowercase("Accept"@) =~= "accept"@);
    h.insert("Accept", "application/json");
    h
}

fn with_content_hash(h0: Headers, hash: &str) -> (res: Headers)
    requires
        is_visible_value(hash@),
    ensures
        res@ == header_insert(h0@, "x-acs-content-sha256"@, hash@),
{
    proof {
        reveal_strlit("x-acs-content-sha256");
        lemma_visible_is_value(hash@);
    }
    let mut h = h0;
    assert(ascii_lowercase("x-acs-content-sha256"@) =~= "x-acs-content-sha256"@);
    h.insert("x-acs-content-sha256", hash);
    h
}

/// The canonical header lines and the signed header names of `h`.
fn canonical_parts(h: &Headers) -> (res: (String, String))
    ensures
        res.0@ == canonical_headers(signed_entries(h@)),
        res.1@ == signed_header_names(signed_entries(h@)),
        is_header_value(res.1@),
{
    let entries = h.entries();
    let kept = keep_signed_of(&entries);
    let canonical = sort_entries(&kept);
    let parts = canonical_headers_of(&canonical);
    proof {
        use_type_invariant(h);
        lemma_signed_names_valid(h@);
        let names = entry_views(canonical@).map_values(|e: (Seq<char>, Seq<char>)| e.0);
        assert forall|i: int| 0 <= i < names.len() implies is_header_value(#[trigger] names[i]) by {
            lemma_name_is_value(entry_views(canonical@)[i].0);
        }
        reveal_strlit(";");
        assert(is_header_value(";"@));
        lemma_join_value(names, ";"@);
    }
    parts
}

fn canonical_request_of(
    method: &str,
    uri: &str,
    query: &str,
    header_lines: &str,
    names: &str,
    content_hash: &str,
) -> (res: String)
    ensures
        res@ == canonical_request(method@, uri@, query@, header_lines@, names@, content_hash@),
{
    let mut cr = copy_string(method);
    push_str(&mut cr, "\n");
    push_str(&mut cr, uri);
    push_str(&mut cr, "\n");
    push_str(&mut cr, query);
    push_str(&mut cr, "\n");
    push_str(&mut cr, header_lines);
    push_str(&mut cr, "\n\n");
    push_str(&mut cr, names);
    push_str(&mut cr, "\n");
    push_str(&mut cr, content_hash);
    cr
}

/// The signature of a canonical request under `secret`.
fn sign_canonical(secret: &str, canonical: &str) -> (res: String)
    ensures
        res@ == signature(secret@, string_to_sign(canonical@)),
        is_visible_value(res@),
        is_hex64(res@),
{
    let hash = sha256(canonical.as_bytes());
    let mut to_sign = copy_string("ACS3-HMAC-SHA256\n");
    push_str(&mut to_sign, hash.as_str());
    let sig = hmac_sha256(secret.as_bytes(), to_sign.as_str().as_bytes());
    proof {
        lemma_hex_visible(spec_hmac_sha256(encode_utf8(secret@), encode_utf8(to_sign@)));
    }
    sig
}

fn authorization_of(key_id: &str, names: &str, sig: &str) -> (res: String)
    requires
        is_header_value(key_id@),
        is_header_value(names@),
        is_visible_value(sig@),
    ensures
        res@ == authorization(key_id@, names@, sig@),
        is_header_value(res@),
{
    let mut auth = copy_string("ACS3-HMAC-SHA256 Credential=");
    push_str(&mut auth, key_id);
    push_str(&mut auth, ",SignedHeaders=");
    push_str(&mut auth, names);
    push_str(&mut auth, ",Signature=");
    push_str(&mut auth, sig);
    proof {
        reveal_strlit("ACS3-HMAC-SHA256 Credential=");
        reveal_strlit(",SignedHeaders=");
        reveal_strlit(",Signature=");
        lemma_visible_is_value(sig@);
        let a0 = "ACS3-HMAC-SHA256 Credential="@;
        let a1 = a0 + key_id@;
        let a2 = a1 + ",SignedHeaders="@;
        let a3 = a2 + names@;
        let a4 = a3 + ",Signature="@;
        assert(is_header_value(a0));
        assert(is_header_value(",SignedHeaders="@));
        assert(is_header_value(",Signature="@));
        lemma_concat_value(a0, key_id@);
        lemma_concat_value(a1, ",SignedHeaders="@);
        lemma_concat_value(a2, names@);
        lemma_concat_value(a3, ",Signature="@);
        lemma_concat_value(a4, sig@);
        assert(auth@ =~= a4 + sig@);
    }
    auth
}

fn with_final_headers(h0: Headers, auth: &str, body: &str) -> (res: Headers)
    requires
        is_header_value(auth@),
    ensures
        res@ == final_headers(h0@, auth@, body@),
{
    proof {
        reveal_strlit("Authorization");
        reveal_strlit("authorization");
        reveal_strlit("Content-Length");
        reveal_strlit("content-length");
        reveal_strlit("Content-Type");
        reveal_strlit("content-type");
        reveal_strlit("application/x-www-form-urlencoded");
    }
    let mut h = h0;
    assert(ascii_lowercase("Authorization"@) =~= "authorization"@);
    h.insert("Authorization", auth);
    if !body.is_empty() {
        let len = body.as_bytes().len();
        let len_string = decimal_u64(len as u64);
        proof {
            lemma_decimal_visible(len as nat);
            lemma_visible_is_value(len_string@);
        }
        assert(ascii_lowercase("Content-Length"@) =~= "content-length"@);
        h.insert("Content-Length", len_string.as_str());
    }
    assert(ascii_lowercase("Content-Type"@) =~= "content-type"@);
    h.insert("Content-Type", "application/x-www-form-urlencoded");
    h
}

fn url_of(endpoint: &str, uri: &str, query: &str) -> (res: String)
    ensures
        res@ == request_url(endpoint@, uri@, query@),
{
    let mut url = copy_string("https://");
    push_str(&mut url, endpoint);
    push_str(&mut url, uri);
    if !query.is_empty() {
        push_str(&mut url, "?");
        push_str(&mut url, query);
    }
    url
}

// ---------------------------------------------------------------------------
// The client
// ---------------------------------------------------------------------------

/// Credentials and endpoint for calls to the STS service.
pub struct StsClient {
    endpoint: String,
    access_key_id: String,
    access_key_secret: String,
}

impl StsClient {
    /// The service endpoint (host name).
    pub closed spec fn endpoint_view(&self) -> Seq<char> {
        self.endpoint@
    }

    /// The access key ID.
    pub closed spec fn key_id_view(&self) -> Seq<char> {
        self.access_key_id@
    }

    /// The access key secret.
    pub closed spec fn secret_view(&self) -> Seq<char> {
        self.access_key_secret@
    }

    /// A client for `endpoint` with the given access key.
    pub fn new(endpoint: &str, access_key_id: &str, access_key_secret: &str) -> (res: Self)
        ensures
            res.endpoint_view() == endpoint@,
            res.key_id_view() == access_key_id@,
            res.secret_view() == access_key_secret@,
    {
        StsClient {
            endpoint: copy_string(endpoint),
            access_key_id: copy_string(access_key_id),
            access_key_secret: copy_string(access_key_secret),
        }
    }

    /// The service endpoint (host name).
    pub fn endpoint(&self) -> (res: String)
        ensures
            res@ == self.endpoint_view(),
    {
        copy_string(self.endpoint.as_str())
    }

    /// The access key ID.
    pub fn access_key_id(&self) -> (res: String)
        ensures
            res@ == self.key_id_view(),
    {
        copy_string(self.access_key_id.as_str())
    }

    /// Signs a request with the date `dt_string` and the nonce `nonce`.
    ///
    /// The request carries the caller's `headers` and the fixed ones, a
    /// canonical query sorted by key and, when the form body is not empty,
    /// that body; its `Authorization` header holds the HMAC-SHA256 signature
    /// of the canonical request under the access key secret.
    pub fn sign_request(
        &self,
        method: &str,
        uri: &str,
        headers: Option<Headers>,
        query: Option<Vec<(String, String)>>,
        payload: Option<Vec<(String, String)>>,
        dt_string: &str,
        nonce: &str,
    ) -> (res: SignedRequest)
        requires
            is_visible_value(self.endpoint_view()),
            is_header_value(self.key_id_view()),
            is_visible_value(dt_string@),
            is_visible_value(nonce@),
            caller_headers_readable(opt_headers(headers)),
            distinct_keys(opt_pairs(query)),
            distinct_keys(opt_pairs(payload)),
        ensures
            is_hex64(sha256_hex(payload_string(opt_pairs(payload)))),
            is_hex64(
                request_signature(
                    self.endpoint_view(),
                    self.key_id_view(),
                    self.secret_view(),
                    method@,
                    uri@,
                    opt_headers(headers),
                    opt_pairs(query),
                    opt_pairs(payload),
                    dt_string@,
                    nonce@,
                ),
            ),
            res@ == signed_request(
                self.endpoint_view(),
                self.key_id_view(),
                self.secret_view(),
                method@,
                uri@,
                opt_headers(headers),
                opt_pairs(query),
                opt_pairs(payload),
                dt_string@,
                nonce@,
            ),
    {
        let h0 = match headers {
            Some(h) => h,
            None => Headers::new(),
        };
        let h = with_fixed_headers(h0, self.endpoint.as_str(), dt_string, nonce);
        let canonical_query = match &query {
            Some(q) => {
                let sorted = sort_entries(q);
                form_string_of(&sorted)
            },
            None => String::new(),
        };
        let payload_string = match &payload {
            Some(p) => form_string_of(p),
            None => String::new(),
        };
        let payload_hash_string = sha256(payload_string.as_str().as_bytes());
        proof {
            lemma_hex_visible(spec_sha256(encode_utf8(payload_string@)));
        }
        let h = with_content_hash(h, payload_hash_string.as_str());
        let (canonical_header_string, canonical_header_name_string) = canonical_parts(&h);
        let canonical_request = canonical_request_of(
            method,
            uri,
            canonical_query.as_str(),
            canonical_header_string.as_str(),
            canonical_header_name_string.as_str(),
            payload_hash_string.as_str(),
        );
        let sig = sign_canonical(self.access_key_secret.as_str(), canonical_request.as_str());
        let auth_header = authorization_of(
            self.access_key_id.as_str(),
            canonical_header_name_string.as_str(),
            sig.as_str(),
        );
        let h = with_final_headers(h, auth_header.as_str(), payload_string.as_str());
        let full_url = url_of(self.endpoint.as_str(), uri, canonical_query.as_str());
        let body = if payload_string.as_str().is_empty() {
            None
        } else {
            Some(payload_string)
        };
        SignedRequest { method: copy_string(method), url: full_url, headers: h, body }
    }

    /// Signs a request with the current time: the clock is read once, the
    /// date is the UTC time of that reading as `yyyy-MM-ddTHH:mm:ssZ` and the
    /// nonce its milliseconds since the Unix epoch, in decimal. `None` when
    /// the system clock reads a time before the Unix epoch or past what a
    /// date can be written for.
    pub fn prepare_request(
        &self,
        method: &str,
        uri: &str,
        headers: Option<Headers>,
        query: Option<Vec<(String, String)>>,
        payload: Option<Vec<(String, String)>>,
    ) -> (res: Option<SignedRequest>)
        requires
            is_visible_value(self.endpoint_view()),
            is_header_value(self.key_id_view()),
            caller_headers_readable(opt_headers(headers)),
            distinct_keys(opt_pairs(query)),
            distinct_keys(opt_pairs(payload)),
        ensures
            res is Some ==> is_hex64(sha256_hex(payload_string(opt_pairs(payload)))),
            res matches Some(r) ==> exists|dt: Seq<char>, nonce: Seq<char>|
                #![trigger is_clock_date(dt), is_clock_nonce(nonce)]
                {
                    &&& is_request_date(dt)
                    &&& is_clock_date(dt)
                    &&& is_clock_nonce(nonce)
                    &&& is_reading_of(dt, nonce)
                    &&& r@ == signed_request(
                        self.endpoint_view(),
                        self.key_id_view(),
                        self.secret_view(),
                        method@,
                        uri@,
                        opt_headers(headers),
                        opt_pairs(query),
                        opt_pairs(payload),
                        dt,
                        nonce,
                    )
                    &&& is_hex64(
                        request_signature(
                            self.endpoint_view(),
                            self.key_id_view(),
                            self.secret_view(),
                            method@,
                            uri@,
                            opt_headers(headers),
                            opt_pairs(query),
                            opt_pairs(payload),
                            dt,
                            nonce,
                        ),
                    )
                },
    {
        let (secs, nanos) = match unix_time() {
            Some(t) => t,
            None => return None,
        };
        let dt_string = match iso_8601_of_timestamp(secs, nanos) {
            Some(d) => d,
            None => return None,
        };
        let nonce = match signature_nonce_of(secs, nanos) {
            Some(n) => n,
            None => return None,
        };
        proof {
            assert(is_clock_date(dt_string@));
            assert(is_clock_nonce(nonce@));
            assert(is_reading_of(dt_string@, nonce@));
            lemma_request_date_visible(dt_string@);
            lemma_clock_nonce_visible(nonce@);
        }
        let r = self.sign_request(
            method,
            uri,
            headers,
            query,
            payload,
            dt_string.as_str(),
            nonce.as_str(),
        );
        proof {
            assert(is_clock_date(dt_string@) && is_clock_nonce(nonce@) && is_reading_of(
                dt_string@,
                nonce@,
            ));
        }
        Some(r)
    }
}

} // verus!
