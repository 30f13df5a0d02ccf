//! SHA-256 and HMAC-SHA256 digests, written as lower-case hex.

use hmac::{Hmac, Mac};
use sha2::{Digest, Sha256};
use vstd::prelude::*;

use crate::encoding::{hex_encode, hex_lower, is_hex64, lemma_hex_lower_digits, lemma_hex_lower_len};

verus! {

/// The SHA-256 digest of `data`.
pub uninterp spec fn spec_sha256(data: Seq<u8>) -> Seq<u8>;

/// The HMAC-SHA256 tag of `msg` under `key`.
pub uninterp spec fn spec_hmac_sha256(key: Seq<u8>, msg: Seq<u8>) -> Seq<u8>;

/// `Sha256::digest` (sha2): the 32-byte SHA-256 digest of `data`.
#[verifier::external_body]
fn sha256_digest(data: &[u8]) -> (res: Vec<u8>)
    ensures
        res@ == spec_sha256(data@),
        res@.len() == 32,
{
    Sha256::digest(data).to_vec()
}

/// `Hmac::<Sha256>` (hmac): the 32-byte tag of `msg` under `key`. A key of
/// any length is accepted by `new_from_slice`, so its `unwrap` is never taken.
#[verifier::external_body]
fn hmac_sha256_tag(key: &[u8], msg: &[u8]) -> (res: Vec<u8>)
    ensures
        res@ == spec_hmac_sha256(key@, msg@),
        res@.len() == 32,
{
    let mut mac = <Hmac<Sha256> as Mac>::new_from_slice(key).unwrap();
    mac.update(msg);
    mac.finalize().into_bytes().to_vec()
}

/// SHA-256 of `data`, as lower-case hex.
pub fn sha256(data: &[u8]) -> (res: String)
    ensures
        res@ == hex_lower(spec_sha256(data@)),
        is_hex64(res@),
{
    let digest = sha256_digest(data);
    proof {
        lemma_hex_lower_len(digest@);
        lemma_hex_lower_digits(digest@);
    }
    hex_encode(digest.as_slice())
}

/// HMAC-SHA256 of `msg_data` under `key_data`, as lower-case hex.
pub fn hmac_sha256(key_data: &[u8], msg_data: &[u8]) -> (res: String)
    ensures
        res@ == hex_lower(spec_hmac_sha256(key_data@, msg_data@)),
        is_hex64(res@),
{
    let tag = hmac_sha256_tag(key_data, msg_data);
    proof {
        lemma_hex_lower_len(tag@);
        lemma_hex_lower_digits(tag@);
    }
    hex_encode(tag.as_slice())
}

} // verus!
