//! Keyed and plain SHA-1 digests.

use vstd::prelude::*;

verus! {

/// The HMAC-SHA1 authentication code of `data` under `key`.
pub uninterp spec fn hmac_sha1_code(key: Seq<u8>, data: Seq<u8>) -> Seq<u8>;

/// Computes HMAC-SHA1 with the `hmac` and `sha1` crates: `KeyInit::new_from_slice`,
/// which takes a key of any length, then `Mac::update` and `Mac::finalize`.
/// The result is named [`hmac_sha1_code`].
#[verifier::external_body]
pub(crate) fn hmac_sha1(key: &[u8], data: &[u8]) -> (r: Vec<u8>)
    ensures
        r@ == hmac_sha1_code(key@, data@),
{
    let mut mac = <hmac::Hmac<sha1::Sha1> as hmac::KeyInit>::new_from_slice(key)
        .expect("HMAC accepts keys of any length");
    hmac::Mac::update(&mut mac, data);
    hmac::Mac::finalize(mac).into_bytes().to_vec()
}

/// The SHA-1 digest of `data`.
pub uninterp spec fn sha1_code(data: Seq<u8>) -> Seq<u8>;

/// Calls `Digest::digest` of the `sha1` crate. The result is named
/// [`sha1_code`].
#[verifier::external_body]
pub(crate) fn sha1(data: &[u8]) -> (r: Vec<u8>)
    ensures
        r@ == sha1_code(data@),
{
    <sha1::Sha1 as sha1::Digest>::digest(data).to_vec()
}

} // verus!
