//! The two digests both signing schemes rely on: SHA-1 and HMAC-SHA1.
//!
//! A digest's value takes pages to state, so each is given a name instead:
//! an uninterpreted function of the input bytes alone. Everything the crate
//! proves about signatures is relative to these names.
use hmac::Mac;
use sha1::Digest;
use vstd::prelude::*;

verus! {

pub uninterp spec fn sha1_of(data: Seq<u8>) -> Seq<u8>;

/// Relies on sha1::Sha1 through the Digest interface: the 20-byte SHA-1
/// digest, a function of the input bytes alone.
#[verifier::external_body]
pub(crate) fn sha1_digest(data: &[u8]) -> (r: Vec<u8>)
    ensures
        r@ == sha1_of(data@),
        r@.len() == 20,
{
    let mut hasher = sha1::Sha1::new();
    hasher.update(data);
    hasher.finalize().to_vec()
}

pub uninterp spec fn hmac_sha1_of(key: Seq<u8>, msg: Seq<u8>) -> Seq<u8>;

/// Relies on hmac::Hmac<sha1::Sha1> through the Mac interface: the 20-byte
/// HMAC-SHA1 tag, a function of key and message alone. Its `new_from_slice`
/// accepts a key of any length (its source returns Ok on every path), so
/// key construction cannot fail.
#[verifier::external_body]
pub(crate) fn hmac_sha1(key: &[u8], msg: &[u8]) -> (r: Vec<u8>)
    ensures
        r@ == hmac_sha1_of(key@, msg@),
        r@.len() == 20,
{
    let mut mac = <hmac::Hmac<sha1::Sha1>>::new_from_slice(key).unwrap();
    mac.update(msg);
    mac.finalize().into_bytes().to_vec()
}

} // verus!
