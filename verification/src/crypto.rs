//! Trusted bindings to the cryptographic primitives the core relies on:
//! the keyed tag under which claims tokens are signed, the secure random
//! source behind identifiers and codes, and the slow salted hash that
//! protects stored client secrets. Constant-time comparison of secret
//! material is verified code and lives in `bytes`.

use vstd::prelude::*;

verus! {

/// The HMAC-SHA-256 tag of a message under a key: a pure function of the
/// two arguments alone.
pub uninterp spec fn mac_of(key: Seq<u8>, msg: Seq<u8>) -> Seq<u8>;

/// Relies on hmac::Hmac<sha2::Sha256> (hmac::Mac::new_from_slice, update,
/// finalize): the tag is deterministic in key and message, is 32 bytes
/// long, and new_from_slice accepts a key of any length, so the unwrap
/// cannot fail.
#[verifier::external_body]
pub(crate) fn hmac_sha256(key: &[u8], msg: &[u8]) -> (r: Vec<u8>)
    ensures
        r@ == mac_of(key@, msg@),
        r@.len() == 32,
{
    let mut mac = <hmac::Hmac<sha2::Sha256> as hmac::Mac>::new_from_slice(key).unwrap();
    hmac::Mac::update(&mut mac, msg);
    hmac::Mac::finalize(mac).into_bytes().to_vec()
}

/// Relies on getrandom::getrandom: fills a buffer of the requested length
/// from the operating system's cryptographically secure source, or reports
/// that the source is unavailable. Nothing is stated of the drawn bytes.
#[verifier::external_body]
pub(crate) fn random_bytes(n: usize) -> (r: Option<Vec<u8>>)
    ensures
        r matches Some(v) ==> v@.len() == n,
{
    let mut buf = vec![0u8; n];
    match getrandom::getrandom(&mut buf) {
        Ok(()) => Some(buf),
        Err(_) => None,
    }
}

/// Whether bcrypt accepts `plain` against the encoded hash `hash`: a pure
/// function of the two arguments alone.
pub uninterp spec fn bcrypt_verifies(plain: Seq<u8>, hash: Seq<char>) -> bool;

/// Whether bcrypt can use `hash` as a stored credential at all (the 60-byte
/// encoding parses and carries a valid cost): a pure function of the hash
/// string alone — verification never fails on the secret itself.
pub uninterp spec fn bcrypt_hash_wf(hash: Seq<char>) -> bool;

/// Relies on bcrypt::hash: a freshly salted slow hash of the secret, always
/// in the well-formed 60-byte encoding, which bcrypt::verify accepts the
/// secret against. The salt is drawn at random, so nothing else is stated
/// of the returned encoding; None reports an invalid cost or a
/// salt-generation failure.
#[verifier::external_body]
pub(crate) fn hash_secret(plain: &[u8], cost: u32) -> (r: Option<String>)
    ensures
        r matches Some(h) ==> bcrypt_verifies(plain@, h@) && bcrypt_hash_wf(h@),
{
    bcrypt::hash(plain, cost).ok()
}

/// Relies on bcrypt::verify: deterministic in the secret and the stored
/// encoded hash, running its comparison in constant time. It fails exactly
/// on a stored hash bcrypt cannot use (unparseable, or an out-of-range cost
/// embedded in it), never on the secret.
#[verifier::external_body]
pub(crate) fn verify_secret(plain: &[u8], hash: &str) -> (r: Option<bool>)
    ensures
        (r is Some) == bcrypt_hash_wf(hash@),
        r matches Some(b) ==> b == bcrypt_verifies(plain@, hash@),
{
    bcrypt::verify(plain, hash).ok()
}

} // verus!
