//! Client application authentication and the mandatory redirect check.
//! A client is looked up by its opaque binary id (the lookup itself is the
//! persistence collaborator's work); the presented secret is verified
//! against the stored slow hash; and a requested redirect target must match
//! the registered callback in origin (scheme, host, port) and path exactly,
//! before any code is ever minted. Query strings and fragments are not
//! compared.

use vstd::prelude::*;

use crate::bytes::constant_time_equals;
use crate::crypto::{bcrypt_hash_wf, bcrypt_verifies, hash_secret, random_bytes, verify_secret};
use crate::errors::Error;

verus! {

/// Entropy in a fresh binary client id, in bytes.
pub const CLIENT_ID_LENGTH: usize = 64;

/// Entropy in a fresh client secret, in bytes, before hashing.
pub const CLIENT_SECRET_LENGTH: usize = 128;

/// A registered client application, as the persistence collaborator stores
/// it: opaque binary id, slow salted hash of its secret, registered
/// callback, owning user.
pub struct ClientRecord {
    pub client_id: Vec<u8>,
    pub secret_hash: String,
    pub callback_uri: String,
    pub user_id: u64,
}

/// The origin and path of a URL string, as the url crate parses it: whether
/// the origin is a true (scheme, host, port) tuple, its ascii
/// serialization, and the path. None where the string is not an absolute
/// URL. Query and fragment enter no component.
pub uninterp spec fn url_origin_path_of(s: Seq<char>) -> Option<(bool, Seq<u8>, Seq<u8>)>;

/// Relies on url::Url::parse, Url::origin (Origin::is_tuple and its ascii
/// serialization) and Url::path: all deterministic functions of the URL
/// string alone, and the query and fragment parts enter none of them. An
/// opaque origin (any non-special scheme) serializes to the constant
/// "null", which is why the tuple flag is carried beside it.
#[verifier::external_body]
fn url_origin_path(s: &str) -> (r: Option<(bool, Vec<u8>, Vec<u8>)>)
    ensures
        (r is Some) == (url_origin_path_of(s@) is Some),
        r matches Some(p) ==> url_origin_path_of(s@) == Some((p.0, p.1@, p.2@)),
{
    match url::Url::parse(s) {
        Ok(u) => {
            let origin = u.origin();
            Some((
                origin.is_tuple(),
                origin.ascii_serialization().into_bytes(),
                u.path().as_bytes().to_vec(),
            ))
        },
        Err(_) => None,
    }
}

/// What `validate_redirect_origin` returns: `Malformed` where either URL
/// does not parse, `Ok` exactly where both origins are true (scheme, host,
/// port) tuples and origin and path agree, `RedirectMismatch` otherwise. An
/// opaque origin (a non-special scheme) matches nothing, not even itself,
/// as the url crate's own origin comparison has it.
pub open spec fn spec_validate_redirect(callback: Seq<char>, redirect: Seq<char>) -> Result<
    (),
    Error,
> {
    match url_origin_path_of(callback) {
        Option::None => Result::Err(Error::Malformed),
        Option::Some(c) => match url_origin_path_of(redirect) {
            Option::None => Result::Err(Error::Malformed),
            Option::Some(r) => if c.0 && r.0 && c.1 == r.1 && c.2 == r.2 {
                Result::Ok(())
            } else {
                Result::Err(Error::RedirectMismatch)
            },
        },
    }
}

/// The anti-phishing check run before a code is minted: the requested
/// redirect must equal the registered callback in origin (scheme, host,
/// port) and path; query strings and fragments are ignored, and an opaque
/// origin is never accepted.
pub fn validate_redirect_origin(callback_uri: &str, redirect_uri: &str) -> (r: Result<(), Error>)
    ensures
        r == spec_validate_redirect(callback_uri@, redirect_uri@),
{
    let callback = match url_origin_path(callback_uri) {
        None => {
            return Err(Error::Malformed);
        },
        Some(c) => c,
    };
    let redirect = match url_origin_path(redirect_uri) {
        None => {
            return Err(Error::Malformed);
        },
        Some(r) => r,
    };
    if callback.0 && redirect.0 && constant_time_equals(callback.1.as_slice(), redirect.1.as_slice())
        && constant_time_equals(callback.2.as_slice(), redirect.2.as_slice()) {
        Ok(())
    } else {
        Err(Error::RedirectMismatch)
    }
}

/// Draws a fresh client id and client secret from the secure random
/// source, each with the configured entropy; `Entropy` (fatal, never
/// silently degraded) where the source fails.
pub fn create_client_credentials() -> (r: Result<(Vec<u8>, Vec<u8>), Error>)
    ensures
        r matches Ok(p) ==> p.0@.len() == CLIENT_ID_LENGTH && p.1@.len()
            == CLIENT_SECRET_LENGTH,
        r is Err ==> r == Result::Err::<(Vec<u8>, Vec<u8>), Error>(Error::Entropy),
{
    let client_id = match random_bytes(CLIENT_ID_LENGTH) {
        None => {
            return Err(Error::Entropy);
        },
        Some(v) => v,
    };
    let client_secret = match random_bytes(CLIENT_SECRET_LENGTH) {
        None => {
            return Err(Error::Entropy);
        },
        Some(v) => v,
    };
    Ok((client_id, client_secret))
}

/// Derives the stored form of a client secret: a slow salted hash that
/// later verification of the same secret is guaranteed to accept. The cost
/// must lie in bcrypt's valid range, so a failure can only be the salt
/// source's — fatal, as `Entropy` always is.
pub fn protect_secret(secret: &[u8], cost: u32) -> (r: Result<String, Error>)
    requires
        4 <= cost <= 31,
    ensures
        r matches Ok(h) ==> bcrypt_verifies(secret@, h@) && bcrypt_hash_wf(h@),
        r is Err ==> r == Result::Err::<String, Error>(Error::Entropy),
{
    match hash_secret(secret, cost) {
        None => Err(Error::Entropy),
        Some(h) => Ok(h),
    }
}

/// The access decision once the stored credential has been checked: the
/// record on a match, `InvalidCredentials` otherwise.
pub fn grant_on_verification(record: ClientRecord, matched: bool) -> (r: Result<
    ClientRecord,
    Error,
>)
    ensures
        matched ==> r == Result::Ok::<ClientRecord, Error>(record),
        !matched ==> r == Result::Err::<ClientRecord, Error>(Error::InvalidCredentials),
{
    if matched {
        Ok(record)
    } else {
        Err(Error::InvalidCredentials)
    }
}

/// Authenticates a client: `NotFound` where the lookup produced nothing,
/// the record exactly where bcrypt accepts the presented secret against a
/// usable stored hash, and `InvalidCredentials` otherwise — also where the
/// stored hash is unusable, so both denial outcomes look alike to the
/// caller. The missing-record path runs a verification against a fixed
/// hash, so neither denial is recognisable by the slow hash's absence.
pub fn authenticate_client(record: Option<ClientRecord>, presented_secret: &[u8]) -> (r: Result<
    ClientRecord,
    Error,
>)
    ensures
        record is None ==> r == Result::Err::<ClientRecord, Error>(Error::NotFound),
        r matches Ok(c) ==> record == Option::Some(c) && bcrypt_verifies(
            presented_secret@,
            c.secret_hash@,
        ),
        record matches Some(c) ==> r == Result::Ok::<ClientRecord, Error>(c) || r
            == Result::Err::<ClientRecord, Error>(Error::InvalidCredentials),
        (match record {
            Option::Some(c) => bcrypt_hash_wf(c.secret_hash@) ==> r == (if bcrypt_verifies(
                presented_secret@,
                c.secret_hash@,
            ) {
                Result::Ok::<ClientRecord, Error>(c)
            } else {
                Result::Err::<ClientRecord, Error>(Error::InvalidCredentials)
            }),
            Option::None => true,
        }),
{
    match record {
        None => {
            // Burn the same slow verification as the mismatch path, so a
            // missing client is not distinguishable from a wrong secret by
            // response timing.
            let _ = verify_secret(
                presented_secret,
                "$2y$12$L6Bc/AlTQHyd9liGgGEZyOFLPHNgyxeEPfgYfBCVxJ7JIlwxyVU3u",
            );
            Err(Error::NotFound)
        },
        Some(c) => {
            match verify_secret(presented_secret, c.secret_hash.as_str()) {
                None => Err(Error::InvalidCredentials),
                Some(matched) => grant_on_verification(c, matched),
            }
        },
    }
}

} // verus!
