//! The remaining caller-facing request shapes, and the verified planning of
//! the application search: deciding which lookup a search request asks for,
//! with its identifiers decoded from transport form.

use vstd::prelude::*;

use crate::errors::Error;
use crate::hexcodec::{hex_decode_bytes, hex_decode_ok, hex_decode_spec};

verus! {

pub struct CreateApplicationParams {
    pub name: String,
    pub website_uri: String,
    pub callback_uri: String,
}

pub struct CreateScopeParams {
    pub name: String,
    pub description: String,
}

/// The query shape of an application search: by client id, or by the pair
/// of open id and access token.
pub struct SelectAppParams {
    pub client_id: Option<String>,
    pub open_id: Option<String>,
    pub access_token: Option<String>,
}

/// A profile to create. The birthday crosses the boundary as seconds since
/// the Unix epoch; the caller converts from its calendar representation.
pub struct CreateProfileParams {
    pub name: String,
    pub gender_id: i32,
    pub birthday: i64,
    pub introduction: String,
}

/// Decodes a client id from its hexadecimal transport form into the raw
/// bytes the persistence collaborator is keyed by; `Malformed` where the
/// input is not hexadecimal.
pub fn parse_client_id(client_id_hex: &[u8]) -> (r: Result<Vec<u8>, Error>)
    ensures
        hex_decode_ok(client_id_hex@) ==> (r matches Ok(v) && v@ == hex_decode_spec(
            client_id_hex@,
        )),
        !hex_decode_ok(client_id_hex@) ==> r == Result::Err::<Vec<u8>, Error>(Error::Malformed),
{
    match hex_decode_bytes(client_id_hex) {
        None => Err(Error::Malformed),
        Some(v) => Ok(v),
    }
}

/// The sixteen bytes of a textual UUID: a deterministic function of the
/// string; None where the string is not a UUID.
pub uninterp spec fn uuid_bytes_of(s: Seq<char>) -> Option<Seq<u8>>;

/// Relies on uuid::Uuid::parse_str and Uuid::as_bytes: parsing is
/// deterministic in the string, and the bytes are the UUID itself.
#[verifier::external_body]
fn parse_uuid(s: &str) -> (r: Option<Vec<u8>>)
    ensures
        (r is Some) == (uuid_bytes_of(s@) is Some),
        r matches Some(v) ==> uuid_bytes_of(s@) == Some(v@),
{
    match uuid::Uuid::parse_str(s) {
        Ok(u) => Some(u.as_bytes().to_vec()),
        Err(_) => None,
    }
}

/// Which lookup an application search resolves to, identifiers in raw form.
pub enum SearchPlan {
    /// Look the one application up by its binary client id.
    ByClientId(Vec<u8>),
    /// Look applications up by the open id's UUID bytes and the binary
    /// access token.
    ByOpenIdToken(Vec<u8>, Vec<u8>),
}

/// Decides what an application search asks for: a present client id wins
/// and must be hexadecimal; otherwise both the open id (a UUID, rejected
/// with `Params` when it is not) and the access token (hexadecimal) must be
/// present, else the request is `Params`.
pub fn plan_search(client_id: Option<&[u8]>, open_id: Option<&str>, access_token: Option<&[u8]>) -> (r:
    Result<SearchPlan, Error>)
    ensures
        client_id matches Some(cid) ==> (if hex_decode_ok(cid@) {
            r matches Ok(p) && p matches SearchPlan::ByClientId(b) && b@ == hex_decode_spec(cid@)
        } else {
            r == Result::Err::<SearchPlan, Error>(Error::Malformed)
        }),
        client_id is None ==> (match (open_id, access_token) {
            (Option::Some(oid), Option::Some(tok)) => (if uuid_bytes_of(oid@) is None {
                r == Result::Err::<SearchPlan, Error>(Error::Params)
            } else if !hex_decode_ok(tok@) {
                r == Result::Err::<SearchPlan, Error>(Error::Malformed)
            } else {
                r matches Ok(p) && p matches SearchPlan::ByOpenIdToken(u, t) && Option::Some(u@)
                    == uuid_bytes_of(oid@) && t@ == hex_decode_spec(tok@)
            }),
            _ => r == Result::Err::<SearchPlan, Error>(Error::Params),
        }),
{
    match client_id {
        Some(cid) => {
            match hex_decode_bytes(cid) {
                None => Err(Error::Malformed),
                Some(b) => Ok(SearchPlan::ByClientId(b)),
            }
        },
        None => {
            match (open_id, access_token) {
                (Some(oid), Some(tok)) => {
                    let u = match parse_uuid(oid) {
                        None => {
                            return Err(Error::Params);
                        },
                        Some(u) => u,
                    };
                    match hex_decode_bytes(tok) {
                        None => Err(Error::Malformed),
                        Some(t) => Ok(SearchPlan::ByOpenIdToken(u, t)),
                    }
                },
                _ => Err(Error::Params),
            }
        },
    }
}

} // verus!
