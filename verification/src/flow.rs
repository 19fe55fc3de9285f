//! The authorization-code grant, orchestrated: decode and check the bearer
//! claims, check the subject, authenticate the client, validate the
//! redirect, then mint a single-use code bound to the pending
//! authorization. The persistence steps (client lookup, creating the
//! pending-authorization row) belong to outside collaborators; their
//! results come in as plain values and every decision on them is made here.

use vstd::prelude::*;

use crate::claims::{spec_decode, Claims};
use crate::client::{spec_validate_redirect, validate_redirect_origin, ClientRecord};
use crate::errors::Error;
use crate::hexcodec::{
    hex_decode_bytes, hex_decode_ok, hex_decode_spec, hex_encode_bytes, lemma_hex_len,
    lemma_hex_round_trip,
};
use crate::permissions::{spec_contains, ActionType, PermissionMatrix, ResourceType};
use crate::store::{
    find_code, redeem_result, remove_code, CodeEntry, CodeStore, CODE_LENGTH, CODE_TTL_SECONDS,
};

verus! {

/// What a caller presents to request an authorization code. The client id
/// and the redirect target are checked; `state` is an opaque anti-CSRF
/// value owned by the client application, echoed verbatim and never
/// interpreted; `response_type` and `scope` are recorded, not interpreted
/// here.
pub struct CreateAuthorizationParams {
    pub client_id: String,
    pub scope: String,
    pub redirect_uri: String,
    pub response_type: String,
    pub state: String,
}

/// The terminal success of the grant's first step: the freshly minted
/// code in hexadecimal transport form, and the caller's state, unchanged.
pub struct Credientials {
    pub code: Vec<u8>,
    pub state: String,
}

/// The query shape of an authorization preview: which client, which scope.
pub struct SelectAuthorizationParams {
    pub client_id: String,
    pub scope: String,
}

/// What guarding a bearer-authenticated request yields: the claims error
/// where the token is rejected, `Privilege` where the token is valid but
/// speaks for another user, the claims otherwise.
pub open spec fn spec_authorize_bearer(
    secret: Seq<u8>,
    token: Seq<u8>,
    now: u64,
    path_user_id: u64,
) -> Result<Claims, Error> {
    match spec_decode(secret, token, now) {
        Result::Err(e) => Result::Err(e),
        Result::Ok(c) => if c.uid == path_user_id {
            Result::Ok(c)
        } else {
            Result::Err(Error::Privilege)
        },
    }
}

/// Decodes the bearer token and requires its subject to be the addressed
/// user: the validation every per-user endpoint runs before touching state.
pub fn authorize_bearer(secret: &[u8], token: &[u8], now: u64, path_user_id: u64) -> (r: Result<
    Claims,
    Error,
>)
    ensures
        r == spec_authorize_bearer(secret@, token@, now, path_user_id),
{
    let c = match crate::claims::decode(secret, token, now) {
        Err(e) => {
            return Err(e);
        },
        Ok(c) => c,
    };
    if c.uid == path_user_id {
        Ok(c)
    } else {
        Err(Error::Privilege)
    }
}

/// What a permission-guarded, bearer-authenticated request decides:
/// `Forbidden` where the role lacks the (resource, action) grant,
/// `Privilege` where the subject is not the addressed user, `Ok` otherwise.
/// The two denials stay distinct for auditing.
pub open spec fn spec_authorize_action(
    m: Seq<crate::permissions::Grant>,
    c: Claims,
    path_user_id: u64,
    resource: ResourceType,
    action: ActionType,
) -> Result<(), Error> {
    if !spec_contains(m, c.role_id, resource, action) {
        Result::Err(Error::Forbidden)
    } else if c.uid != path_user_id {
        Result::Err(Error::Privilege)
    } else {
        Result::Ok(())
    }
}

/// The guard in front of every state-touching resource operation: the
/// permission matrix first, then the subject.
pub fn authorize_action(
    matrix: &PermissionMatrix,
    claims: &Claims,
    path_user_id: u64,
    resource: ResourceType,
    action: ActionType,
) -> (r: Result<(), Error>)
    ensures
        r == spec_authorize_action(matrix@, *claims, path_user_id, resource, action),
{
    if !matrix.contains(claims.role_id, resource, action) {
        Err(Error::Forbidden)
    } else if claims.uid != path_user_id {
        Err(Error::Privilege)
    } else {
        Ok(())
    }
}

/// The client-lookup result, by value for specification purposes.
pub open spec fn opt_deref(client: Option<&ClientRecord>) -> Option<ClientRecord> {
    match client {
        Option::Some(c) => Option::Some(*c),
        Option::None => Option::None,
    }
}

/// The validation phase of the grant, in order: claims (their own errors),
/// subject (`Privilege`), client lookup (`NotFound`), redirect against the
/// registered callback (`Params`). Only when all pass may a pending
/// authorization be created and a code minted.
pub open spec fn spec_begin_authorization(
    secret: Seq<u8>,
    token: Seq<u8>,
    now: u64,
    path_user_id: u64,
    client: Option<ClientRecord>,
    redirect_uri: Seq<char>,
) -> Result<Claims, Error> {
    match spec_decode(secret, token, now) {
        Result::Err(e) => Result::Err(e),
        Result::Ok(c) => if c.uid != path_user_id {
            Result::Err(Error::Privilege)
        } else {
            match client {
                Option::None => Result::Err(Error::NotFound),
                Option::Some(cl) => match spec_validate_redirect(cl.callback_uri@, redirect_uri) {
                    Result::Ok(u) => Result::Ok(c),
                    Result::Err(e) => Result::Err(Error::Params),
                },
            }
        },
    }
}

/// Runs the grant's validation phase; `client` is what the persistence
/// collaborator found under the presented client id.
pub fn begin_authorization(
    secret: &[u8],
    token: &[u8],
    now: u64,
    path_user_id: u64,
    client: Option<&ClientRecord>,
    redirect_uri: &str,
) -> (r: Result<Claims, Error>)
    ensures
        r == spec_begin_authorization(
            secret@,
            token@,
            now,
            path_user_id,
            opt_deref(client),
            redirect_uri@,
        ),
{
    let c = match authorize_bearer(secret, token, now, path_user_id) {
        Err(e) => {
            return Err(e);
        },
        Ok(c) => c,
    };
    let record = match client {
        None => {
            return Err(Error::NotFound);
        },
        Some(r) => r,
    };
    match validate_redirect_origin(record.callback_uri.as_str(), redirect_uri) {
        Ok(_) => Ok(c),
        Err(_) => Err(Error::Params),
    }
}

/// Mints the grant's credentials: issues a fresh single-use code bound to
/// `authorization_id` for `CODE_TTL_SECONDS` from `now`, and echoes the
/// caller's state verbatim. On success the code is hexadecimal of the
/// configured length, decodes back to the stored raw code, and that code is
/// bound in the store to exactly this authorization id and expiry; on
/// failure the store is unchanged.
pub fn issue_credentials(store: &mut CodeStore, authorization_id: u64, now: u64, state: String) -> (r:
    Result<Credientials, Error>)
    requires
        old(store).well_formed(),
        now + CODE_TTL_SECONDS <= u64::MAX,
    ensures
        final(store).well_formed(),
        r matches Ok(cr) ==> {
            &&& cr.state == state
            &&& cr.code@.len() == 2 * CODE_LENGTH
            &&& hex_decode_ok(cr.code@)
            &&& find_code(old(store)@, hex_decode_spec(cr.code@)) is None
            &&& find_code(final(store)@, hex_decode_spec(cr.code@)) == Option::Some(
                (authorization_id, (now + CODE_TTL_SECONDS) as u64),
            )
            &&& forall|other: Seq<u8>|
                other != hex_decode_spec(cr.code@) ==> find_code(final(store)@, other)
                    == find_code(old(store)@, other)
        },
        r matches Err(e) ==> final(store)@ == old(store)@ && (e == Error::Entropy || e
            == Error::StoreUnavailable),
{
    let raw = match store.issue(authorization_id, now) {
        Err(e) => {
            return Err(e);
        },
        Ok(c) => c,
    };
    let code = hex_encode_bytes(raw.as_slice());
    proof {
        lemma_hex_len(raw@);
        lemma_hex_round_trip(raw@);
    }
    Ok(Credientials { code, state })
}

/// For every validly signed token with unexpired claims whose subject is
/// the addressed user and a found client: where the redirect matches the
/// registered callback the grant's validation phase accepts — issuance is
/// then owed, and `issue_credentials` binds a fresh hexadecimal code of the
/// configured length to exactly the new authorization — and where the
/// redirect check rejects, the grant ends in `Params` before anything is
/// minted.
pub proof fn lemma_begin_accepts_valid_request(
    secret: Seq<u8>,
    c: Claims,
    now: u64,
    client: ClientRecord,
    redirect_uri: Seq<char>,
)
    requires
        now < c.exp,
    ensures
        spec_validate_redirect(client.callback_uri@, redirect_uri) == Result::Ok::<(), Error>(())
            ==> spec_begin_authorization(
            secret,
            crate::claims::token_of(secret, c),
            now,
            c.uid,
            Option::Some(client),
            redirect_uri,
        ) == Result::Ok::<Claims, Error>(c),
        (spec_validate_redirect(client.callback_uri@, redirect_uri) matches Err(_)) ==> spec_begin_authorization(
            secret,
            crate::claims::token_of(secret, c),
            now,
            c.uid,
            Option::Some(client),
            redirect_uri,
        ) == Result::Err::<Claims, Error>(Error::Params),
{
    crate::claims::lemma_decode_encode(secret, c, now);
}

/// What redeeming a transported (hexadecimal) code yields: `Malformed`
/// where it is not hexadecimal at all, otherwise the store's
/// test-and-delete verdict on the raw code.
pub open spec fn spec_redeem_code(s: Seq<CodeEntry>, code_hex: Seq<u8>, now: u64) -> Result<
    u64,
    Error,
> {
    if !hex_decode_ok(code_hex) {
        Result::Err(Error::Malformed)
    } else {
        redeem_result(s, hex_decode_spec(code_hex), now)
    }
}

/// Redeems a code presented in transport form: on success the bound
/// authorization id, ready for exchange into an access credential, and the
/// binding is gone; afterwards the same code always redeems as `NotFound`.
pub fn redeem_code(store: &mut CodeStore, code_hex: &[u8], now: u64) -> (r: Result<u64, Error>)
    requires
        old(store).well_formed(),
    ensures
        final(store).well_formed(),
        r == spec_redeem_code(old(store)@, code_hex@, now),
        !hex_decode_ok(code_hex@) ==> final(store)@ == old(store)@,
        hex_decode_ok(code_hex@) ==> final(store)@ == remove_code(
            old(store)@,
            hex_decode_spec(code_hex@),
        ),
{
    let raw = match hex_decode_bytes(code_hex) {
        None => {
            return Err(Error::Malformed);
        },
        Some(v) => v,
    };
    store.redeem(raw.as_slice(), now)
}

} // verus!
