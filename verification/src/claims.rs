//! The claims codec: a signed, time-bounded identity assertion carried as a
//! bearer token. A token is the hexadecimal payload (subject, role, issue
//! and expiry instants), a dot, and the hexadecimal HMAC-SHA-256 tag of the
//! payload under the configured secret. Decoding verifies the tag in
//! constant time and rejects any token whose expiry instant has been
//! reached: there is no grace window.

use vstd::prelude::*;

use crate::bytes::{
    constant_time_equals, copy_range, lemma_u64_be_round_trip, push_u64_be, read_u64_be,
    u64_from_be, u64_to_be,
};
use crate::crypto::{hmac_sha256, mac_of};
use crate::errors::Error;
use crate::hexcodec::{
    hex_bytes_of, hex_decode_bytes, hex_decode_ok, hex_decode_spec, hex_encode_bytes,
    lemma_hex_decode_len, lemma_hex_len, lemma_hex_round_trip,
};

verus! {

/// A verified identity assertion: subject user, role, and the instants it
/// was issued at and expires at (seconds). Transient: it lives only for the
/// request it authenticates.
#[derive(Clone, Copy, Debug, PartialEq, Eq, Structural)]
pub struct Claims {
    pub uid: u64,
    pub role_id: u64,
    pub iat: u64,
    pub exp: u64,
}

/// The 32-byte signed payload of a claims value: the four fields in
/// big-endian order.
pub open spec fn payload_of(c: Claims) -> Seq<u8> {
    u64_to_be(c.uid) + u64_to_be(c.role_id) + u64_to_be(c.iat) + u64_to_be(c.exp)
}

/// The claims read back from a 32-byte payload.
pub open spec fn claims_of(p: Seq<u8>) -> Claims
    recommends
        p.len() == 32,
{
    Claims {
        uid: u64_from_be(p.subrange(0, 8)),
        role_id: u64_from_be(p.subrange(8, 16)),
        iat: u64_from_be(p.subrange(16, 24)),
        exp: u64_from_be(p.subrange(24, 32)),
    }
}

/// The token that `encode` produces: hexadecimal payload, a dot, and the
/// hexadecimal tag of the payload under the secret.
pub open spec fn token_of(secret: Seq<u8>, c: Claims) -> Seq<u8> {
    hex_bytes_of(payload_of(c)) + seq![46u8] + hex_bytes_of(mac_of(secret, payload_of(c)))
}

/// What `decode` returns: `Malformed` where the token does not have the
/// shape hexadecimal-payload, dot, tag; `InvalidSignature` where the tag is
/// not the payload's tag under this secret; `Expired` from the expiry
/// instant on; otherwise the embedded claims.
pub open spec fn spec_decode(secret: Seq<u8>, t: Seq<u8>, now: u64) -> Result<Claims, Error> {
    if t.len() < 65 || t[64] != 46 || !hex_decode_ok(t.subrange(0, 64)) {
        Result::Err(Error::Malformed)
    } else {
        let p = hex_decode_spec(t.subrange(0, 64));
        if t.subrange(65, t.len() as int) != hex_bytes_of(mac_of(secret, p)) {
            Result::Err(Error::InvalidSignature)
        } else {
            let c = claims_of(p);
            if c.exp <= now {
                Result::Err(Error::Expired)
            } else {
                Result::Ok(c)
            }
        }
    }
}

/// Encodes claims into a signed bearer token under `secret`.
pub fn encode(secret: &[u8], c: &Claims) -> (r: Vec<u8>)
    ensures
        r@ == token_of(secret@, *c),
{
    let mut payload: Vec<u8> = Vec::new();
    push_u64_be(&mut payload, c.uid);
    push_u64_be(&mut payload, c.role_id);
    push_u64_be(&mut payload, c.iat);
    push_u64_be(&mut payload, c.exp);
    proof {
        assert(payload@ =~= payload_of(*c));
    }
    let mac = hmac_sha256(secret, payload.as_slice());
    let mut out = hex_encode_bytes(payload.as_slice());
    out.push(46);
    let mut tag = hex_encode_bytes(mac.as_slice());
    out.append(&mut tag);
    proof {
        assert(out@ =~= token_of(secret@, *c));
    }
    out
}

/// Decodes and validates a bearer token against `secret` at instant `now`.
/// Rejects a token signed under any other secret, and rejects expiry at
/// exact equality: a token is only valid strictly before its expiry.
pub fn decode(secret: &[u8], token: &[u8], now: u64) -> (r: Result<Claims, Error>)
    ensures
        r == spec_decode(secret@, token@, now),
{
    if token.len() < 65 {
        return Err(Error::Malformed);
    }
    if token[64] != 46 {
        return Err(Error::Malformed);
    }
    let payload_hex = copy_range(token, 0, 64);
    let payload = match hex_decode_bytes(payload_hex.as_slice()) {
        None => {
            return Err(Error::Malformed);
        },
        Some(p) => p,
    };
    let tag = copy_range(token, 65, token.len());
    let mac = hmac_sha256(secret, payload.as_slice());
    let expected = hex_encode_bytes(mac.as_slice());
    if !constant_time_equals(tag.as_slice(), expected.as_slice()) {
        return Err(Error::InvalidSignature);
    }
    proof {
        lemma_hex_decode_len(token@.subrange(0, 64));
    }
    let uid = read_u64_be(payload.as_slice(), 0);
    let role_id = read_u64_be(payload.as_slice(), 8);
    let iat = read_u64_be(payload.as_slice(), 16);
    let exp = read_u64_be(payload.as_slice(), 24);
    let c = Claims { uid, role_id, iat, exp };
    proof {
        assert(c == claims_of(payload@));
    }
    if exp <= now {
        Err(Error::Expired)
    } else {
        Ok(c)
    }
}

/// Round trip of the codec: a token encoded under a secret decodes under
/// the same secret to the original claims while they are unexpired, and is
/// rejected as `Expired` from the exact expiry instant on.
pub proof fn lemma_decode_encode(secret: Seq<u8>, c: Claims, now: u64)
    ensures
        now < c.exp ==> spec_decode(secret, token_of(secret, c), now) == Result::Ok::<
            Claims,
            Error,
        >(c),
        c.exp <= now ==> spec_decode(secret, token_of(secret, c), now) == Result::Err::<
            Claims,
            Error,
        >(Error::Expired),
{
    let p = payload_of(c);
    let t = token_of(secret, c);
    lemma_hex_len(p);
    lemma_hex_round_trip(p);
    assert(t.subrange(0, 64) =~= hex_bytes_of(p));
    assert(t[64] == 46);
    assert(t.subrange(65, t.len() as int) =~= hex_bytes_of(mac_of(secret, p)));
    lemma_u64_be_round_trip(c.uid);
    lemma_u64_be_round_trip(c.role_id);
    lemma_u64_be_round_trip(c.iat);
    lemma_u64_be_round_trip(c.exp);
    assert(p.subrange(0, 8) =~= u64_to_be(c.uid));
    assert(p.subrange(8, 16) =~= u64_to_be(c.role_id));
    assert(p.subrange(16, 24) =~= u64_to_be(c.iat));
    assert(p.subrange(24, 32) =~= u64_to_be(c.exp));
    assert(claims_of(p) == c);
}

} // verus!
