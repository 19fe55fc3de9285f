use authcore::claims::{decode, encode, Claims};
use authcore::errors::Error;

const SECRET: &[u8] = b"configured-secret";

fn sample_claims(exp: u64) -> Claims {
    Claims { uid: 42, role_id: 7, iat: 1_000, exp }
}

#[test]
fn token_round_trip_before_expiry() {
    let c = sample_claims(2_000);
    let token = encode(SECRET, &c);
    assert_eq!(decode(SECRET, &token, 1_999), Ok(c));
}

#[test]
fn token_has_fixed_transport_shape() {
    let token = encode(SECRET, &sample_claims(2_000));
    assert_eq!(token.len(), 129);
    assert_eq!(token[64], b'.');
    assert!(token.iter().enumerate().all(|(i, b)| i == 64 || b.is_ascii_hexdigit()));
}

#[test]
fn token_expired_one_second_ago_rejected() {
    let now = 5_000;
    let token = encode(SECRET, &sample_claims(now - 1));
    assert_eq!(decode(SECRET, &token, now), Err(Error::Expired));
}

#[test]
fn token_valid_one_second_ahead_accepted() {
    let now = 5_000;
    let c = sample_claims(now + 1);
    let token = encode(SECRET, &c);
    assert_eq!(decode(SECRET, &token, now), Ok(c));
}

#[test]
fn token_rejected_at_exact_expiry_instant() {
    let now = 5_000;
    let token = encode(SECRET, &sample_claims(now));
    assert_eq!(decode(SECRET, &token, now), Err(Error::Expired));
}

#[test]
fn token_signed_with_other_secret_rejected() {
    let token = encode(b"some-other-secret", &sample_claims(2_000));
    assert_eq!(decode(SECRET, &token, 1_500), Err(Error::InvalidSignature));
}

#[test]
fn tampered_payload_rejected() {
    let mut token = encode(SECRET, &sample_claims(2_000));
    token[0] = if token[0] == b'0' { b'1' } else { b'0' };
    assert_eq!(decode(SECRET, &token, 1_500), Err(Error::InvalidSignature));
}

#[test]
fn tampered_tag_rejected() {
    let mut token = encode(SECRET, &sample_claims(2_000));
    let last = token.len() - 1;
    token[last] = if token[last] == b'0' { b'1' } else { b'0' };
    assert_eq!(decode(SECRET, &token, 1_500), Err(Error::InvalidSignature));
}

#[test]
fn truncated_token_malformed() {
    let token = encode(SECRET, &sample_claims(2_000));
    assert_eq!(decode(SECRET, &token[..64], 1_500), Err(Error::Malformed));
}

#[test]
fn token_without_separator_malformed() {
    let mut token = encode(SECRET, &sample_claims(2_000));
    token[64] = b'x';
    assert_eq!(decode(SECRET, &token, 1_500), Err(Error::Malformed));
}

#[test]
fn token_with_non_hex_payload_malformed() {
    let mut token = encode(SECRET, &sample_claims(2_000));
    token[3] = b'z';
    assert_eq!(decode(SECRET, &token, 1_500), Err(Error::Malformed));
}

#[test]
fn decoding_is_deterministic() {
    let c = sample_claims(2_000);
    let t1 = encode(SECRET, &c);
    let t2 = encode(SECRET, &c);
    assert_eq!(t1, t2);
}
