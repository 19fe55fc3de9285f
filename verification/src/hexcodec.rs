//! Hexadecimal transport encoding of binary identifiers (client ids,
//! authorization codes). The encoding is pinned down by spec functions;
//! the executable work is done by the hex crate behind trusted wrappers,
//! and the round trip between the two spec directions is proved.

use vstd::prelude::*;

verus! {

/// An ASCII byte that is a hexadecimal digit, either case.
pub open spec fn is_hex_digit(b: u8) -> bool {
    (48 <= b <= 57) || (97 <= b <= 102) || (65 <= b <= 70)
}

/// The numeric value of a hexadecimal digit byte.
pub open spec fn hex_digit_value(b: u8) -> u8
    recommends
        is_hex_digit(b),
{
    if 48 <= b <= 57 {
        (b - 48) as u8
    } else if 97 <= b <= 102 {
        (b - 87) as u8
    } else {
        (b - 55) as u8
    }
}

/// The lowercase hexadecimal digit byte of a value below sixteen.
pub open spec fn lower_hex_digit(v: u8) -> u8
    recommends
        v < 16,
{
    if v < 10 {
        (v + 48) as u8
    } else {
        (v + 87) as u8
    }
}

/// The lowercase hexadecimal encoding of a byte string: two digit bytes,
/// high nibble first, for each input byte.
pub open spec fn hex_bytes_of(s: Seq<u8>) -> Seq<u8>
    decreases s.len(),
{
    if s.len() == 0 {
        Seq::empty()
    } else {
        seq![lower_hex_digit(s[0] / 16), lower_hex_digit(s[0] % 16)] + hex_bytes_of(s.drop_first())
    }
}

/// Whether a byte string is decodable hexadecimal: even length, every byte
/// a digit of either case.
pub open spec fn hex_decode_ok(s: Seq<u8>) -> bool {
    s.len() % 2 == 0 && forall|i: int| 0 <= i < s.len() ==> is_hex_digit(#[trigger] s[i])
}

/// The bytes read from a hexadecimal string, one per digit pair.
pub open spec fn hex_decode_spec(s: Seq<u8>) -> Seq<u8>
    decreases s.len(),
{
    if s.len() < 2 {
        Seq::empty()
    } else {
        seq![(hex_digit_value(s[0]) * 16 + hex_digit_value(s[1])) as u8] + hex_decode_spec(
            s.skip(2),
        )
    }
}

/// The encoding writes two digit bytes per input byte.
pub proof fn lemma_hex_len(v: Seq<u8>)
    ensures
        hex_bytes_of(v).len() == 2 * v.len(),
    decreases v.len(),
{
    if v.len() > 0 {
        lemma_hex_len(v.drop_first());
    }
}

/// Decoding reads one byte per digit pair.
pub proof fn lemma_hex_decode_len(s: Seq<u8>)
    ensures
        hex_decode_spec(s).len() == s.len() / 2,
    decreases s.len(),
{
    if s.len() >= 2 {
        lemma_hex_decode_len(s.skip(2));
    }
}

/// The hexadecimal encoding of any byte string is decodable and decodes
/// back to that byte string.
pub proof fn lemma_hex_round_trip(v: Seq<u8>)
    ensures
        hex_decode_ok(hex_bytes_of(v)),
        hex_decode_spec(hex_bytes_of(v)) == v,
    decreases v.len(),
{
    if v.len() == 0 {
        assert(hex_decode_spec(hex_bytes_of(v)) =~= v);
    } else {
        let tail = v.drop_first();
        lemma_hex_round_trip(tail);
        let h = hex_bytes_of(v);
        let ht = hex_bytes_of(tail);
        lemma_hex_len(tail);
        assert(h == seq![lower_hex_digit(v[0] / 16), lower_hex_digit(v[0] % 16)] + ht);
        assert(h.skip(2) =~= ht);
        assert forall|i: int| 0 <= i < h.len() implies is_hex_digit(#[trigger] h[i]) by {
            if i >= 2 {
                assert(h[i] == ht[i - 2]);
            }
        }
        assert(hex_digit_value(h[0]) == v[0] / 16);
        assert(hex_digit_value(h[1]) == v[0] % 16);
        assert(v[0] / 16 * 16 + v[0] % 16 == v[0]) by (nonlinear_arith);
        assert(hex_decode_spec(h) =~= v);
    }
}

/// Relies on hex::encode: the lowercase hexadecimal string of the input,
/// two digits per byte, high nibble first.
#[verifier::external_body]
pub(crate) fn hex_encode_bytes(b: &[u8]) -> (r: Vec<u8>)
    ensures
        r@ == hex_bytes_of(b@),
{
    hex::encode(b).into_bytes()
}

/// Relies on hex::decode: succeeds exactly on even-length strings of
/// hexadecimal digits of either case, yielding one byte per digit pair.
#[verifier::external_body]
pub(crate) fn hex_decode_bytes(s: &[u8]) -> (r: Option<Vec<u8>>)
    ensures
        (r is Some) == hex_decode_ok(s@),
        r matches Some(v) ==> v@ == hex_decode_spec(s@),
{
    hex::decode(s).ok()
}

} // verus!
