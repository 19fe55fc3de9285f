//! The authorization-code store: a keyed, time-bounded, consume-once map
//! from opaque random codes to authorization ids. Issuance is
//! set-if-absent; redemption is test-and-delete in one operation, with a
//! defensive lazy expiry check, so a code is gone after its first
//! redemption attempt and is never honoured at or past its expiry instant.
//! The store is an in-process structure: one mutable reference serializes
//! its operations, which gives each call the atomicity the contracts state.

use vstd::prelude::*;

use crate::bytes::{constant_time_equals, copy_range};
use crate::crypto::random_bytes;
use crate::errors::Error;

verus! {

/// Lifetime of an authorization code, in seconds.
pub const CODE_TTL_SECONDS: u64 = 300;

/// Length in bytes of a raw authorization code.
pub const CODE_LENGTH: usize = 64;

/// One pending entry: an opaque code bound to exactly one authorization,
/// with the absolute instant at which it lapses.
pub struct CodeEntry {
    pub code: Vec<u8>,
    pub authorization_id: u64,
    pub expires_at: u64,
}

/// The binding of `code` among the entries: the authorization id and expiry
/// of its first occurrence.
pub open spec fn find_code(s: Seq<CodeEntry>, code: Seq<u8>) -> Option<(u64, u64)>
    decreases s.len(),
{
    if s.len() == 0 {
        Option::None
    } else if s[0].code@ == code {
        Option::Some((s[0].authorization_id, s[0].expires_at))
    } else {
        find_code(s.drop_first(), code)
    }
}

/// The entries with the first occurrence of `code` taken out; all of them
/// when `code` is absent.
pub open spec fn remove_code(s: Seq<CodeEntry>, code: Seq<u8>) -> Seq<CodeEntry>
    decreases s.len(),
{
    if s.len() == 0 {
        s
    } else if s[0].code@ == code {
        s.drop_first()
    } else {
        seq![s[0]] + remove_code(s.drop_first(), code)
    }
}

/// No two entries carry the same code.
pub open spec fn codes_unique(s: Seq<CodeEntry>) -> bool {
    forall|i: int, j: int| 0 <= i < j < s.len() ==> s[i].code@ != s[j].code@
}

/// What redeeming `code` at instant `now` yields: the bound authorization
/// id where a binding exists and is strictly before its expiry, `NotFound`
/// otherwise.
pub open spec fn redeem_result(s: Seq<CodeEntry>, code: Seq<u8>, now: u64) -> Result<u64, Error> {
    match find_code(s, code) {
        Option::Some(e) => if now < e.1 {
            Result::Ok(e.0)
        } else {
            Result::Err(Error::NotFound)
        },
        Option::None => Result::Err(Error::NotFound),
    }
}

/// `code` first occurs at index `i` of `s`.
pub open spec fn is_first_match(s: Seq<CodeEntry>, code: Seq<u8>, i: int) -> bool {
    0 <= i < s.len() && s[i].code@ == code && forall|j: int| 0 <= j < i ==> s[j].code@ != code
}

pub proof fn lemma_find_none_iff(s: Seq<CodeEntry>, code: Seq<u8>)
    ensures
        (find_code(s, code) is None) <==> (forall|i: int|
            0 <= i < s.len() ==> (#[trigger] s[i]).code@ != code),
    decreases s.len(),
{
    if s.len() > 0 {
        let t = s.drop_first();
        lemma_find_none_iff(t, code);
        if s[0].code@ == code {
            assert((s[0]).code@ == code);
        } else {
            if find_code(t, code) is None {
                assert forall|i: int| 0 <= i < s.len() implies (#[trigger] s[i]).code@
                    != code by {
                    if i > 0 {
                        assert(t[i - 1] == s[i]);
                    }
                }
            } else {
                let w = choose|i: int|
                    !(0 <= i < t.len() ==> (#[trigger] t[i]).code@ != code);
                assert(t[w] == s[w + 1]);
                assert((s[w + 1]).code@ == code);
            }
        }
    }
}

pub proof fn lemma_find_first_match(s: Seq<CodeEntry>, code: Seq<u8>, i: int)
    requires
        is_first_match(s, code, i),
    ensures
        find_code(s, code) == Option::Some((s[i].authorization_id, s[i].expires_at)),
    decreases i,
{
    if i > 0 {
        assert(forall|j: int|
            0 <= j < i - 1 ==> #[trigger] s.drop_first()[j] == s[j + 1]);
        lemma_find_first_match(s.drop_first(), code, i - 1);
    }
}

pub proof fn lemma_remove_first_match(s: Seq<CodeEntry>, code: Seq<u8>, i: int)
    requires
        is_first_match(s, code, i),
    ensures
        remove_code(s, code) == s.remove(i),
    decreases i,
{
    if i == 0 {
        assert(remove_code(s, code) =~= s.remove(0));
    } else {
        assert(forall|j: int|
            0 <= j < i - 1 ==> #[trigger] s.drop_first()[j] == s[j + 1]);
        lemma_remove_first_match(s.drop_first(), code, i - 1);
        assert(seq![s[0]] + s.drop_first().remove(i - 1) =~= s.remove(i));
    }
}

pub proof fn lemma_remove_absent(s: Seq<CodeEntry>, code: Seq<u8>)
    requires
        find_code(s, code) is None,
    ensures
        remove_code(s, code) == s,
    decreases s.len(),
{
    if s.len() > 0 {
        lemma_remove_absent(s.drop_first(), code);
        assert(seq![s[0]] + s.drop_first() =~= s);
    }
}

/// After the first occurrence of a code is taken out of a store whose codes
/// are unique, that code is bound to nothing.
pub proof fn lemma_find_after_remove(s: Seq<CodeEntry>, code: Seq<u8>)
    requires
        codes_unique(s),
    ensures
        find_code(remove_code(s, code), code) is None,
    decreases s.len(),
{
    if s.len() > 0 {
        if s[0].code@ == code {
            let t = s.drop_first();
            assert(forall|j: int| 0 <= j < t.len() ==> (#[trigger] t[j]).code@ != code);
            lemma_find_none_iff(t, code);
        } else {
            assert(codes_unique(s.drop_first()));
            lemma_find_after_remove(s.drop_first(), code);
            let r = seq![s[0]] + remove_code(s.drop_first(), code);
            assert(r.drop_first() =~= remove_code(s.drop_first(), code));
        }
    }
}

/// Taking one code's binding out leaves every other code's binding as it was.
pub proof fn lemma_find_remove_other(s: Seq<CodeEntry>, code: Seq<u8>, other: Seq<u8>)
    requires
        code != other,
    ensures
        find_code(remove_code(s, code), other) == find_code(s, other),
    decreases s.len(),
{
    if s.len() > 0 {
        if s[0].code@ == code {
        } else {
            lemma_find_remove_other(s.drop_first(), code, other);
            let r = seq![s[0]] + remove_code(s.drop_first(), code);
            assert(r.drop_first() =~= remove_code(s.drop_first(), code));
            assert(r[0] == s[0]);
        }
    }
}

/// A fresh entry at the end leaves every other code's binding as it was.
pub proof fn lemma_find_push_other(s: Seq<CodeEntry>, e: CodeEntry, other: Seq<u8>)
    requires
        e.code@ != other,
    ensures
        find_code(s.push(e), other) == find_code(s, other),
    decreases s.len(),
{
    let sp = s.push(e);
    if s.len() == 0 {
        assert(sp[0] == e);
        assert(sp.drop_first() =~= Seq::<CodeEntry>::empty());
        assert(find_code(sp, other) == find_code(sp.drop_first(), other));
        assert(find_code(sp.drop_first(), other) is None);
    } else {
        lemma_find_push_other(s.drop_first(), e, other);
        assert(sp[0] == s[0]);
        assert(sp.drop_first() =~= s.drop_first().push(e));
        if s[0].code@ == other {
            assert(find_code(sp, other) == Option::Some((s[0].authorization_id, s[0].expires_at)));
            assert(find_code(s, other) == Option::Some((s[0].authorization_id, s[0].expires_at)));
        } else {
            assert(find_code(sp, other) == find_code(sp.drop_first(), other));
            assert(find_code(s, other) == find_code(s.drop_first(), other));
        }
    }
}

/// The entries still live at instant `now`: those strictly before their
/// expiry, in their original order.
pub open spec fn live_entries(s: Seq<CodeEntry>, now: u64) -> Seq<CodeEntry>
    decreases s.len(),
{
    if s.len() == 0 {
        s
    } else if now < s[0].expires_at {
        seq![s[0]] + live_entries(s.drop_first(), now)
    } else {
        live_entries(s.drop_first(), now)
    }
}

/// Eviction keeps the codes unique, keeps every live binding exactly as it
/// was, and leaves no binding for a code whose entry had lapsed or was
/// absent.
pub proof fn lemma_live_entries(s: Seq<CodeEntry>, now: u64, code: Seq<u8>)
    requires
        codes_unique(s),
    ensures
        codes_unique(live_entries(s, now)),
        find_code(live_entries(s, now), code) == (match find_code(s, code) {
            Option::Some(e) => if now < e.1 {
                Option::Some(e)
            } else {
                Option::None::<(u64, u64)>
            },
            Option::None => Option::None::<(u64, u64)>,
        }),
    decreases s.len(),
{
    if s.len() > 0 {
        let t = s.drop_first();
        assert(codes_unique(t));
        lemma_live_entries(t, now, code);
        assert forall|c2: Seq<u8>|
            find_code(live_entries(t, now), c2) is Some implies find_code(t, c2) is Some by {
            lemma_live_entries(t, now, c2);
        }
        if now < s[0].expires_at {
            let r = seq![s[0]] + live_entries(t, now);
            assert(r[0] == s[0]);
            assert(r.drop_first() =~= live_entries(t, now));
            assert(codes_unique(r)) by {
                assert forall|i: int, j: int| 0 <= i < j < r.len() implies r[i].code@
                    != r[j].code@ by {
                    if i == 0 {
                        let c2 = r[j].code@;
                        assert(find_code(live_entries(t, now), c2) is Some) by {
                            lemma_find_none_iff(live_entries(t, now), c2);
                            assert(live_entries(t, now)[j - 1].code@ == c2);
                        }
                        lemma_live_entries(t, now, c2);
                        lemma_find_none_iff(t, c2);
                        let w = choose|k: int|
                            !(0 <= k < t.len() ==> (#[trigger] t[k]).code@ != c2);
                        assert(s[w + 1].code@ == c2);
                    } else {
                        assert(r[i] == live_entries(t, now)[i - 1]);
                        assert(r[j] == live_entries(t, now)[j - 1]);
                    }
                }
            }
        } else {
            if s[0].code@ == code {
                assert forall|j: int| 0 <= j < t.len() implies (#[trigger] t[j]).code@
                    != code by {
                    assert(t[j] == s[j + 1]);
                }
                lemma_find_none_iff(t, code);
            }
        }
    }
}

/// Appending one entry extends the live entries by it exactly where it is
/// itself live.
pub proof fn lemma_live_push(s: Seq<CodeEntry>, e: CodeEntry, now: u64)
    ensures
        live_entries(s.push(e), now) == (if now < e.expires_at {
            live_entries(s, now).push(e)
        } else {
            live_entries(s, now)
        }),
    decreases s.len(),
{
    let sp = s.push(e);
    if s.len() == 0 {
        assert(sp[0] == e);
        assert(sp.drop_first() =~= Seq::<CodeEntry>::empty());
        if now < e.expires_at {
            assert(seq![e] + live_entries(Seq::<CodeEntry>::empty(), now) =~= live_entries(
                s,
                now,
            ).push(e));
        }
    } else {
        lemma_live_push(s.drop_first(), e, now);
        assert(sp[0] == s[0]);
        assert(sp.drop_first() =~= s.drop_first().push(e));
        if now < s[0].expires_at && now < e.expires_at {
            assert(seq![s[0]] + live_entries(s.drop_first(), now).push(e) =~= (seq![s[0]]
                + live_entries(s.drop_first(), now)).push(e));
        }
    }
}

/// The exclusively owned, in-process keyed TTL store for authorization
/// codes. Well-formedness (codes unique) is established by `new` and kept
/// by every operation.
pub struct CodeStore {
    entries: Vec<CodeEntry>,
}

impl View for CodeStore {
    type V = Seq<CodeEntry>;

    closed spec fn view(&self) -> Seq<CodeEntry> {
        self.entries@
    }
}

impl CodeStore {
    pub open spec fn well_formed(&self) -> bool {
        codes_unique(self@)
    }

    pub fn new() -> (r: Self)
        ensures
            r@ == Seq::<CodeEntry>::empty(),
            r.well_formed(),
    {
        CodeStore { entries: Vec::new() }
    }

    /// Atomic set-if-absent: binds `code` to `authorization_id` until
    /// `expires_at` and reports true, or reports false and changes nothing
    /// where `code` is already bound.
    pub fn insert(&mut self, code: Vec<u8>, authorization_id: u64, expires_at: u64) -> (r: bool)
        requires
            old(self).well_formed(),
        ensures
            final(self).well_formed(),
            r == (find_code(old(self)@, code@) is None),
            r ==> final(self)@ == old(self)@.push(
                (CodeEntry { code, authorization_id, expires_at }),
            ),
            r ==> find_code(final(self)@, code@) == Option::Some(
                (authorization_id, expires_at),
            ),
            !r ==> final(self)@ == old(self)@,
    {
        let ghost s = self.entries@;
        let mut i: usize = 0;
        while i < self.entries.len()
            invariant
                i <= s.len(),
                self.entries@ == s,
                s == old(self)@,
                codes_unique(s),
                forall|j: int| 0 <= j < i ==> (#[trigger] s[j]).code@ != code@,
            decreases s.len() - i,
        {
            if constant_time_equals(self.entries[i].code.as_slice(), code.as_slice()) {
                proof {
                    lemma_find_first_match(s, code@, i as int);
                }
                return false;
            }
            i += 1;
        }
        proof {
            lemma_find_none_iff(s, code@);
        }
        let entry = CodeEntry { code, authorization_id, expires_at };
        self.entries.push(entry);
        proof {
            assert(is_first_match(self.entries@, entry.code@, s.len() as int));
            lemma_find_first_match(self.entries@, entry.code@, s.len() as int);
            assert(codes_unique(self.entries@)) by {
                assert(forall|j: int|
                    0 <= j < s.len() ==> #[trigger] self.entries@[j] == s[j]);
            }
        }
        true
    }

    /// Atomic test-and-delete: takes the binding of `code` out — whether
    /// live, lapsed, or absent — and yields the bound authorization id only
    /// where the binding was strictly before its expiry. A second call on
    /// the same code therefore always fails with `NotFound`.
    pub fn redeem(&mut self, code: &[u8], now: u64) -> (r: Result<u64, Error>)
        requires
            old(self).well_formed(),
        ensures
            final(self).well_formed(),
            r == redeem_result(old(self)@, code@, now),
            final(self)@ == remove_code(old(self)@, code@),
    {
        let ghost s = self.entries@;
        let mut i: usize = 0;
        while i < self.entries.len()
            invariant
                i <= s.len(),
                self.entries@ == s,
                s == old(self)@,
                codes_unique(s),
                forall|j: int| 0 <= j < i ==> (#[trigger] s[j]).code@ != code@,
            decreases s.len() - i,
        {
            if constant_time_equals(self.entries[i].code.as_slice(), code) {
                proof {
                    lemma_find_first_match(s, code@, i as int);
                    lemma_remove_first_match(s, code@, i as int);
                }
                let entry = self.entries.remove(i);
                proof {
                    assert(codes_unique(self.entries@)) by {
                        assert(forall|k: int|
                            0 <= k < self.entries@.len() ==> #[trigger] self.entries@[k]
                                == (if k < i { s[k] } else { s[k + 1] }));
                    }
                }
                if now < entry.expires_at {
                    return Ok(entry.authorization_id);
                } else {
                    return Err(Error::NotFound);
                }
            }
            i += 1;
        }
        proof {
            lemma_find_none_iff(s, code@);
            lemma_remove_absent(s, code@);
        }
        Err(Error::NotFound)
    }

    /// Issues a code for `authorization_id`: draws a fresh random code of
    /// `CODE_LENGTH` bytes, binds it for `CODE_TTL_SECONDS` from `now`, and
    /// returns it. `Entropy` reports a failed random source; the store is
    /// then unchanged. A colliding code — never observed with 64 random
    /// bytes, but not promised impossible by the random source — is
    /// reported as `StoreUnavailable` rather than ever rebinding a code.
    pub fn issue(&mut self, authorization_id: u64, now: u64) -> (r: Result<Vec<u8>, Error>)
        requires
            old(self).well_formed(),
            now + CODE_TTL_SECONDS <= u64::MAX,
        ensures
            final(self).well_formed(),
            r matches Ok(code) ==> {
                &&& code@.len() == CODE_LENGTH
                &&& find_code(old(self)@, code@) is None
                &&& find_code(final(self)@, code@) == Option::Some(
                    (authorization_id, (now + CODE_TTL_SECONDS) as u64),
                )
                &&& forall|other: Seq<u8>|
                    other != code@ ==> find_code(final(self)@, other) == find_code(
                        old(self)@,
                        other,
                    )
            },
            r is Err ==> final(self)@ == old(self)@ && (r == Result::Err::<Vec<u8>, Error>(
                Error::Entropy,
            ) || r == Result::Err::<Vec<u8>, Error>(Error::StoreUnavailable)),
    {
        let code = match random_bytes(CODE_LENGTH) {
            None => {
                return Err(Error::Entropy);
            },
            Some(c) => c,
        };
        let stored = copy_range(code.as_slice(), 0, code.len());
        proof {
            assert(stored@ =~= code@);
        }
        let expires_at = now + CODE_TTL_SECONDS;
        let ghost prev = self@;
        if self.insert(stored, authorization_id, expires_at) {
            proof {
                let entry = self@.last();
                assert(self@ == prev.push(entry));
                assert forall|other: Seq<u8>| other != code@ implies find_code(self@, other)
                    == find_code(prev, other) by {
                    lemma_find_push_other(prev, entry, other);
                }
            }
            Ok(code)
        } else {
            Err(Error::StoreUnavailable)
        }
    }

    /// The eviction sweep beside redeem's lazy check: drops every lapsed
    /// entry and touches no live binding.
    pub fn sweep(&mut self, now: u64)
        requires
            old(self).well_formed(),
        ensures
            final(self).well_formed(),
            final(self)@ == live_entries(old(self)@, now),
    {
        let ghost s = self.entries@;
        let ghost mut k: int = 0;
        let mut i: usize = 0;
        while i < self.entries.len()
            invariant
                codes_unique(s),
                s == old(self)@,
                0 <= k <= s.len(),
                i as int == live_entries(s.subrange(0, k), now).len(),
                self.entries@ == live_entries(s.subrange(0, k), now) + s.skip(k),
            decreases s.len() - k,
        {
            proof {
                assert(s.skip(k).len() > 0);
                assert(self.entries@[i as int] == s.skip(k)[0]);
                assert(s.skip(k)[0] == s[k]);
                assert(s.subrange(0, k + 1) =~= s.subrange(0, k).push(s[k]));
                lemma_live_push(s.subrange(0, k), s[k], now);
            }
            if now < self.entries[i].expires_at {
                proof {
                    assert(self.entries@ =~= live_entries(s.subrange(0, k + 1), now) + s.skip(
                        k + 1,
                    ));
                    k = k + 1;
                }
                i += 1;
            } else {
                self.entries.remove(i);
                proof {
                    assert(self.entries@ =~= live_entries(s.subrange(0, k + 1), now) + s.skip(
                        k + 1,
                    ));
                    k = k + 1;
                }
            }
        }
        proof {
            assert(s.skip(k).len() == 0);
            assert(k == s.len());
            assert(s.subrange(0, s.len() as int) =~= s);
            assert(self.entries@ =~= live_entries(s, now));
            lemma_live_entries(s, now, Seq::<u8>::empty());
        }
    }
}

/// Single use: whatever one redemption of a code did — success on a live
/// binding, `NotFound` on a lapsed or absent one — the store afterwards
/// holds no binding for that code, so a second redemption at any instant
/// fails with `NotFound`. Operations on the exclusively owned store are
/// serialized, so of two racing redemptions of one live code the first
/// succeeds and the second fails.
pub proof fn lemma_redeem_single_use(
    s: Seq<CodeEntry>,
    code: Seq<u8>,
    now1: u64,
    now2: u64,
    authorization_id: u64,
    expires_at: u64,
)
    requires
        codes_unique(s),
        find_code(s, code) == Option::Some((authorization_id, expires_at)),
        now1 < expires_at,
    ensures
        redeem_result(s, code, now1) == Result::Ok::<u64, Error>(authorization_id),
        redeem_result(remove_code(s, code), code, now2) == Result::Err::<u64, Error>(
            Error::NotFound,
        ),
{
    lemma_find_after_remove(s, code);
}

/// Expiry: a binding is never honoured at or past its expiry instant, so a
/// code issued with `CODE_TTL_SECONDS` of life and not redeemed within them
/// redeems as `NotFound`.
pub proof fn lemma_expired_code_not_redeemed(
    s: Seq<CodeEntry>,
    code: Seq<u8>,
    issued_at: u64,
    now: u64,
    authorization_id: u64,
)
    requires
        find_code(s, code) == Option::Some(
            (authorization_id, (issued_at + CODE_TTL_SECONDS) as u64),
        ),
        issued_at + CODE_TTL_SECONDS <= u64::MAX,
        now >= issued_at + CODE_TTL_SECONDS,
    ensures
        redeem_result(s, code, now) == Result::Err::<u64, Error>(Error::NotFound),
{
}

} // verus!
