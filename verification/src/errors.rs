//! The closed error taxonomy of the authorization core.
//!
//! Every denial the core produces is one of these variants; none carries an
//! open-ended boxed cause. `Privilege` (authenticated, but acting as the
//! wrong subject) and `Forbidden` (permission-matrix denial) stay distinct.

use vstd::prelude::*;

verus! {

#[derive(Clone, Copy, Debug, PartialEq, Eq, Structural)]
pub enum Error {
    /// The input could not be parsed at all.
    Malformed,
    /// A claims token whose signature does not verify under the configured secret.
    InvalidSignature,
    /// A claims token whose expiry instant has been reached or passed.
    Expired,
    /// A missing client, authorization code, or authorization.
    NotFound,
    /// A presented client secret that does not match the stored credential.
    InvalidCredentials,
    /// A redirect target whose origin or path differs from the registered callback.
    RedirectMismatch,
    /// Invalid request parameters at the authorization flow's boundary.
    Params,
    /// Authenticated, but not authorized to act as the addressed user.
    Privilege,
    /// The role holds no grant for the requested resource/action pair.
    Forbidden,
    /// The secure random source failed; fatal to the operation.
    Entropy,
    /// A transient store failure, retryable by the caller.
    StoreUnavailable,
}

} // verus!
