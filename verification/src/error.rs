//! Failure taxonomy: one internal tag per cause, one external outcome.
//!
//! Every identity or credential failure the flows can hit carries its own
//! internal tag, and an explicit, total mapping table sends every tag to the
//! single caller-visible outcome.  Collapsing the causes this way is what
//! denies a caller any signal about *why* an attempt failed (enumeration
//! resistance); the tags exist for the flows' own bookkeeping and for
//! operator diagnosis, never for the caller.

use crate::codec::DecodeError;
use vstd::prelude::*;

verus! {

/// Why an attempt failed, for internal bookkeeping only.
#[derive(Clone, Copy, Debug, PartialEq, Eq, Structural)]
pub enum AuthFailureReason {
    /// No user carries the presented email.
    EmailUnknown,
    /// The presented password does not match the stored hash.
    PasswordMismatch,
    /// The presented token does not parse.
    TokenMalformed,
    /// The presented token's signature does not verify.
    TokenSignatureInvalid,
    /// The presented token names a foreign issuer.
    TokenIssuerInvalid,
    /// The presented token's validity window has passed.
    TokenExpired,
    /// The presented token's validity window has not begun.
    TokenNotYetValid,
    /// The presented token has no active store row: revoked or never issued.
    TokenRevoked,
    /// The claim's subject is not a user identifier.
    SubjectInvalid,
    /// The claim's subject names no stored user.
    UserMissing,
    /// The account is disabled.
    AccountInactive,
    /// The account's email is not verified.
    AccountUnverified,
}

/// The caller-visible failure: one uniform kind for every credential or
/// identity cause.
#[derive(Clone, Copy, Debug, PartialEq, Eq, Structural)]
pub enum BackendError {
    /// Authentication failed; no further detail crosses the boundary.
    AuthenticationError,
}

/// The total mapping table from internal tag to external outcome.
pub open spec fn spec_external_outcome(reason: AuthFailureReason) -> BackendError {
    match reason {
        AuthFailureReason::EmailUnknown => BackendError::AuthenticationError,
        AuthFailureReason::PasswordMismatch => BackendError::AuthenticationError,
        AuthFailureReason::TokenMalformed => BackendError::AuthenticationError,
        AuthFailureReason::TokenSignatureInvalid => BackendError::AuthenticationError,
        AuthFailureReason::TokenIssuerInvalid => BackendError::AuthenticationError,
        AuthFailureReason::TokenExpired => BackendError::AuthenticationError,
        AuthFailureReason::TokenNotYetValid => BackendError::AuthenticationError,
        AuthFailureReason::TokenRevoked => BackendError::AuthenticationError,
        AuthFailureReason::SubjectInvalid => BackendError::AuthenticationError,
        AuthFailureReason::UserMissing => BackendError::AuthenticationError,
        AuthFailureReason::AccountInactive => BackendError::AuthenticationError,
        AuthFailureReason::AccountUnverified => BackendError::AuthenticationError,
    }
}

/// Apply the mapping table.
pub fn external_outcome(reason: AuthFailureReason) -> (e: BackendError)
    ensures
        e == spec_external_outcome(reason),
{
    match reason {
        AuthFailureReason::EmailUnknown => BackendError::AuthenticationError,
        AuthFailureReason::PasswordMismatch => BackendError::AuthenticationError,
        AuthFailureReason::TokenMalformed => BackendError::AuthenticationError,
        AuthFailureReason::TokenSignatureInvalid => BackendError::AuthenticationError,
        AuthFailureReason::TokenIssuerInvalid => BackendError::AuthenticationError,
        AuthFailureReason::TokenExpired => BackendError::AuthenticationError,
        AuthFailureReason::TokenNotYetValid => BackendError::AuthenticationError,
        AuthFailureReason::TokenRevoked => BackendError::AuthenticationError,
        AuthFailureReason::SubjectInvalid => BackendError::AuthenticationError,
        AuthFailureReason::UserMissing => BackendError::AuthenticationError,
        AuthFailureReason::AccountInactive => BackendError::AuthenticationError,
        AuthFailureReason::AccountUnverified => BackendError::AuthenticationError,
    }
}

/// The internal tag for each way a token can fail to decode.
pub fn reason_of_decode_error(e: DecodeError) -> (r: AuthFailureReason)
    ensures
        spec_external_outcome(r) == BackendError::AuthenticationError,
{
    match e {
        DecodeError::Malformed => AuthFailureReason::TokenMalformed,
        DecodeError::InvalidSignature => AuthFailureReason::TokenSignatureInvalid,
        DecodeError::InvalidIssuer => AuthFailureReason::TokenIssuerInvalid,
        DecodeError::ExpiredSignature => AuthFailureReason::TokenExpired,
        DecodeError::NotYetValid => AuthFailureReason::TokenNotYetValid,
    }
}

/// Enumeration resistance: any two internal causes map to the same
/// caller-visible outcome, so the caller learns nothing from the kind of
/// failure — a wrong password and an unknown email are indistinguishable.
pub proof fn lemma_uniform_failure(r1: AuthFailureReason, r2: AuthFailureReason)
    ensures
        spec_external_outcome(r1) == spec_external_outcome(r2),
{
}

/// The one message every failed attempt shows the caller.
pub fn error_message(e: &BackendError) -> (m: String)
    ensures
        m@ == "Authentication failed!"@,
{
    match e {
        BackendError::AuthenticationError => String::from_str("Authentication failed!"),
    }
}

} // verus!
