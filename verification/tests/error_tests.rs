//! The failure taxonomy: every internal cause collapses to one outcome.

use auth_core::codec::DecodeError;
use auth_core::error::{error_message, external_outcome, reason_of_decode_error, AuthFailureReason,
    BackendError};

#[test]
fn every_cause_maps_to_the_same_outcome() {
    let causes = [
        AuthFailureReason::EmailUnknown,
        AuthFailureReason::PasswordMismatch,
        AuthFailureReason::TokenMalformed,
        AuthFailureReason::TokenSignatureInvalid,
        AuthFailureReason::TokenIssuerInvalid,
        AuthFailureReason::TokenExpired,
        AuthFailureReason::TokenNotYetValid,
        AuthFailureReason::TokenRevoked,
        AuthFailureReason::SubjectInvalid,
        AuthFailureReason::UserMissing,
        AuthFailureReason::AccountInactive,
        AuthFailureReason::AccountUnverified,
    ];
    for cause in causes {
        assert_eq!(external_outcome(cause), BackendError::AuthenticationError);
    }
}

#[test]
fn decode_errors_collapse_too() {
    let decode_errors = [
        DecodeError::Malformed,
        DecodeError::InvalidSignature,
        DecodeError::InvalidIssuer,
        DecodeError::ExpiredSignature,
        DecodeError::NotYetValid,
    ];
    for e in decode_errors {
        let reason = reason_of_decode_error(e);
        assert_eq!(external_outcome(reason), BackendError::AuthenticationError);
    }
}

#[test]
fn one_message_for_the_caller() {
    let m = error_message(&BackendError::AuthenticationError);
    assert_eq!(m, "Authentication failed!");
}
