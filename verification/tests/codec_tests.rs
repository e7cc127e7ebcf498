//! The claim codec, exercised end to end with real HMAC signatures.

use auth_core::claim::{Claim, TokenType, ACCESS_TOKEN_DURATION};
use auth_core::codec::{decode, encode, DecodeError};

fn secret() -> Vec<u8> {
    b"0123456789abcdefghijklmnopqrstuvwxyzABCDEFGHIJKLMNOPQRSTUVWX".to_vec()
}

fn sample_claim() -> Claim {
    Claim {
        issuer: String::from("auth_core"),
        subject: String::from("42"),
        token_type: TokenType::Access,
        issued_at: 1_700_000_000,
        expires_at: 1_700_000_000 + ACCESS_TOKEN_DURATION,
        not_before: None,
        token_id: 7,
    }
}

#[test]
fn round_trip_reproduces_claim() {
    let s = secret();
    let token = encode(&sample_claim(), &s);
    let claim = decode(&token, &s, 1_700_000_010).expect("a live claim decodes");
    assert_eq!(claim.issuer, "auth_core");
    assert_eq!(claim.subject, "42");
    assert!(matches!(claim.token_type, TokenType::Access));
    assert_eq!(claim.issued_at, 1_700_000_000);
    assert_eq!(claim.expires_at, 1_700_000_000 + ACCESS_TOKEN_DURATION);
    assert_eq!(claim.not_before, None);
    assert_eq!(claim.token_id, 7);
}

#[test]
fn round_trip_keeps_not_before() {
    let s = secret();
    let mut c = sample_claim();
    c.not_before = Some(1_699_999_000);
    let token = encode(&c, &s);
    let claim = decode(&token, &s, 1_700_000_010).expect("a live claim decodes");
    assert_eq!(claim.not_before, Some(1_699_999_000));
}

#[test]
fn expired_claim_rejected() {
    let s = secret();
    let token = encode(&sample_claim(), &s);
    let err = decode(&token, &s, 1_700_000_000 + ACCESS_TOKEN_DURATION + 1).unwrap_err();
    assert_eq!(err, DecodeError::ExpiredSignature);
}

#[test]
fn wrong_secret_rejected() {
    let token = encode(&sample_claim(), &secret());
    let other = b"a-completely-different-signing-secret-of-some-length!!!".to_vec();
    let err = decode(&token, &other, 1_700_000_010).unwrap_err();
    assert_eq!(err, DecodeError::InvalidSignature);
}

#[test]
fn wrong_issuer_rejected() {
    let s = secret();
    let mut c = sample_claim();
    c.issuer = String::from("somebody_else");
    let token = encode(&c, &s);
    let err = decode(&token, &s, 1_700_000_010).unwrap_err();
    assert_eq!(err, DecodeError::InvalidIssuer);
}

#[test]
fn not_yet_valid_rejected() {
    let s = secret();
    let mut c = sample_claim();
    c.not_before = Some(1_700_000_100);
    let token = encode(&c, &s);
    let err = decode(&token, &s, 1_700_000_010).unwrap_err();
    assert_eq!(err, DecodeError::NotYetValid);
    assert!(decode(&token, &s, 1_700_000_100).is_ok());
}

#[test]
fn malformed_strings_rejected() {
    let s = secret();
    assert_eq!(decode("", &s, 0).unwrap_err(), DecodeError::Malformed);
    assert_eq!(decode("not a token", &s, 0).unwrap_err(), DecodeError::Malformed);
    assert_eq!(decode("a.b.c", &s, 0).unwrap_err(), DecodeError::Malformed);
    // right shape, but the numeric fields do not parse
    assert_eq!(
        decode("auth_core.42.access.soon.later.none.7.sig", &s, 0).unwrap_err(),
        DecodeError::Malformed
    );
    // too many separators
    let token = encode(&sample_claim(), &s);
    let mangled = format!("{token}.extra");
    assert_eq!(decode(&mangled, &s, 0).unwrap_err(), DecodeError::Malformed);
}

#[test]
fn tampered_payload_rejected() {
    let s = secret();
    let token = encode(&sample_claim(), &s);
    // swap the subject 42 for 43: the tag no longer verifies
    let tampered = token.replace(".42.", ".43.");
    assert_ne!(token, tampered);
    let err = decode(&tampered, &s, 1_700_000_010).unwrap_err();
    assert_eq!(err, DecodeError::InvalidSignature);
}

#[test]
fn encoding_is_deterministic() {
    let s = secret();
    assert_eq!(encode(&sample_claim(), &s), encode(&sample_claim(), &s));
    let mut other = sample_claim();
    other.token_id = 8;
    assert_ne!(encode(&sample_claim(), &s), encode(&other, &s));
}
