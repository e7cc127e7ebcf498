//! Access tokens and the decimal field encoding.

use auth_core::access_token::AccessToken;
use auth_core::claim::{TokenType, ACCESS_TOKEN_DURATION};
use auth_core::codec::decode;
use auth_core::digits::parse_u64;

#[test]
fn generate_new_access_token() {
    // a sixty-character signing secret, as the deployment would use
    let secret = b"0123456789012345678901234567890123456789012345678901234567-60".to_vec();
    let user_id: u64 = 31_415_926;

    let access_token = AccessToken::new(&secret, user_id, 1_700_000_000);

    let token_claim = decode(access_token.as_str(), &secret, 1_700_000_001)
        .expect("a freshly issued access token decodes");
    assert_eq!(token_claim.issuer, "auth_core");
    assert_eq!(token_claim.subject, user_id.to_string());
    assert!(matches!(token_claim.token_type, TokenType::Access));
}

#[test]
fn access_token_lifetime_is_five_minutes() {
    let secret = b"some-signing-secret".to_vec();
    assert_eq!(ACCESS_TOKEN_DURATION, 300);
    let token = AccessToken::new(&secret, 1, 1_000);
    let claim = decode(token.as_str(), &secret, 1_000).expect("decodes");
    assert_eq!(claim.issued_at, 1_000);
    assert_eq!(claim.expires_at, 1_300);
    assert!(decode(token.as_str(), &secret, 1_300).is_ok());
    assert!(decode(token.as_str(), &secret, 1_301).is_err());
}

#[test]
fn access_token_is_pure_in_its_inputs() {
    let secret = b"some-signing-secret".to_vec();
    let a = AccessToken::new(&secret, 7, 1_000);
    let b = AccessToken::new(&secret, 7, 1_000);
    let c = AccessToken::new(&secret, 8, 1_000);
    assert_eq!(a.as_str(), b.as_str());
    assert_ne!(a.as_str(), c.as_str());
}

#[test]
fn decimal_fields_parse_exactly() {
    assert_eq!(parse_u64("0"), Some(0));
    assert_eq!(parse_u64("42"), Some(42));
    assert_eq!(parse_u64("18446744073709551615"), Some(u64::MAX));
    assert_eq!(parse_u64(""), None);
    assert_eq!(parse_u64("007"), None);
    assert_eq!(parse_u64("-1"), None);
    assert_eq!(parse_u64("4 2"), None);
    assert_eq!(parse_u64("18446744073709551616"), None);
    assert_eq!(parse_u64("99999999999999999999999"), None);
}
