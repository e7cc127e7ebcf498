//! The login / refresh / logout / password-update flows, driven the way an
//! application drives them: the external hasher is played by a plain
//! keyed-format function, and the clock is a test-chosen instant.

use auth_core::auth::{AuthenticationService, TokenPair};
use auth_core::error::BackendError;

const NOW: u64 = 1_700_000_000;

fn secret() -> Vec<u8> {
    b"0123456789abcdefghijklmnopqrstuvwxyzABCDEFGHIJKLMNOPQRSTUVWX".to_vec()
}

/// Stand-in for the external password hasher.
fn hash_password(plain: &str) -> String {
    format!("hashed:{plain}")
}

fn service_with_user(email: &str, password: &str) -> (AuthenticationService, u64) {
    let mut svc = AuthenticationService::new(secret());
    let id = svc
        .add_user(String::from(email), hash_password(password), true, true)
        .expect("fresh email registers");
    (svc, id)
}

fn login(svc: &mut AuthenticationService, email: &str, password: &str) -> Result<TokenPair, BackendError> {
    let user = svc.login_lookup(email)?;
    let verified = user.password_hash == hash_password(password);
    svc.login_finish(user.id, verified, NOW)
}

#[test]
fn login_issues_a_pair() {
    let (mut svc, id) = service_with_user("a@x.com", "p");
    let pair = login(&mut svc, "a@x.com", "p").expect("correct credentials log in");
    assert!(!pair.access_token.as_str().is_empty());
    assert!(!pair.refresh_token.is_empty());
    assert_ne!(pair.access_token.as_str(), pair.refresh_token);
    assert_eq!(svc.store_ref().count_active_for_user(id), 1);
}

#[test]
fn enumeration_resistance() {
    let (mut svc, _) = service_with_user("a@x.com", "p");
    let unknown_email = login(&mut svc, "b@x.com", "p").unwrap_err();
    let wrong_password = login(&mut svc, "a@x.com", "q").unwrap_err();
    assert_eq!(unknown_email, wrong_password);
    assert_eq!(unknown_email, BackendError::AuthenticationError);
}

#[test]
fn single_use_rotation() {
    let (mut svc, id) = service_with_user("a@x.com", "p");
    let first = login(&mut svc, "a@x.com", "p").expect("login");
    let rt1 = first.refresh_token.clone();

    let second = svc.refresh(&rt1, NOW + 10).expect("an active refresh token rotates");
    let rt2 = second.refresh_token.clone();
    assert_ne!(rt1, rt2);

    // the redeemed token's row is no longer active
    assert!(svc.store_ref().find_active_by_token(&rt1).is_none());
    assert!(svc.store_ref().find_active_by_token(&rt2).is_some());
    assert_eq!(svc.store_ref().count_active_for_user(id), 1);

    // presenting the old token again fails with the uniform failure
    let replay = svc.refresh(&rt1, NOW + 20).unwrap_err();
    assert_eq!(replay, BackendError::AuthenticationError);
}

#[test]
fn concurrent_style_double_redemption_yields_one_success() {
    // Two callers hold the same refresh token; whoever reaches the store's
    // atomic revoke first wins, the second redemption must fail.
    let (mut svc, _) = service_with_user("a@x.com", "p");
    let pair = login(&mut svc, "a@x.com", "p").expect("login");
    let token = pair.refresh_token;
    let outcomes = [svc.refresh(&token, NOW + 1).is_ok(), svc.refresh(&token, NOW + 2).is_ok()];
    assert_eq!(outcomes.iter().filter(|ok| **ok).count(), 1);
}

#[test]
fn refresh_rejects_foreign_and_expired_tokens() {
    let (mut svc, _) = service_with_user("a@x.com", "p");
    let pair = login(&mut svc, "a@x.com", "p").expect("login");

    // same string, later than the embedded expiry
    let too_late = NOW + auth_core::claim::REFRESH_TOKEN_DURATION + 1;
    assert!(svc.refresh(&pair.refresh_token, too_late).is_err());

    // a token signed under another secret
    let mut other = AuthenticationService::new(b"another-secret-entirely".to_vec());
    other.add_user(String::from("a@x.com"), hash_password("p"), true, true);
    let foreign = {
        let user = other.login_lookup("a@x.com").unwrap();
        other.login_finish(user.id, true, NOW).unwrap().refresh_token
    };
    assert_eq!(svc.refresh(&foreign, NOW + 1).unwrap_err(), BackendError::AuthenticationError);

    // an access token was never persisted as a refresh row
    let access = pair.access_token.into_string();
    assert_eq!(svc.refresh(&access, NOW + 1).unwrap_err(), BackendError::AuthenticationError);
}

#[test]
fn logout_revokes_the_whole_chain() {
    let (mut svc, id) = service_with_user("a@x.com", "p");
    login(&mut svc, "a@x.com", "p").expect("login once");
    let pair = login(&mut svc, "a@x.com", "p").expect("login twice");
    assert_eq!(svc.store_ref().count_active_for_user(id), 2);

    let rows = svc.logout(&pair.refresh_token, NOW + 5).expect("active token logs out");
    assert_eq!(rows, 2);
    assert_eq!(svc.store_ref().count_active_for_user(id), 0);

    // the chain is gone: logging out again fails uniformly
    assert_eq!(svc.logout(&pair.refresh_token, NOW + 6).unwrap_err(), BackendError::AuthenticationError);
}

#[test]
fn login_refresh_logout_end_to_end() {
    let (mut svc, _) = service_with_user("a@x.com", "p");
    let (_at1, rt1) = {
        let p = login(&mut svc, "a@x.com", "p").expect("login");
        (p.access_token, p.refresh_token)
    };
    let (_at2, rt2) = {
        let p = svc.refresh(&rt1, NOW + 10).expect("refresh");
        (p.access_token, p.refresh_token)
    };
    let rows = svc.logout(&rt2, NOW + 20).expect("logout");
    assert_eq!(rows, 1);
    assert!(svc.refresh(&rt2, NOW + 30).is_err());
}

#[test]
fn update_password_rotates_credentials_and_hash() {
    let (mut svc, id) = service_with_user("a@x.com", "old-pw");
    let pair = login(&mut svc, "a@x.com", "old-pw").expect("login");

    let user = svc
        .update_password_lookup(pair.access_token.as_str(), NOW + 1)
        .expect("a live access token resolves its subject");
    assert_eq!(user.id, id);
    let verified = user.password_hash == hash_password("old-pw");
    assert!(verified);
    let new_pair = svc
        .update_password_finish(user.id, verified, hash_password("new-pw"), NOW + 1)
        .expect("the update goes through");

    // the old refresh token was revoked along the way, the new one works
    assert!(svc.refresh(&pair.refresh_token, NOW + 2).is_err());
    assert!(svc.refresh(&new_pair.refresh_token, NOW + 2).is_ok());

    // and only the new password logs in now
    assert!(login(&mut svc, "a@x.com", "old-pw").is_err());
    assert!(login(&mut svc, "a@x.com", "new-pw").is_ok());
}

#[test]
fn update_password_requires_live_account() {
    let mut svc = AuthenticationService::new(secret());
    let id = svc
        .add_user(String::from("a@x.com"), hash_password("p"), true, false)
        .expect("registers");
    let user = svc.login_lookup("a@x.com").expect("email resolves");
    let pair = svc.login_finish(user.id, true, NOW).expect("login");
    // the account's email is not verified: the lookup refuses uniformly
    let err = svc.update_password_lookup(pair.access_token.as_str(), NOW + 1).unwrap_err();
    assert_eq!(err, BackendError::AuthenticationError);
    assert_eq!(id, user.id);
}

#[test]
fn wrong_old_password_rejected() {
    let (mut svc, id) = service_with_user("a@x.com", "p");
    let err = svc
        .update_password_finish(id, false, hash_password("new"), NOW)
        .unwrap_err();
    assert_eq!(err, BackendError::AuthenticationError);
}

#[test]
fn duplicate_email_refused() {
    let (mut svc, _) = service_with_user("a@x.com", "p");
    assert!(svc.add_user(String::from("a@x.com"), hash_password("q"), true, true).is_none());
}
