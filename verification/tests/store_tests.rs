//! The store model: row insertion and bulk revocation.

use auth_core::store::AuthStore;

#[test]
fn create_database_record() {
    let mut store = AuthStore::new();
    let user_id = store
        .add_user(String::from("a@x.com"), String::from("hashed:p"), true, true)
        .expect("fresh email registers");

    let record = store.insert_refresh_token(user_id, String::from("opaque-bearer-string"), 1_700_000_000);

    assert_eq!(record.id, 0);
    assert_eq!(record.user_id, user_id);
    assert_eq!(record.token, "opaque-bearer-string");
    assert!(record.is_active);
    assert_eq!(record.created_on, 1_700_000_000);

    // the stored row is found by its exact token string
    let found = store.find_active_by_token("opaque-bearer-string").expect("active row found");
    assert_eq!(found.id, record.id);
    assert!(store.find_active_by_token("some-other-string").is_none());
}

#[test]
fn insert_create_database_record() {
    let mut store = AuthStore::new();
    let user_id = store
        .add_user(String::from("b@x.com"), String::from("hashed:q"), true, true)
        .expect("fresh email registers");

    let database_record = store.insert_refresh_token(user_id, String::from("session-token"), 1_700_000_500);

    // the stored row reflects what was handed in, plus the assigned id
    assert_eq!(database_record.user_id, user_id);
    assert_eq!(database_record.token, "session-token");
    assert!(database_record.is_active);
    assert_eq!(database_record.created_on, 1_700_000_500);
    let found = store.find_active_by_token("session-token").expect("row persisted");
    assert_eq!(found.id, database_record.id);
    assert_eq!(found.user_id, database_record.user_id);
    assert_eq!(found.token, database_record.token);
    assert_eq!(found.is_active, database_record.is_active);
    assert_eq!(found.created_on, database_record.created_on);
}

#[test]
fn bulk_revoke_idempotent() {
    let mut store = AuthStore::new();
    let alice = store
        .add_user(String::from("a@x.com"), String::from("hashed:p"), true, true)
        .expect("registers");
    let bob = store
        .add_user(String::from("b@x.com"), String::from("hashed:q"), true, true)
        .expect("registers");

    store.insert_refresh_token(alice, String::from("t1"), 1);
    store.insert_refresh_token(alice, String::from("t2"), 2);
    store.insert_refresh_token(bob, String::from("t3"), 3);
    assert_eq!(store.count_active_for_user(alice), 2);

    // one revocation flips both of alice's rows, and only hers
    let rows = store.revoke_all_for_user(alice);
    assert_eq!(rows, 2);
    assert_eq!(store.count_active_for_user(alice), 0);
    assert_eq!(store.count_active_for_user(bob), 1);

    // revoking again affects zero additional rows
    let again = store.revoke_all_for_user(alice);
    assert_eq!(again, 0);
    assert_eq!(store.count_active_for_user(alice), 0);
}

#[test]
fn revoked_rows_stay_revoked() {
    let mut store = AuthStore::new();
    let alice = store
        .add_user(String::from("a@x.com"), String::from("hashed:p"), true, true)
        .expect("registers");
    store.insert_refresh_token(alice, String::from("t1"), 1);
    store.revoke_all_for_user(alice);
    assert!(store.find_active_by_token("t1").is_none());

    // a later row for the same user does not resurrect the old one
    store.insert_refresh_token(alice, String::from("t4"), 4);
    assert!(store.find_active_by_token("t1").is_none());
    assert!(store.find_active_by_token("t4").is_some());
}

#[test]
fn user_rows_resolve_by_email_and_id() {
    let mut store = AuthStore::new();
    let id = store
        .add_user(String::from("a@x.com"), String::from("hashed:p"), true, false)
        .expect("registers");
    let by_email = store.find_user_by_email("a@x.com").expect("email resolves");
    assert_eq!(by_email.id, id);
    assert!(by_email.is_active);
    assert!(!by_email.is_verified);
    let by_id = store.find_user_by_id(id).expect("id resolves");
    assert_eq!(by_id.email, "a@x.com");
    assert!(store.find_user_by_email("b@x.com").is_none());
    assert!(store.find_user_by_id(id + 1).is_none());
}

#[test]
fn password_update_touches_one_row() {
    let mut store = AuthStore::new();
    let alice = store
        .add_user(String::from("a@x.com"), String::from("hashed:p"), true, true)
        .expect("registers");
    let bob = store
        .add_user(String::from("b@x.com"), String::from("hashed:q"), true, true)
        .expect("registers");
    assert!(store.update_user_password(alice, String::from("hashed:r")));
    assert_eq!(store.find_user_by_id(alice).unwrap().password_hash, "hashed:r");
    assert_eq!(store.find_user_by_id(bob).unwrap().password_hash, "hashed:q");
    assert!(!store.update_user_password(999, String::from("hashed:x")));
}
