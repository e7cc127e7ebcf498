//! The authentication orchestrator and the refresh-token manager.
//!
//! One service owns the signing secret and the store, and composes the
//! flows: login, refresh, password update, logout.  Every flow validates
//! any presented token first, resolves the referenced user, enforces the
//! account-state checks, performs its mutation, and only then issues a
//! fresh access/refresh pair.
//!
//! Login and password update verify a password against a stored hash; the
//! hasher is an external capability, so those flows come in two verified
//! halves — a lookup that hands out the stored hash, and a finish that takes
//! the hasher's verdict — with the unverified hasher call between them made
//! by the caller.  Refresh and logout never touch the hasher and are single
//! verified functions, end to end.
//!
//! Rotation is single-use: a successful `refresh` leaves no active row
//! carrying the redeemed token — the whole chain of the owning user is
//! revoked in one store operation and the replacement row carries a provably
//! different token string.  That guarantee is an `ensures` of [`refresh`].

use crate::access_token::{spec_access_token, AccessToken};
use crate::claim::{claim_wf, spec_issuer, token_issuer, Claim, ClaimV, TokenType,
    MAX_ISSUE_TIME, REFRESH_TOKEN_DURATION};
use crate::codec::{decode, encode, hmac_sig, signing_input, spec_decode, token_of,
    lemma_digits_wire, lemma_encode_decode_round_trip};
use crate::digits::{dec_str, parse_u64, push_decimal, spec_parse_u64, lemma_dec_str_canonical,
    lemma_dec_str_injective, lemma_parse_dec_str};
use crate::error::{external_outcome, reason_of_decode_error, AuthFailureReason, BackendError};
use crate::store::{spec_active_count, spec_revoke_all, store_wf, AuthStore, RefreshV,
    StoreV, UserRecord, lemma_revoke_all_index};
use vstd::prelude::*;

verus! {

/// A freshly issued credential pair: the short-lived access token and the
/// rotating refresh-token string.
#[derive(Debug)]
pub struct TokenPair {
    /// Self-validating bearer credential.
    pub access_token: AccessToken,
    /// Store-validated bearer string.
    pub refresh_token: String,
}

/// The claim inside a refresh token: subject `user_id`, issued at `issued`,
/// valid for [`REFRESH_TOKEN_DURATION`] seconds, tied to its store row by
/// `token_id`.
pub open spec fn spec_refresh_claim(user_id: u64, token_id: u64, issued: u64) -> ClaimV {
    ClaimV {
        issuer: spec_issuer(),
        subject: dec_str(user_id as nat),
        token_type: TokenType::Refresh,
        issued_at: issued,
        expires_at: (issued + REFRESH_TOKEN_DURATION) as u64,
        not_before: None,
        token_id,
    }
}

/// The wire string of a refresh token.
pub open spec fn spec_refresh_token(secret: Seq<u8>, user_id: u64, token_id: u64, issued: u64) -> Seq<
    char,
> {
    token_of(secret, spec_refresh_claim(user_id, token_id, issued))
}

/// Mathematical image of the service: the signing secret and the store.
#[verifier::ext_equal]
pub struct ServiceV {
    pub secret: Seq<u8>,
    pub store: StoreV,
}

/// Every refresh-token row is the signed image of its own fields.
spec fn record_bound(secret: Seq<u8>, r: RefreshV) -> bool {
    &&& r.created_on <= MAX_ISSUE_TIME
    &&& r.token == spec_refresh_token(secret, r.user_id, r.id, r.created_on)
    &&& crate::claim::wire_text(
        hmac_sig(secret, signing_input(spec_refresh_claim(r.user_id, r.id, r.created_on))),
    )
}

/// Service sanity: the store is sane, and every refresh-token row was
/// signed by this service for an existing user.  Established at
/// construction and preserved by every flow.
pub closed spec fn service_wf(sv: ServiceV) -> bool {
    &&& store_wf(sv.store)
    &&& forall|i: int|
        0 <= i < sv.store.tokens.len() ==> #[trigger] record_bound(sv.secret, sv.store.tokens[i])
    &&& forall|i: int|
        0 <= i < sv.store.tokens.len() ==> (#[trigger] sv.store.tokens[i].user_id)
            < sv.store.users.len()
}

/// Authentication service: the signing secret and the store handle, owned
/// at construction and threaded through every flow.
pub struct AuthenticationService {
    secret: Vec<u8>,
    store: AuthStore,
}

impl View for AuthenticationService {
    type V = ServiceV;

    closed spec fn view(&self) -> ServiceV {
        ServiceV { secret: self.secret@, store: self.store@ }
    }
}

/// The refresh claim is a well-formed claim of this issuer.
proof fn lemma_refresh_claim_wf(user_id: u64, token_id: u64, issued: u64)
    ensures
        claim_wf(spec_refresh_claim(user_id, token_id, issued)),
        spec_refresh_claim(user_id, token_id, issued).issuer == spec_issuer(),
{
    reveal_strlit("auth_core");
    assert(crate::claim::wire_text(spec_issuer()));
    lemma_dec_str_canonical(user_id as nat);
    lemma_digits_wire(dec_str(user_id as nat));
}

impl AuthenticationService {
    /// A fresh service around `secret`, with an empty store.
    pub fn new(secret: Vec<u8>) -> (s: AuthenticationService)
        ensures
            s@.secret == secret@,
            s@.store.users =~= Seq::<crate::store::UserV>::empty(),
            s@.store.tokens =~= Seq::<RefreshV>::empty(),
            s@.store.next_token_id == 0,
            service_wf(s@),
    {
        AuthenticationService { secret, store: AuthStore::new() }
    }

    /// Read access to the store, for inspection.
    pub fn store_ref(&self) -> (r: &AuthStore)
        ensures
            r@ == self@.store,
    {
        &self.store
    }

    /// Register a user row, unless the email is taken.  Returns the new
    /// user's identifier.
    pub fn add_user(
        &mut self,
        email: String,
        password_hash: String,
        is_active: bool,
        is_verified: bool,
    ) -> (r: Option<u64>)
        requires
            service_wf(old(self)@),
            old(self)@.store.users.len() < 0xFFFF_FFFF_FFFF_FFFF,
        ensures
            service_wf(final(self)@),
            final(self)@.secret == old(self)@.secret,
            final(self)@.store.tokens == old(self)@.store.tokens,
            final(self)@.store.next_token_id == old(self)@.store.next_token_id,
            match r {
                Some(id) => {
                    &&& id == old(self)@.store.users.len()
                    &&& final(self)@.store.users =~= old(self)@.store.users.push(
                        crate::store::UserV {
                            id,
                            email: email@,
                            password_hash: password_hash@,
                            is_active,
                            is_verified,
                        },
                    )
                    &&& forall|i: int|
                        0 <= i < old(self)@.store.users.len() ==> #[trigger] old(
                            self,
                        )@.store.users[i].email != email@
                },
                None => {
                    &&& final(self)@.store.users == old(self)@.store.users
                    &&& exists|i: int|
                        0 <= i < old(self)@.store.users.len() && #[trigger] old(
                            self,
                        )@.store.users[i].email == email@
                },
            },
    {
        let r = self.store.add_user(email, password_hash, is_active, is_verified);
        proof {
            assert forall|k: int|
                0 <= k < self@.store.tokens.len() implies #[trigger] record_bound(
                self@.secret,
                self@.store.tokens[k],
            ) && (#[trigger] self@.store.tokens[k].user_id) < self@.store.users.len() by {
                assert(record_bound(old(self)@.secret, old(self)@.store.tokens[k]));
                assert(old(self)@.store.tokens[k].user_id < old(self)@.store.users.len());
            }
            assert(service_wf(self@));
        }
        r
    }

    /// First half of login: resolve the email to its user row, so the
    /// caller can hand the stored hash to the external hasher.  Fails
    /// uniformly when no user carries the email.
    pub fn login_lookup(&self, email: &str) -> (r: Result<UserRecord, BackendError>)
        ensures
            match r {
                Ok(u) => exists|i: int|
                    0 <= i < self@.store.users.len() && #[trigger] self@.store.users[i] == u@
                        && u@.email == email@,
                Err(e) => {
                    &&& e == BackendError::AuthenticationError
                    &&& forall|i: int|
                        0 <= i < self@.store.users.len() ==> #[trigger] self@.store.users[i].email
                            != email@
                },
            },
    {
        match self.store.find_user_by_email(email) {
            Some(u) => {
                proof {
                    let i = choose|i: int|
                        0 <= i < self.store@.users.len() && #[trigger] self.store@.users[i] == u@
                            && u@.email == email@;
                    assert(self@.store.users[i] == u@);
                }
                Ok(u)
            },
            None => Err(external_outcome(AuthFailureReason::EmailUnknown)),
        }
    }

    /// Second half of login: given the hasher's verdict on the password,
    /// either issue a fresh credential pair and persist its refresh-token
    /// row, or fail uniformly, leaving the store untouched.
    pub fn login_finish(&mut self, user_id: u64, password_verified: bool, now: u64) -> (r: Result<
        TokenPair,
        BackendError,
    >)
        requires
            service_wf(old(self)@),
            now <= MAX_ISSUE_TIME,
            old(self)@.store.next_token_id < 0xFFFF_FFFF_FFFF_FFFF,
        ensures
            service_wf(final(self)@),
            final(self)@.secret == old(self)@.secret,
            final(self)@.store.users == old(self)@.store.users,
            match r {
                Ok(pair) => {
                    &&& password_verified
                    &&& exists|j: int|
                        0 <= j < old(self)@.store.users.len() && #[trigger] old(
                            self,
                        )@.store.users[j].id == user_id
                    &&& pair.access_token@ == spec_access_token(old(self)@.secret, user_id, now)
                    &&& pair.refresh_token@ == spec_refresh_token(
                        old(self)@.secret,
                        user_id,
                        old(self)@.store.next_token_id,
                        now,
                    )
                    &&& final(self)@.store.tokens =~= old(self)@.store.tokens.push(
                        RefreshV {
                            id: old(self)@.store.next_token_id,
                            user_id,
                            token: pair.refresh_token@,
                            is_active: true,
                            created_on: now,
                        },
                    )
                    &&& final(self)@.store.next_token_id == old(self)@.store.next_token_id + 1
                },
                Err(e) => {
                    &&& e == BackendError::AuthenticationError
                    &&& final(self)@ == old(self)@
                    &&& (!password_verified || forall|j: int|
                        0 <= j < old(self)@.store.users.len() ==> #[trigger] old(
                            self,
                        )@.store.users[j].id != user_id)
                },
            },
    {
        if !password_verified {
            return Err(external_outcome(AuthFailureReason::PasswordMismatch));
        }
        match self.store.find_user_by_id(user_id) {
            None => Err(external_outcome(AuthFailureReason::UserMissing)),
            Some(user) => {
                proof {
                    let j = choose|j: int|
                        0 <= j < self@.store.users.len() && #[trigger] self@.store.users[j]
                            == user@;
                    assert(self@.store.users[j].id == j as u64);
                }
                let pair = self.issue_pair(user_id, now);
                Ok(pair)
            },
        }
    }

    /// Redeem a refresh token: validate the presented string as a signed
    /// claim *and* against the store, then rotate — revoke the owning
    /// user's whole chain in one store operation and issue a fresh pair.
    ///
    /// Single use: on success, no active row carries the redeemed token any
    /// longer, so presenting it again fails; the replacement row's token is
    /// a provably different string.  On failure nothing changes.
    pub fn refresh(&mut self, token: &str, now: u64) -> (r: Result<TokenPair, BackendError>)
        requires
            service_wf(old(self)@),
            now <= MAX_ISSUE_TIME,
            old(self)@.store.next_token_id < 0xFFFF_FFFF_FFFF_FFFF,
        ensures
            service_wf(final(self)@),
            final(self)@.secret == old(self)@.secret,
            final(self)@.store.users == old(self)@.store.users,
            match r {
                Ok(pair) => (spec_decode(old(self)@.secret, token@, now) matches Ok(c)
                    && spec_parse_u64(c.subject) matches Some(uid) && {
                    &&& exists|i: int|
                        0 <= i < old(self)@.store.tokens.len() && (#[trigger] old(
                            self,
                        )@.store.tokens[i]).is_active && old(self)@.store.tokens[i].token
                            == token@
                    &&& pair.access_token@ == spec_access_token(old(self)@.secret, uid, now)
                    &&& pair.refresh_token@ == spec_refresh_token(
                        old(self)@.secret,
                        uid,
                        old(self)@.store.next_token_id,
                        now,
                    )
                    &&& final(self)@.store.tokens =~= spec_revoke_all(
                        old(self)@.store.tokens,
                        uid,
                    ).push(
                        RefreshV {
                            id: old(self)@.store.next_token_id,
                            user_id: uid,
                            token: pair.refresh_token@,
                            is_active: true,
                            created_on: now,
                        },
                    )
                    &&& final(self)@.store.next_token_id == old(self)@.store.next_token_id + 1
                    &&& forall|k: int|
                        0 <= k < final(self)@.store.tokens.len()
                            ==> !((#[trigger] final(self)@.store.tokens[k]).is_active
                            && final(self)@.store.tokens[k].token == token@)
                }),
                Err(e) => {
                    &&& e == BackendError::AuthenticationError
                    &&& final(self)@ == old(self)@
                    &&& (spec_decode(old(self)@.secret, token@, now) is Err || forall|i: int|
                        0 <= i < old(self)@.store.tokens.len() ==> !((#[trigger] old(
                            self,
                        )@.store.tokens[i]).is_active && old(self)@.store.tokens[i].token
                            == token@))
                },
            },
    {
        let claim = match decode(token, self.secret.as_slice(), now) {
            Ok(c) => c,
            Err(e) => {
                return Err(external_outcome(reason_of_decode_error(e)));
            },
        };
        let record = match self.store.find_active_by_token(token) {
            Some(rec) => rec,
            None => {
                return Err(external_outcome(AuthFailureReason::TokenRevoked));
            },
        };
        proof {
            let i = choose|i: int|
                0 <= i < self@.store.tokens.len() && #[trigger] self@.store.tokens[i] == record@;
            assert(record_bound(self@.secret, record@));
            assert(record@.id < self@.store.next_token_id);
            assert(record@.user_id < self@.store.users.len());
            let rc = spec_refresh_claim(record@.user_id, record@.id, record@.created_on);
            lemma_refresh_claim_wf(record@.user_id, record@.id, record@.created_on);
            lemma_encode_decode_round_trip(self@.secret, rc, now);
            assert(claim@ == rc);
            lemma_parse_dec_str(record@.user_id);
            assert(spec_parse_u64(claim@.subject) == Some(record@.user_id));
        }
        let _revoked = self.store.revoke_all_for_user(record.user_id);
        let user_id = match parse_u64(claim.subject.as_str()) {
            Some(v) => v,
            None => {
                return Err(external_outcome(AuthFailureReason::SubjectInvalid));
            },
        };
        proof {
            lemma_revoke_all_index(old(self)@.store.tokens, record@.user_id);
            assert forall|k: int|
                0 <= k < self@.store.tokens.len() implies #[trigger] record_bound(
                self@.secret,
                self@.store.tokens[k],
            ) by {
                assert(record_bound(old(self)@.secret, old(self)@.store.tokens[k]));
            }
            assert(service_wf(self@));
        }
        let user = match self.store.find_user_by_id(user_id) {
            Some(u) => u,
            None => {
                proof {
                    assert(self@.store.users[record@.user_id as int].id == record@.user_id);
                }
                return Err(external_outcome(AuthFailureReason::UserMissing));
            },
        };
        let pair = self.issue_pair(user_id, now);
        proof {
            let uid = record@.user_id;
            let old_tokens = old(self)@.store.tokens;
            let secret = old(self)@.secret;
            assert(self@.store.tokens =~= spec_revoke_all(old_tokens, uid).push(
                RefreshV {
                    id: old(self)@.store.next_token_id,
                    user_id: uid,
                    token: pair.refresh_token@,
                    is_active: true,
                    created_on: now,
                },
            ));
            let rc = spec_refresh_claim(uid, record@.id, record@.created_on);
            let nc = spec_refresh_claim(uid, old(self)@.store.next_token_id, now);
            assert forall|k: int|
                0 <= k < self@.store.tokens.len() implies !((#[trigger] self@.store.tokens[k]).is_active
                && self@.store.tokens[k].token == token@) by {
                if k < old_tokens.len() {
                    if self@.store.tokens[k].is_active && self@.store.tokens[k].token == token@ {
                        let other = old_tokens[k];
                        assert(other.user_id != uid);
                        assert(other.token == token@);
                        assert(record_bound(secret, other));
                        let oc = spec_refresh_claim(other.user_id, other.id, other.created_on);
                        lemma_refresh_claim_wf(other.user_id, other.id, other.created_on);
                        lemma_refresh_claim_wf(uid, record@.id, record@.created_on);
                        lemma_encode_decode_round_trip(secret, oc, 0);
                        lemma_encode_decode_round_trip(secret, rc, 0);
                        assert(spec_decode(secret, token@, 0) == Ok::<
                            ClaimV,
                            crate::codec::DecodeError,
                        >(oc));
                        assert(spec_decode(secret, token@, 0) == Ok::<
                            ClaimV,
                            crate::codec::DecodeError,
                        >(rc));
                        assert(oc.subject == rc.subject);
                        lemma_dec_str_injective(other.user_id, uid);
                        assert(false);
                    }
                } else {
                    if self@.store.tokens[k].token == token@ {
                        assert(self@.store.tokens[k].token == pair.refresh_token@);
                        assert(record_bound(self@.secret, self@.store.tokens[k]));
                        lemma_refresh_claim_wf(uid, old(self)@.store.next_token_id, now);
                        lemma_refresh_claim_wf(uid, record@.id, record@.created_on);
                        lemma_encode_decode_round_trip(secret, nc, 0);
                        lemma_encode_decode_round_trip(secret, rc, 0);
                        assert(spec_decode(secret, token@, 0) == Ok::<
                            ClaimV,
                            crate::codec::DecodeError,
                        >(nc));
                        assert(spec_decode(secret, token@, 0) == Ok::<
                            ClaimV,
                            crate::codec::DecodeError,
                        >(rc));
                        assert(nc.token_id == rc.token_id);
                        assert(false);
                    }
                }
            }
        }
        Ok(pair)
    }

    /// Log out: validate the presented refresh token, locate its active
    /// store row, and revoke every row of the owning user in one store
    /// operation.  Returns how many rows were revoked.
    pub fn logout(&mut self, token: &str, now: u64) -> (r: Result<u64, BackendError>)
        requires
            service_wf(old(self)@),
        ensures
            service_wf(final(self)@),
            final(self)@.secret == old(self)@.secret,
            final(self)@.store.users == old(self)@.store.users,
            final(self)@.store.next_token_id == old(self)@.store.next_token_id,
            match r {
                Ok(n) => (spec_decode(old(self)@.secret, token@, now) matches Ok(c)
                    && spec_parse_u64(c.subject) matches Some(uid) && {
                    &&& exists|i: int|
                        0 <= i < old(self)@.store.tokens.len() && (#[trigger] old(
                            self,
                        )@.store.tokens[i]).is_active && old(self)@.store.tokens[i].token
                            == token@
                    &&& final(self)@.store.tokens =~= spec_revoke_all(
                        old(self)@.store.tokens,
                        uid,
                    )
                    &&& n == spec_active_count(old(self)@.store.tokens, uid)
                }),
                Err(e) => {
                    &&& e == BackendError::AuthenticationError
                    &&& final(self)@ == old(self)@
                    &&& (spec_decode(old(self)@.secret, token@, now) is Err || forall|i: int|
                        0 <= i < old(self)@.store.tokens.len() ==> !((#[trigger] old(
                            self,
                        )@.store.tokens[i]).is_active && old(self)@.store.tokens[i].token
                            == token@))
                },
            },
    {
        let claim = match decode(token, self.secret.as_slice(), now) {
            Ok(c) => c,
            Err(e) => {
                return Err(external_outcome(reason_of_decode_error(e)));
            },
        };
        let record = match self.store.find_active_by_token(token) {
            Some(rec) => rec,
            None => {
                return Err(external_outcome(AuthFailureReason::TokenRevoked));
            },
        };
        proof {
            let i = choose|i: int|
                0 <= i < self@.store.tokens.len() && #[trigger] self@.store.tokens[i] == record@;
            assert(record_bound(self@.secret, record@));
            let rc = spec_refresh_claim(record@.user_id, record@.id, record@.created_on);
            lemma_refresh_claim_wf(record@.user_id, record@.id, record@.created_on);
            lemma_encode_decode_round_trip(self@.secret, rc, now);
            assert(claim@ == rc);
            lemma_parse_dec_str(record@.user_id);
        }
        let rows = self.store.revoke_all_for_user(record.user_id);
        proof {
            lemma_revoke_all_index(old(self)@.store.tokens, record@.user_id);
            assert forall|k: int|
                0 <= k < self@.store.tokens.len() implies #[trigger] record_bound(
                self@.secret,
                self@.store.tokens[k],
            ) by {
                assert(record_bound(old(self)@.secret, old(self)@.store.tokens[k]));
            }
            assert(service_wf(self@));
        }
        Ok(rows)
    }

    /// First half of a password update: validate the presented access
    /// token, resolve its subject to a user, and require the account to be
    /// active and verified.  Hands out the user row so the caller can check
    /// the old password against the stored hash.
    pub fn update_password_lookup(&self, access_token: &str, now: u64) -> (r: Result<
        UserRecord,
        BackendError,
    >)
        requires
            service_wf(self@),
        ensures
            match r {
                Ok(u) => (spec_decode(self@.secret, access_token@, now) matches Ok(c)
                    && spec_parse_u64(c.subject) matches Some(uid) && {
                    &&& exists|j: int|
                        0 <= j < self@.store.users.len() && #[trigger] self@.store.users[j] == u@
                    &&& u@.id == uid
                    &&& u@.is_active
                    &&& u@.is_verified
                }),
                Err(e) => {
                    &&& e == BackendError::AuthenticationError
                    &&& match spec_decode(self@.secret, access_token@, now) {
                        Err(_) => true,
                        Ok(c) => match spec_parse_u64(c.subject) {
                            None => true,
                            Some(uid) => forall|j: int|
                                0 <= j < self@.store.users.len() ==> !((#[trigger] self@.store.users[j]).id
                                    == uid && self@.store.users[j].is_active
                                    && self@.store.users[j].is_verified),
                        },
                    }
                },
            },
    {
        let claim = match decode(access_token, self.secret.as_slice(), now) {
            Ok(c) => c,
            Err(e) => {
                return Err(external_outcome(reason_of_decode_error(e)));
            },
        };
        let user_id = match parse_u64(claim.subject.as_str()) {
            Some(v) => v,
            None => {
                return Err(external_outcome(AuthFailureReason::SubjectInvalid));
            },
        };
        let user = match self.store.find_user_by_id(user_id) {
            Some(u) => u,
            None => {
                return Err(external_outcome(AuthFailureReason::UserMissing));
            },
        };
        proof {
            let j = choose|j: int|
                0 <= j < self.store@.users.len() && #[trigger] self.store@.users[j] == user@
                    && user@.id == user_id;
            assert(self@.store.users[j] == user@);
        }
        if !user.is_active {
            proof {
                let j = choose|j: int|
                    0 <= j < self@.store.users.len() && #[trigger] self@.store.users[j] == user@;
                assert forall|k: int|
                    0 <= k < self@.store.users.len() implies !((#[trigger] self@.store.users[k]).id
                    == user_id && self@.store.users[k].is_active
                    && self@.store.users[k].is_verified) by {
                    if self@.store.users[k].id == user_id {
                        assert(k == j);
                    }
                }
            }
            return Err(external_outcome(AuthFailureReason::AccountInactive));
        }
        if !user.is_verified {
            proof {
                let j = choose|j: int|
                    0 <= j < self@.store.users.len() && #[trigger] self@.store.users[j] == user@;
                assert forall|k: int|
                    0 <= k < self@.store.users.len() implies !((#[trigger] self@.store.users[k]).id
                    == user_id && self@.store.users[k].is_active
                    && self@.store.users[k].is_verified) by {
                    if self@.store.users[k].id == user_id {
                        assert(k == j);
                    }
                }
            }
            return Err(external_outcome(AuthFailureReason::AccountUnverified));
        }
        Ok(user)
    }

    /// Second half of a password update: given the hasher's verdict on the
    /// old password and the new hash it computed, persist the new hash,
    /// revoke the user's whole refresh-token chain, and issue a fresh pair.
    pub fn update_password_finish(
        &mut self,
        user_id: u64,
        old_password_verified: bool,
        new_password_hash: String,
        now: u64,
    ) -> (r: Result<TokenPair, BackendError>)
        requires
            service_wf(old(self)@),
            now <= MAX_ISSUE_TIME,
            old(self)@.store.next_token_id < 0xFFFF_FFFF_FFFF_FFFF,
        ensures
            service_wf(final(self)@),
            final(self)@.secret == old(self)@.secret,
            match r {
                Ok(pair) => {
                    &&& old_password_verified
                    &&& exists|j: int|
                        0 <= j < old(self)@.store.users.len() && #[trigger] old(
                            self,
                        )@.store.users[j].id == user_id
                    &&& final(self)@.store.users.len() == old(self)@.store.users.len()
                    &&& forall|k: int|
                        0 <= k < old(self)@.store.users.len()
                            ==> #[trigger] final(self)@.store.users[k] == (if old(
                            self,
                        )@.store.users[k].id == user_id {
                            crate::store::UserV {
                                password_hash: new_password_hash@,
                                ..old(self)@.store.users[k]
                            }
                        } else {
                            old(self)@.store.users[k]
                        })
                    &&& pair.access_token@ == spec_access_token(old(self)@.secret, user_id, now)
                    &&& pair.refresh_token@ == spec_refresh_token(
                        old(self)@.secret,
                        user_id,
                        old(self)@.store.next_token_id,
                        now,
                    )
                    &&& final(self)@.store.tokens =~= spec_revoke_all(
                        old(self)@.store.tokens,
                        user_id,
                    ).push(
                        RefreshV {
                            id: old(self)@.store.next_token_id,
                            user_id,
                            token: pair.refresh_token@,
                            is_active: true,
                            created_on: now,
                        },
                    )
                    &&& final(self)@.store.next_token_id == old(self)@.store.next_token_id + 1
                },
                Err(e) => {
                    &&& e == BackendError::AuthenticationError
                    &&& final(self)@ == old(self)@
                    &&& (!old_password_verified || forall|j: int|
                        0 <= j < old(self)@.store.users.len() ==> #[trigger] old(
                            self,
                        )@.store.users[j].id != user_id)
                },
            },
    {
        if !old_password_verified {
            return Err(external_outcome(AuthFailureReason::PasswordMismatch));
        }
        let changed = self.store.update_user_password(user_id, new_password_hash);
        if !changed {
            proof {
                assert(self@ =~= old(self)@);
            }
            return Err(external_outcome(AuthFailureReason::UserMissing));
        }
        proof {
            let j = choose|j: int|
                0 <= j < old(self)@.store.users.len() && #[trigger] old(self)@.store.users[j].id
                    == user_id;
            assert(self@.store.users.len() == old(self)@.store.users.len());
            assert forall|k: int|
                0 <= k < self@.store.tokens.len() implies #[trigger] record_bound(
                self@.secret,
                self@.store.tokens[k],
            ) by {
                assert(record_bound(old(self)@.secret, old(self)@.store.tokens[k]));
            }
            assert(service_wf(self@));
        }
        let _revoked = self.store.revoke_all_for_user(user_id);
        proof {
            lemma_revoke_all_index(old(self)@.store.tokens, user_id);
            assert forall|k: int|
                0 <= k < self@.store.tokens.len() implies #[trigger] record_bound(
                self@.secret,
                self@.store.tokens[k],
            ) by {
                assert(record_bound(old(self)@.secret, old(self)@.store.tokens[k]));
            }
            assert(service_wf(self@));
        }
        let pair = self.issue_pair(user_id, now);
        Ok(pair)
    }

    /// Issue a credential pair for `user_id` at `now`: a fresh access token
    /// and a fresh refresh token whose row is persisted, active, under the
    /// next store-assigned identifier.
    fn issue_pair(&mut self, user_id: u64, now: u64) -> (pair: TokenPair)
        requires
            service_wf(old(self)@),
            now <= MAX_ISSUE_TIME,
            old(self)@.store.next_token_id < 0xFFFF_FFFF_FFFF_FFFF,
            user_id < old(self)@.store.users.len(),
        ensures
            service_wf(final(self)@),
            final(self)@.secret == old(self)@.secret,
            final(self)@.store.users == old(self)@.store.users,
            pair.access_token@ == spec_access_token(old(self)@.secret, user_id, now),
            pair.refresh_token@ == spec_refresh_token(
                old(self)@.secret,
                user_id,
                old(self)@.store.next_token_id,
                now,
            ),
            final(self)@.store.tokens =~= old(self)@.store.tokens.push(
                RefreshV {
                    id: old(self)@.store.next_token_id,
                    user_id,
                    token: pair.refresh_token@,
                    is_active: true,
                    created_on: now,
                },
            ),
            final(self)@.store.next_token_id == old(self)@.store.next_token_id + 1,
    {
        let access_token = AccessToken::new(self.secret.as_slice(), user_id, now);
        let mut subject = String::new();
        push_decimal(&mut subject, user_id);
        let token_id = self.store.next_id();
        let claim = Claim {
            issuer: String::from_str(token_issuer()),
            subject,
            token_type: TokenType::Refresh,
            issued_at: now,
            expires_at: now + REFRESH_TOKEN_DURATION,
            not_before: None,
            token_id,
        };
        proof {
            lemma_refresh_claim_wf(user_id, token_id, now);
            assert(claim@ =~= spec_refresh_claim(user_id, token_id, now));
        }
        let token = encode(&claim, self.secret.as_slice());
        let rec = self.store.insert_refresh_token(user_id, token, now);
        proof {
            assert(rec@.token == spec_refresh_token(self@.secret, user_id, token_id, now));
            assert forall|k: int|
                0 <= k < self@.store.tokens.len() implies #[trigger] record_bound(
                self@.secret,
                self@.store.tokens[k],
            ) by {
                if k < old(self)@.store.tokens.len() {
                    assert(record_bound(old(self)@.secret, old(self)@.store.tokens[k]));
                } else {
                    assert(self@.store.tokens[k] == rec@);
                }
            }
            assert(service_wf(self@));
        }
        TokenPair { access_token, refresh_token: rec.token }
    }
}

} // verus!
