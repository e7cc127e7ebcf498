//! The row model behind the flows: user rows and refresh-token rows.
//!
//! The relational machinery itself is an external collaborator; what the
//! flows rely on is only the narrow interface modelled here — find a user by
//! email or id, persist a refresh-token row, find the active row for a
//! presented token, and revoke every row of one user in a single store
//! operation.  Those operations and their effects on the store's contents
//! are specified and verified in full.

use crate::codec::str_eq;
use vstd::prelude::*;

verus! {

/// A user row, as the flows see it: identity, account state, and the stored
/// password hash (consumed, never computed, by this crate).
#[derive(Debug)]
pub struct UserRecord {
    /// Identifier; also the row's position in the store.
    pub id: u64,
    /// Login email, unique across users.
    pub email: String,
    /// Opaque password hash, produced by the external hasher.
    pub password_hash: String,
    /// Whether the account is enabled.
    pub is_active: bool,
    /// Whether the account's email is verified.
    pub is_verified: bool,
}

/// Mathematical image of a [`UserRecord`].
#[verifier::ext_equal]
pub struct UserV {
    pub id: u64,
    pub email: Seq<char>,
    pub password_hash: Seq<char>,
    pub is_active: bool,
    pub is_verified: bool,
}

impl View for UserRecord {
    type V = UserV;

    open spec fn view(&self) -> UserV {
        UserV {
            id: self.id,
            email: self.email@,
            password_hash: self.password_hash@,
            is_active: self.is_active,
            is_verified: self.is_verified,
        }
    }
}

impl Clone for UserRecord {
    fn clone(&self) -> (r: Self)
        ensures
            r@ == self@,
    {
        UserRecord {
            id: self.id,
            email: self.email.clone(),
            password_hash: self.password_hash.clone(),
            is_active: self.is_active,
            is_verified: self.is_verified,
        }
    }
}

/// A refresh-token row: an opaque bearer string bound to a user, revocable
/// exactly once (`is_active` flips to false and never back).
#[derive(Debug)]
pub struct RefreshTokenRecord {
    /// Store-assigned identifier, unique across rows.
    pub id: u64,
    /// Owning user.
    pub user_id: u64,
    /// The bearer string itself.
    pub token: String,
    /// False once revoked; revocation is terminal.
    pub is_active: bool,
    /// Seconds since the epoch at creation.
    pub created_on: u64,
}

/// Mathematical image of a [`RefreshTokenRecord`].
#[verifier::ext_equal]
pub struct RefreshV {
    pub id: u64,
    pub user_id: u64,
    pub token: Seq<char>,
    pub is_active: bool,
    pub created_on: u64,
}

impl View for RefreshTokenRecord {
    type V = RefreshV;

    open spec fn view(&self) -> RefreshV {
        RefreshV {
            id: self.id,
            user_id: self.user_id,
            token: self.token@,
            is_active: self.is_active,
            created_on: self.created_on,
        }
    }
}

impl Clone for RefreshTokenRecord {
    fn clone(&self) -> (r: Self)
        ensures
            r@ == self@,
    {
        RefreshTokenRecord {
            id: self.id,
            user_id: self.user_id,
            token: self.token.clone(),
            is_active: self.is_active,
            created_on: self.created_on,
        }
    }
}

/// The store's contents: user rows, refresh-token rows, and the next
/// token-row identifier.
#[verifier::ext_equal]
pub struct StoreV {
    pub users: Seq<UserV>,
    pub tokens: Seq<RefreshV>,
    pub next_token_id: u64,
}

/// The in-memory store the flows run against.
pub struct AuthStore {
    users: Vec<UserRecord>,
    tokens: Vec<RefreshTokenRecord>,
    next_token_id: u64,
}

impl View for AuthStore {
    type V = StoreV;

    closed spec fn view(&self) -> StoreV {
        StoreV {
            users: self.users@.map_values(|u: UserRecord| u@),
            tokens: self.tokens@.map_values(|t: RefreshTokenRecord| t@),
            next_token_id: self.next_token_id,
        }
    }
}

/// Bridge between the store's view and its underlying rows.
proof fn lemma_store_view_index(s: &AuthStore)
    ensures
        s@.users.len() == s.users@.len(),
        s@.tokens.len() == s.tokens@.len(),
        forall|k: int| 0 <= k < s.users@.len() ==> #[trigger] s@.users[k] == s.users@[k]@,
        forall|k: int| 0 <= k < s.tokens@.len() ==> #[trigger] s@.tokens[k] == s.tokens@[k]@,
{
}

/// Store sanity: user identifiers equal their row positions, emails are
/// unique, and token-row identifiers are unique and below the next one.
pub open spec fn store_wf(sv: StoreV) -> bool {
    &&& forall|i: int| 0 <= i < sv.users.len() ==> #[trigger] sv.users[i].id == i as u64
    &&& forall|i: int, j: int|
        0 <= i < sv.users.len() && 0 <= j < sv.users.len() && i != j ==> #[trigger] sv.users[i].id
            != #[trigger] sv.users[j].id
    &&& forall|i: int, j: int|
        0 <= i < sv.users.len() && 0 <= j < sv.users.len() && i != j ==> #[trigger] sv.users[i].email
            != #[trigger] sv.users[j].email
    &&& forall|i: int| 0 <= i < sv.tokens.len() ==> #[trigger] sv.tokens[i].id < sv.next_token_id
    &&& forall|i: int, j: int|
        0 <= i < sv.tokens.len() && 0 <= j < sv.tokens.len() && i != j ==> #[trigger] sv.tokens[i].id
            != #[trigger] sv.tokens[j].id
}

/// The token rows after revoking every row of `user_id`.
pub open spec fn spec_revoke_all(tokens: Seq<RefreshV>, user_id: u64) -> Seq<RefreshV> {
    tokens.map_values(
        |r: RefreshV|
            if r.user_id == user_id {
                RefreshV { is_active: false, ..r }
            } else {
                r
            },
    )
}

/// How many rows of `user_id` are active.
pub open spec fn spec_active_count(tokens: Seq<RefreshV>, user_id: u64) -> nat
    decreases tokens.len(),
{
    if tokens.len() == 0 {
        0
    } else {
        spec_active_count(tokens.drop_last(), user_id) + (if tokens.last().user_id == user_id
            && tokens.last().is_active {
            1nat
        } else {
            0nat
        })
    }
}

impl AuthStore {
    /// An empty store.
    pub fn new() -> (s: AuthStore)
        ensures
            s@.users =~= Seq::<UserV>::empty(),
            s@.tokens =~= Seq::<RefreshV>::empty(),
            s@.next_token_id == 0,
            store_wf(s@),
    {
        AuthStore { users: Vec::new(), tokens: Vec::new(), next_token_id: 0 }
    }

    /// Add a user row, unless the email is already taken.  Returns the new
    /// user's identifier.
    pub fn add_user(
        &mut self,
        email: String,
        password_hash: String,
        is_active: bool,
        is_verified: bool,
    ) -> (r: Option<u64>)
        requires
            store_wf(old(self)@),
            old(self)@.users.len() < 0xFFFF_FFFF_FFFF_FFFF,
        ensures
            store_wf(final(self)@),
            final(self)@.tokens == old(self)@.tokens,
            final(self)@.next_token_id == old(self)@.next_token_id,
            match r {
                Some(id) => {
                    &&& id == old(self)@.users.len()
                    &&& final(self)@.users =~= old(self)@.users.push(
                        UserV {
                            id,
                            email: email@,
                            password_hash: password_hash@,
                            is_active,
                            is_verified,
                        },
                    )
                    &&& forall|i: int|
                        0 <= i < old(self)@.users.len() ==> #[trigger] old(
                            self,
                        )@.users[i].email != email@
                },
                None => {
                    &&& final(self)@.users == old(self)@.users
                    &&& exists|i: int|
                        0 <= i < old(self)@.users.len() && #[trigger] old(self)@.users[i].email
                            == email@
                },
            },
    {
        if self.find_user_by_email(email.as_str()).is_some() {
            return None;
        }
        let id: u64 = self.users.len() as u64;
        let rec = UserRecord { id, email, password_hash, is_active, is_verified };
        let ghost uv = rec@;
        proof {
            lemma_store_view_index(self);
        }
        self.users.push(rec);
        proof {
            lemma_store_view_index(self);
            assert forall|k: int| 0 <= k < self@.users.len() implies #[trigger] self@.users[k]
                == (if k < old(self)@.users.len() {
                old(self)@.users[k]
            } else {
                uv
            }) by {
                assert(self@.users[k] == self.users@[k]@);
            }
            assert(self@.users =~= old(self)@.users.push(uv));
            assert(self@.tokens =~= old(self)@.tokens);
            assert forall|i: int, j: int|
                0 <= i < self@.users.len() && 0 <= j < self@.users.len() && i
                    != j implies #[trigger] self@.users[i].email != #[trigger] self@.users[j].email by {
                let n0 = old(self)@.users.len() as int;
                if i == n0 {
                    assert(old(self)@.users[j].email != uv.email);
                } else if j == n0 {
                    assert(old(self)@.users[i].email != uv.email);
                }
            }
            assert forall|i: int, j: int|
                0 <= i < self@.users.len() && 0 <= j < self@.users.len() && i
                    != j implies #[trigger] self@.users[i].id != #[trigger] self@.users[j].id by {
                assert(self@.users[i].id == i as u64);
                assert(self@.users[j].id == j as u64);
            }
            assert(store_wf(self@));
        }
        Some(id)
    }

    /// Find the user row carrying `email`, if any.
    pub fn find_user_by_email(&self, email: &str) -> (r: Option<UserRecord>)
        ensures
            match r {
                Some(u) => exists|i: int|
                    0 <= i < self@.users.len() && #[trigger] self@.users[i] == u@ && u@.email
                        == email@,
                None => forall|i: int|
                    0 <= i < self@.users.len() ==> #[trigger] self@.users[i].email != email@,
            },
    {
        let n = self.users.len();
        let mut i: usize = 0;
        while i < n
            invariant
                0 <= i <= n,
                n == self@.users.len(),
                forall|k: int| 0 <= k < i ==> #[trigger] self@.users[k].email != email@,
            decreases n - i,
        {
            if str_eq(self.users[i].email.as_str(), email) {
                let u = self.users[i].clone();
                proof {
                    assert(self@.users[i as int] == u@);
                }
                return Some(u);
            }
            i = i + 1;
        }
        None
    }

    /// Find the user row with identifier `id`, if any.
    pub fn find_user_by_id(&self, id: u64) -> (r: Option<UserRecord>)
        ensures
            match r {
                Some(u) => exists|i: int|
                    0 <= i < self@.users.len() && #[trigger] self@.users[i] == u@ && u@.id == id,
                None => forall|i: int|
                    0 <= i < self@.users.len() ==> #[trigger] self@.users[i].id != id,
            },
    {
        let n = self.users.len();
        let mut i: usize = 0;
        while i < n
            invariant
                0 <= i <= n,
                n == self@.users.len(),
                forall|k: int| 0 <= k < i ==> #[trigger] self@.users[k].id != id,
            decreases n - i,
        {
            if self.users[i].id == id {
                let u = self.users[i].clone();
                proof {
                    assert(self@.users[i as int] == u@);
                }
                return Some(u);
            }
            i = i + 1;
        }
        None
    }

    /// Replace the stored password hash of user `id`.  Returns whether a row
    /// changed.
    pub fn update_user_password(&mut self, id: u64, new_hash: String) -> (r: bool)
        requires
            store_wf(old(self)@),
        ensures
            store_wf(final(self)@),
            final(self)@.tokens == old(self)@.tokens,
            final(self)@.next_token_id == old(self)@.next_token_id,
            final(self)@.users.len() == old(self)@.users.len(),
            forall|k: int|
                0 <= k < old(self)@.users.len() ==> #[trigger] final(self)@.users[k] == (if old(
                    self,
                )@.users[k].id == id {
                    UserV { password_hash: new_hash@, ..old(self)@.users[k] }
                } else {
                    old(self)@.users[k]
                }),
            r == exists|i: int|
                0 <= i < old(self)@.users.len() && #[trigger] old(self)@.users[i].id == id,
    {
        let n = self.users.len();
        proof {
            lemma_store_view_index(self);
        }
        let mut i: usize = 0;
        while i < n
            invariant
                0 <= i <= n,
                n == self.users.len(),
                forall|k: int| 0 <= k < i ==> #[trigger] self@.users[k].id != id,
                self@ == old(self)@,
                store_wf(old(self)@),
            decreases n - i,
        {
            proof {
                lemma_store_view_index(self);
            }
            if self.users[i].id == id {
                proof {
                    assert(old(self)@.users[i as int].id == id);
                }
                let mut u = self.users[i].clone();
                u.password_hash = new_hash;
                self.users.set(i, u);
                proof {
                    lemma_store_view_index(self);
                    assert forall|k: int|
                        0 <= k < old(self)@.users.len() implies #[trigger] self@.users[k] == (if old(
                        self,
                    )@.users[k].id == id {
                        UserV { password_hash: new_hash@, ..old(self)@.users[k] }
                    } else {
                        old(self)@.users[k]
                    }) by {
                        assert(self@.users[k] == self.users@[k]@);
                        if k != i as int {
                            assert(old(self)@.users[k].id == k as u64);
                            assert(old(self)@.users[i as int].id == i as u64);
                        }
                    }
                    assert(store_wf(self@));
                }
                return true;
            }
            i = i + 1;
        }
        false
    }

    /// Persist a new refresh-token row: active, owned by `user_id`, with the
    /// next store-assigned identifier.  Returns the stored row.
    pub fn insert_refresh_token(&mut self, user_id: u64, token: String, created_on: u64) -> (r:
        RefreshTokenRecord)
        requires
            old(self)@.next_token_id < 0xFFFF_FFFF_FFFF_FFFF,
        ensures
            final(self)@.users == old(self)@.users,
            final(self)@.next_token_id == old(self)@.next_token_id + 1,
            r@ == (RefreshV {
                id: old(self)@.next_token_id,
                user_id,
                token: token@,
                is_active: true,
                created_on,
            }),
            final(self)@.tokens =~= old(self)@.tokens.push(r@),
            store_wf(old(self)@) ==> store_wf(final(self)@),
    {
        let rec = RefreshTokenRecord {
            id: self.next_token_id,
            user_id,
            token,
            is_active: true,
            created_on,
        };
        let out = rec.clone();
        proof {
            lemma_store_view_index(self);
        }
        self.tokens.push(rec);
        self.next_token_id = self.next_token_id + 1;
        proof {
            lemma_store_view_index(self);
            assert forall|k: int| 0 <= k < self@.tokens.len() implies #[trigger] self@.tokens[k]
                == (if k < old(self)@.tokens.len() {
                old(self)@.tokens[k]
            } else {
                out@
            }) by {
                assert(self@.tokens[k] == self.tokens@[k]@);
            }
            assert(self@.tokens =~= old(self)@.tokens.push(out@));
            if store_wf(old(self)@) {
                assert(store_wf(self@));
            }
        }
        out
    }

    /// Find the active row carrying exactly `token`, if any.
    pub fn find_active_by_token(&self, token: &str) -> (r: Option<RefreshTokenRecord>)
        ensures
            match r {
                Some(t) => {
                    &&& exists|i: int|
                        0 <= i < self@.tokens.len() && #[trigger] self@.tokens[i] == t@
                    &&& t@.token == token@
                    &&& t@.is_active
                },
                None => forall|i: int|
                    0 <= i < self@.tokens.len() ==> !(#[trigger] self@.tokens[i].token == token@
                        && self@.tokens[i].is_active),
            },
    {
        let n = self.tokens.len();
        let mut i: usize = 0;
        while i < n
            invariant
                0 <= i <= n,
                n == self@.tokens.len(),
                forall|k: int|
                    0 <= k < i ==> !(#[trigger] self@.tokens[k].token == token@
                        && self@.tokens[k].is_active),
            decreases n - i,
        {
            if self.tokens[i].is_active && str_eq(self.tokens[i].token.as_str(), token) {
                let t = self.tokens[i].clone();
                proof {
                    assert(self@.tokens[i as int] == t@);
                }
                return Some(t);
            }
            i = i + 1;
        }
        None
    }

    /// The identifier the next refresh-token row will receive.
    pub fn next_id(&self) -> (r: u64)
        ensures
            r == self@.next_token_id,
    {
        self.next_token_id
    }

    /// How many user rows the store holds.
    pub fn user_count(&self) -> (n: u64)
        ensures
            n == self@.users.len(),
    {
        proof {
            lemma_store_view_index(self);
        }
        self.users.len() as u64
    }

    /// How many refresh-token rows of `user_id` are active.
    pub fn count_active_for_user(&self, user_id: u64) -> (n: u64)
        ensures
            n == spec_active_count(self@.tokens, user_id),
    {
        let len = self.tokens.len();
        proof {
            lemma_store_view_index(self);
        }
        let mut i: usize = 0;
        let mut n: usize = 0;
        while i < len
            invariant
                0 <= i <= len,
                len == self.tokens.len(),
                len == self@.tokens.len(),
                n <= i,
                n == spec_active_count(self@.tokens.subrange(0, i as int), user_id),
                forall|k: int| 0 <= k < len ==> #[trigger] self@.tokens[k] == self.tokens@[k]@,
            decreases len - i,
        {
            proof {
                let pre = self@.tokens.subrange(0, i as int);
                let pre1 = self@.tokens.subrange(0, i as int + 1);
                assert(pre1.drop_last() =~= pre);
                assert(pre1.last() == self@.tokens[i as int]);
            }
            if self.tokens[i].user_id == user_id && self.tokens[i].is_active {
                n = n + 1;
            }
            i = i + 1;
        }
        proof {
            assert(self@.tokens.subrange(0, len as int) =~= self@.tokens);
        }
        n as u64
    }

    /// Revoke every refresh-token row of `user_id`, in one store operation.
    /// Returns how many rows flipped from active to revoked.
    ///
    /// The flows present this as their one atomic rotation primitive: the
    /// check of `is_active` and the flip happen against the same store state,
    /// with no separate read-then-write gap.
    pub fn revoke_all_for_user(&mut self, user_id: u64) -> (n: u64)
        ensures
            final(self)@.users == old(self)@.users,
            final(self)@.next_token_id == old(self)@.next_token_id,
            final(self)@.tokens =~= spec_revoke_all(old(self)@.tokens, user_id),
            n == spec_active_count(old(self)@.tokens, user_id),
            store_wf(old(self)@) ==> store_wf(final(self)@),
    {
        let len = self.tokens.len();
        proof {
            lemma_store_view_index(self);
        }
        let mut i: usize = 0;
        let mut n: usize = 0;
        while i < len
            invariant
                0 <= i <= len,
                len == self.tokens.len(),
                len == old(self)@.tokens.len(),
                self@.users == old(self)@.users,
                self@.next_token_id == old(self)@.next_token_id,
                n <= i,
                n == spec_active_count(old(self)@.tokens.subrange(0, i as int), user_id),
                forall|k: int|
                    i <= k < len ==> #[trigger] self@.tokens[k] == old(self)@.tokens[k],
                forall|k: int|
                    0 <= k < i ==> #[trigger] self@.tokens[k] == (if old(
                        self,
                    )@.tokens[k].user_id == user_id {
                        RefreshV { is_active: false, ..old(self)@.tokens[k] }
                    } else {
                        old(self)@.tokens[k]
                    }),
            decreases len - i,
        {
            proof {
                lemma_store_view_index(self);
                let pre = old(self)@.tokens.subrange(0, i as int);
                let pre1 = old(self)@.tokens.subrange(0, i as int + 1);
                assert(pre1.drop_last() =~= pre);
                assert(pre1.last() == old(self)@.tokens[i as int]);
                assert(self.tokens@[i as int]@ == self@.tokens[i as int]);
                assert(self@.tokens[i as int] == old(self)@.tokens[i as int]);
            }
            if self.tokens[i].user_id == user_id {
                if self.tokens[i].is_active {
                    n = n + 1;
                }
                let mut t = self.tokens[i].clone();
                t.is_active = false;
                let ghost tv = t@;
                let ghost prev = self@.tokens;
                self.tokens.set(i, t);
                proof {
                    lemma_store_view_index(self);
                    assert forall|k: int| 0 <= k < len implies #[trigger] self@.tokens[k] == (if k
                        == i as int {
                        tv
                    } else {
                        prev[k]
                    }) by {
                        assert(self@.tokens[k] == self.tokens@[k]@);
                    }
                }
            }
            i = i + 1;
        }
        proof {
            assert(old(self)@.tokens.subrange(0, len as int) =~= old(self)@.tokens);
            lemma_revoke_all_index(old(self)@.tokens, user_id);
            assert(self@.tokens =~= spec_revoke_all(old(self)@.tokens, user_id));
        }
        n as u64
    }
}

/// Indexing the bulk-revocation image.
pub proof fn lemma_revoke_all_index(tokens: Seq<RefreshV>, user_id: u64)
    ensures
        spec_revoke_all(tokens, user_id).len() == tokens.len(),
        forall|k: int|
            0 <= k < tokens.len() ==> #[trigger] spec_revoke_all(tokens, user_id)[k] == (if tokens[k].user_id
                == user_id {
                RefreshV { is_active: false, ..tokens[k] }
            } else {
                tokens[k]
            }),
{
}

/// Bulk revocation is idempotent and complete: after one revocation no row
/// of the user is active, and a second revocation changes nothing and
/// affects zero rows.
pub proof fn lemma_revoke_all_idempotent(tokens: Seq<RefreshV>, user_id: u64)
    ensures
        spec_active_count(spec_revoke_all(tokens, user_id), user_id) == 0,
        spec_revoke_all(spec_revoke_all(tokens, user_id), user_id) =~= spec_revoke_all(
            tokens,
            user_id,
        ),
        forall|i: int|
            0 <= i < tokens.len() ==> !(#[trigger] spec_revoke_all(tokens, user_id)[i].user_id
                == user_id && spec_revoke_all(tokens, user_id)[i].is_active),
    decreases tokens.len(),
{
    if tokens.len() > 0 {
        lemma_revoke_all_idempotent(tokens.drop_last(), user_id);
        let r = spec_revoke_all(tokens, user_id);
        let rp = spec_revoke_all(tokens.drop_last(), user_id);
        assert(r.drop_last() =~= rp);
        assert(spec_revoke_all(r, user_id).drop_last() =~= spec_revoke_all(rp, user_id));
    }
}

/// Revocation is monotone and touches only `is_active`: no row ever returns
/// to the active state, and every other field is untouched.
pub proof fn lemma_revoke_all_monotone(tokens: Seq<RefreshV>, user_id: u64)
    ensures
        spec_revoke_all(tokens, user_id).len() == tokens.len(),
        forall|i: int|
            0 <= i < tokens.len() ==> {
                let r = #[trigger] spec_revoke_all(tokens, user_id)[i];
                &&& r.id == tokens[i].id
                &&& r.user_id == tokens[i].user_id
                &&& r.token == tokens[i].token
                &&& r.created_on == tokens[i].created_on
                &&& (r.is_active ==> tokens[i].is_active)
            },
{
}

} // verus!
