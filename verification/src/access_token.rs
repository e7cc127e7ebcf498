//! Short-lived, self-validating bearer credential for RPC calls.
//!
//! An access token is an opaque wrapper around one encoded claim string; it
//! exposes only a string view, never its fields, to discourage incidental
//! logging of structure.  The encoded string itself is still sensitive.

use crate::claim::{claim_wf, spec_issuer, token_issuer, Claim, ClaimV, TokenType,
    ACCESS_TOKEN_DURATION, MAX_ISSUE_TIME};
use crate::codec::{encode, hmac_sig, signing_input, token_of, lemma_digits_wire};
use crate::digits::{dec_str, push_decimal};
use vstd::prelude::*;

verus! {

/// The claim inside an access token for `user_id` issued at `now`.
pub open spec fn spec_access_claim(user_id: u64, now: u64) -> ClaimV {
    ClaimV {
        issuer: spec_issuer(),
        subject: dec_str(user_id as nat),
        token_type: TokenType::Access,
        issued_at: now,
        expires_at: (now + ACCESS_TOKEN_DURATION) as u64,
        not_before: None,
        token_id: 0,
    }
}

/// The wire string of an access token for `user_id` issued at `now`.
pub open spec fn spec_access_token(secret: Seq<u8>, user_id: u64, now: u64) -> Seq<char> {
    token_of(secret, spec_access_claim(user_id, now))
}

/// Access token for authorising endpoint requests.
#[derive(Debug)]
pub struct AccessToken {
    encoded: String,
}

impl View for AccessToken {
    type V = Seq<char>;

    closed spec fn view(&self) -> Seq<char> {
        self.encoded@
    }
}

impl AccessToken {
    /// Issue a new access token for `user_id`: an `Access` claim issued at
    /// `now`, expiring [`ACCESS_TOKEN_DURATION`] seconds later, signed under
    /// `secret`.  A pure function of its inputs; no side effects.
    pub fn new(secret: &[u8], user_id: u64, now: u64) -> (r: AccessToken)
        requires
            now <= MAX_ISSUE_TIME,
        ensures
            r@ == spec_access_token(secret@, user_id, now),
            crate::claim::wire_text(
                hmac_sig(secret@, signing_input(spec_access_claim(user_id, now))),
            ),
    {
        let mut subject = String::new();
        push_decimal(&mut subject, user_id);
        let claim = Claim {
            issuer: String::from_str(token_issuer()),
            subject,
            token_type: TokenType::Access,
            issued_at: now,
            expires_at: now + ACCESS_TOKEN_DURATION,
            not_before: None,
            token_id: 0,
        };
        proof {
            crate::digits::lemma_dec_str_canonical(user_id as nat);
            lemma_digits_wire(dec_str(user_id as nat));
            assert(claim_wf(claim@));
            assert(claim@ =~= spec_access_claim(user_id, now));
        }
        let encoded = encode(&claim, secret);
        AccessToken { encoded }
    }

    /// The encoded string, borrowed.
    pub fn as_str(&self) -> (r: &str)
        ensures
            r@ == self@,
    {
        self.encoded.as_str()
    }

    /// The encoded string, owned.
    pub fn into_string(self) -> (r: String)
        ensures
            r@ == self@,
    {
        self.encoded
    }
}

} // verus!
