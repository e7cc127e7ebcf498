//! The signed identity claim and its validity rules.
//!
//! A claim asserts an identity (`subject`), a token kind, and a validity
//! window.  It exists only transiently, between encoding and decoding; the
//! codec ([`crate::codec`]) turns it into a signed wire string and back.

use vstd::prelude::*;

verus! {

/// Seconds an access token stays valid after issuance.
///
/// Deployed as five minutes; an accompanying remark in the service's history
/// describes fifteen.  Five minutes is the authoritative figure here.
pub const ACCESS_TOKEN_DURATION: u64 = 300;

/// Seconds a refresh token's embedded claim stays valid after issuance.
/// The store's `is_active` flag, not this window, is the authoritative
/// revocation signal; both checks apply.
pub const REFRESH_TOKEN_DURATION: u64 = 604800;

/// Latest instant the flows accept, leaving room to add
/// [`REFRESH_TOKEN_DURATION`] without overflowing a `u64`.
pub const MAX_ISSUE_TIME: u64 = 0xFFFF_FFFF_FFFF_FFFF - 604800;

/// The kind of credential a claim backs.
#[derive(Clone, Copy, Debug, PartialEq, Eq, Structural)]
pub enum TokenType {
    /// Short-lived, self-validating bearer credential.
    Access,
    /// Longer-lived credential redeemed against the store.
    Refresh,
}

/// A signed identity claim: who, what kind, and when it is valid.
/// Immutable once constructed.
#[derive(Debug)]
pub struct Claim {
    /// Fixed string naming the issuing service.
    pub issuer: String,
    /// User identifier, as a string.
    pub subject: String,
    /// Kind of credential this claim backs.
    pub token_type: TokenType,
    /// Seconds since the epoch at issuance.
    pub issued_at: u64,
    /// Seconds since the epoch after which the claim is dead.
    pub expires_at: u64,
    /// Seconds since the epoch before which the claim is not yet valid.
    pub not_before: Option<u64>,
    /// Identifier tying a stored refresh token to its store record.
    pub token_id: u64,
}

/// Mathematical image of a [`Claim`].
#[verifier::ext_equal]
pub struct ClaimV {
    pub issuer: Seq<char>,
    pub subject: Seq<char>,
    pub token_type: TokenType,
    pub issued_at: u64,
    pub expires_at: u64,
    pub not_before: Option<u64>,
    pub token_id: u64,
}

impl View for Claim {
    type V = ClaimV;

    open spec fn view(&self) -> ClaimV {
        ClaimV {
            issuer: self.issuer@,
            subject: self.subject@,
            token_type: self.token_type,
            issued_at: self.issued_at,
            expires_at: self.expires_at,
            not_before: self.not_before,
            token_id: self.token_id,
        }
    }
}

/// Characters allowed in the free-form claim fields: ASCII without the
/// field separator, so a claim frames unambiguously on the wire.
pub open spec fn wire_text(s: Seq<char>) -> bool {
    &&& vstd::utf8::is_ascii_chars(s)
    &&& forall|i: int| 0 <= i < s.len() ==> s[i] != '.'
}

/// A claim the codec can put on the wire.
pub open spec fn claim_wf(c: ClaimV) -> bool {
    &&& wire_text(c.issuer)
    &&& wire_text(c.subject)
}

/// The issuer every token of this service carries, and the only one the
/// decoder accepts.
pub open spec fn spec_issuer() -> Seq<char> {
    "auth_core"@
}

/// The fixed issuer string, as an executable value.
pub fn token_issuer() -> (r: &'static str)
    ensures
        r@ == spec_issuer(),
        wire_text(r@),
{
    proof {
        reveal_strlit("auth_core");
    }
    "auth_core"
}

/// Wire spelling of a token kind.
pub open spec fn spec_type_str(t: TokenType) -> Seq<char> {
    match t {
        TokenType::Access => "access"@,
        TokenType::Refresh => "refresh"@,
    }
}

/// Wire spelling of a token kind, as an executable value.
pub fn type_str(t: TokenType) -> (r: &'static str)
    ensures
        r@ == spec_type_str(t),
        wire_text(r@),
{
    proof {
        reveal_strlit("access");
        reveal_strlit("refresh");
    }
    match t {
        TokenType::Access => "access",
        TokenType::Refresh => "refresh",
    }
}

/// Parse a wire spelling back into a token kind.
pub open spec fn spec_parse_type(s: Seq<char>) -> Option<TokenType> {
    if s == spec_type_str(TokenType::Access) {
        Some(TokenType::Access)
    } else if s == spec_type_str(TokenType::Refresh) {
        Some(TokenType::Refresh)
    } else {
        None
    }
}

} // verus!
