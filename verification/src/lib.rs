//! Identity credentials for RPC callers: signed claims, short-lived access
//! tokens, store-validated rotating refresh tokens, and the login / refresh /
//! logout / password-change flows built on them.
//!
//! The claim codec ([`codec`]) frames a claim as a dot-separated, URL-safe
//! string signed with HMAC-SHA256 under a symmetric secret.  The refresh-token
//! manager and the authentication orchestrator ([`auth`]) validate presented
//! tokens, rotate refresh tokens exactly once per redemption, and collapse
//! every credential failure into one uniform caller-visible outcome.

pub mod access_token;
pub mod auth;
pub mod claim;
pub mod codec;
pub mod error;
pub mod digits;
pub mod store;

use vstd::prelude::*;

verus! {

} // verus!
