//! The claim codec: a claim becomes a signed, URL-safe wire string and back.
//!
//! Wire layout: seven claim fields joined by `'.'`, then a final `'.'` and an
//! HMAC-SHA256 tag over everything before it, base64url-encoded:
//!
//! `issuer . subject . kind . issued_at . expires_at . not_before . token_id . tag`
//!
//! Numbers travel as canonical decimals ([`crate::digits`]); an absent
//! `not_before` travels as `none`.  Decoding validates framing, signature,
//! issuer and validity window as one step; [`spec_decode`] is the full
//! mathematical definition of that step, and [`decode`] returns exactly what
//! it says, for every input.

use crate::claim::{claim_wf, spec_issuer, spec_parse_type, spec_type_str, token_issuer, type_str,
    wire_text, Claim, ClaimV, TokenType};
use crate::digits::{dec_str, parse_u64, push_decimal, spec_parse_u64};
use vstd::prelude::*;

verus! {

/// Why a presented token was rejected.
#[derive(Clone, Copy, Debug, PartialEq, Eq, Structural)]
pub enum DecodeError {
    /// The string does not parse as a token at all.
    Malformed,
    /// The tag does not verify under the given secret.
    InvalidSignature,
    /// The embedded issuer is not this service's issuer.
    InvalidIssuer,
    /// The validity window has passed.
    ExpiredSignature,
    /// The validity window has not begun.
    NotYetValid,
}

/// The HMAC-SHA256 tag of `message` under `secret`, base64url-encoded.
/// A function of key and message alone; its value is known only through
/// [`sign_message`].
pub uninterp spec fn hmac_sig(secret: Seq<u8>, message: Seq<char>) -> Seq<char>;

/// Relies on `jsonwebtoken::crypto::sign` with `Algorithm::HS256` and a
/// secret-based key: it returns the HMAC-SHA256 tag of the message,
/// base64url-encoded with the URL-safe alphabet, so ASCII and free of `'.'`;
/// a deterministic function of key bytes and message bytes.  For an HMAC
/// algorithm and a key made by `EncodingKey::from_secret`, signing accepts
/// any key length and cannot fail.
#[verifier::external_body]
fn sign_message(secret: &[u8], message: &str) -> (r: String)
    ensures
        r@ == hmac_sig(secret@, message@),
        wire_text(r@),
{
    let key = jsonwebtoken::EncodingKey::from_secret(secret);
    jsonwebtoken::crypto::sign(message.as_bytes(), &key, jsonwebtoken::Algorithm::HS256)
        .expect("HMAC signing with a secret key cannot fail")
}

/// The single-character field separator.
pub open spec fn dot() -> Seq<char> {
    seq!['.']
}

/// Wire spelling of an optional not-before instant.
pub open spec fn spec_nbf_str(nbf: Option<u64>) -> Seq<char> {
    match nbf {
        Some(t) => dec_str(t as nat),
        None => "none"@,
    }
}

/// Parse the wire spelling of an optional not-before instant.
pub open spec fn spec_parse_nbf(s: Seq<char>) -> Option<Option<u64>> {
    if s == "none"@ {
        Some(None)
    } else {
        match spec_parse_u64(s) {
            Some(v) => Some(Some(v)),
            None => None,
        }
    }
}

/// The signed part of the wire string: the seven fields, dot-joined.
pub open spec fn signing_input(c: ClaimV) -> Seq<char> {
    c.issuer + dot() + c.subject + dot() + spec_type_str(c.token_type) + dot() + dec_str(
        c.issued_at as nat,
    ) + dot() + dec_str(c.expires_at as nat) + dot() + spec_nbf_str(c.not_before) + dot()
        + dec_str(c.token_id as nat)
}

/// The full wire string for a claim under a secret.
pub open spec fn token_of(secret: Seq<u8>, c: ClaimV) -> Seq<char> {
    signing_input(c) + dot() + hmac_sig(secret, signing_input(c))
}

/// Index of the first `'.'` at or after `from`, if any.
pub open spec fn spec_find_dot(s: Seq<char>, from: int) -> Option<int>
    decreases s.len() - from,
{
    if from < 0 || from >= s.len() {
        None
    } else if s[from] == '.' {
        Some(from)
    } else {
        spec_find_dot(s, from + 1)
    }
}

/// A dot at `j` with none before it (from `from` on) is the first dot.
pub proof fn lemma_find_dot_found(s: Seq<char>, from: int, j: int)
    requires
        0 <= from <= j < s.len(),
        s[j] == '.',
        forall|k: int| from <= k < j ==> s[k] != '.',
    ensures
        spec_find_dot(s, from) == Some(j),
    decreases j - from,
{
    if from < j {
        lemma_find_dot_found(s, from + 1, j);
    }
}

/// No dot from `from` on means no first dot.
pub proof fn lemma_find_dot_none(s: Seq<char>, from: int)
    requires
        0 <= from,
        forall|k: int| from <= k < s.len() ==> s[k] != '.',
    ensures
        spec_find_dot(s, from) == None::<int>,
    decreases s.len() - from,
{
    if from < s.len() {
        lemma_find_dot_none(s, from + 1);
    }
}

/// The positions of the seven separating dots, when the string has exactly
/// seven of them.
pub open spec fn spec_dots(t: Seq<char>) -> Option<(int, int, int, int, int, int, int)> {
    match spec_find_dot(t, 0) {
        None => None,
        Some(d0) => match spec_find_dot(t, d0 + 1) {
            None => None,
            Some(d1) => match spec_find_dot(t, d1 + 1) {
                None => None,
                Some(d2) => match spec_find_dot(t, d2 + 1) {
                    None => None,
                    Some(d3) => match spec_find_dot(t, d3 + 1) {
                        None => None,
                        Some(d4) => match spec_find_dot(t, d4 + 1) {
                            None => None,
                            Some(d5) => match spec_find_dot(t, d5 + 1) {
                                None => None,
                                Some(d6) => match spec_find_dot(t, d6 + 1) {
                                    Some(_) => None,
                                    None => Some((d0, d1, d2, d3, d4, d5, d6)),
                                },
                            },
                        },
                    },
                },
            },
        },
    }
}

/// What decoding a wire string under a secret at instant `now` yields.
///
/// The one validation step of the codec: framing, field shape, signature,
/// issuer, expiry and not-before, in that order of precedence.
pub open spec fn spec_decode(secret: Seq<u8>, t: Seq<char>, now: u64) -> Result<
    ClaimV,
    DecodeError,
> {
    if !vstd::utf8::is_ascii_chars(t) {
        Err(DecodeError::Malformed)
    } else {
        match spec_dots(t) {
            None => Err(DecodeError::Malformed),
            Some(ds) => {
                let issuer = t.subrange(0, ds.0);
                let subject = t.subrange(ds.0 + 1, ds.1);
                let tys = t.subrange(ds.1 + 1, ds.2);
                let iats = t.subrange(ds.2 + 1, ds.3);
                let exps = t.subrange(ds.3 + 1, ds.4);
                let nbfs = t.subrange(ds.4 + 1, ds.5);
                let jtis = t.subrange(ds.5 + 1, ds.6);
                let sig = t.subrange(ds.6 + 1, t.len() as int);
                match (spec_parse_type(tys), spec_parse_u64(iats), spec_parse_u64(exps),
                spec_parse_nbf(nbfs), spec_parse_u64(jtis)) {
                    (
                        Some(tt),
                        Some(iat),
                        Some(exp),
                        Some(nbf),
                        Some(jti),
                    ) => if sig != hmac_sig(secret, t.subrange(0, ds.6)) {
                        Err(DecodeError::InvalidSignature)
                    } else if issuer != spec_issuer() {
                        Err(DecodeError::InvalidIssuer)
                    } else if now > exp {
                        Err(DecodeError::ExpiredSignature)
                    } else if match nbf {
                        Some(nb) => now < nb,
                        None => false,
                    } {
                        Err(DecodeError::NotYetValid)
                    } else {
                        Ok(
                            ClaimV {
                                issuer,
                                subject,
                                token_type: tt,
                                issued_at: iat,
                                expires_at: exp,
                                not_before: nbf,
                                token_id: jti,
                            },
                        )
                    },
                    _ => Err(DecodeError::Malformed),
                }
            },
        }
    }
}

/// Character-for-character string equality.
pub fn str_eq(a: &str, b: &str) -> (r: bool)
    ensures
        r == (a@ == b@),
{
    let na: usize = a.unicode_len();
    let nb: usize = b.unicode_len();
    if na != nb {
        return false;
    }
    let mut i: usize = 0;
    while i < na
        invariant
            0 <= i <= na,
            na == a@.len(),
            na == b@.len(),
            forall|k: int| 0 <= k < i ==> a@[k] == b@[k],
        decreases na - i,
    {
        if a.get_char(i) != b.get_char(i) {
            return false;
        }
        i = i + 1;
    }
    proof {
        assert(a@ =~= b@);
    }
    true
}

/// Index of the first `'.'` in `s` at or after `from`.
fn find_dot(s: &str, from: usize) -> (r: Option<usize>)
    requires
        from <= s@.len(),
    ensures
        match r {
            Some(j) => {
                &&& spec_find_dot(s@, from as int) == Some(j as int)
                &&& from <= j < s@.len()
            },
            None => spec_find_dot(s@, from as int) == None::<int>,
        },
{
    let n: usize = s.unicode_len();
    let mut i: usize = from;
    while i < n
        invariant
            from <= i <= n,
            n == s@.len(),
            forall|k: int| from <= k < i ==> s@[k] != '.',
        decreases n - i,
    {
        let c: char = s.get_char(i);
        if c == '.' {
            proof {
                lemma_find_dot_found(s@, from as int, i as int);
            }
            return Some(i);
        }
        i = i + 1;
    }
    proof {
        lemma_find_dot_none(s@, from as int);
    }
    None
}

/// Encode a claim into its signed wire string under `secret`.
///
/// Deterministic given identical inputs; the result is ASCII and carries
/// exactly seven `'.'`-separated fields plus the tag.
pub fn encode(claim: &Claim, secret: &[u8]) -> (r: String)
    requires
        claim_wf(claim@),
    ensures
        r@ == token_of(secret@, claim@),
        wire_text(hmac_sig(secret@, signing_input(claim@))),
{
    proof {
        reveal_strlit(".");
        reveal_strlit("none");
    }
    let mut si = String::new();
    si.append(claim.issuer.as_str());
    si.append(".");
    si.append(claim.subject.as_str());
    si.append(".");
    si.append(type_str(claim.token_type));
    si.append(".");
    push_decimal(&mut si, claim.issued_at);
    si.append(".");
    push_decimal(&mut si, claim.expires_at);
    si.append(".");
    match claim.not_before {
        Some(t) => push_decimal(&mut si, t),
        None => si.append("none"),
    }
    si.append(".");
    push_decimal(&mut si, claim.token_id);
    proof {
        assert(si@ =~= signing_input(claim@));
    }
    let sig = sign_message(secret, si.as_str());
    let mut out = si;
    out.append(".");
    out.append(sig.as_str());
    proof {
        assert(out@ =~= token_of(secret@, claim@));
    }
    out
}

/// Decode and validate a wire string under `secret` at instant `now`.
///
/// Framing, signature, issuer, expiry and not-before are enforced as one
/// step; the result is exactly [`spec_decode`] of the inputs.
pub fn decode(token: &str, secret: &[u8], now: u64) -> (r: Result<Claim, DecodeError>)
    ensures
        match r {
            Ok(c) => spec_decode(secret@, token@, now) == Ok::<ClaimV, DecodeError>(c@),
            Err(e) => spec_decode(secret@, token@, now) == Err::<ClaimV, DecodeError>(e),
        },
{
    if !token.is_ascii() {
        return Err(DecodeError::Malformed);
    }
    let n: usize = token.unicode_len();
    let d0 = match find_dot(token, 0) {
        Some(d) => d,
        None => {
            return Err(DecodeError::Malformed);
        },
    };
    let d1 = match find_dot(token, d0 + 1) {
        Some(d) => d,
        None => {
            return Err(DecodeError::Malformed);
        },
    };
    let d2 = match find_dot(token, d1 + 1) {
        Some(d) => d,
        None => {
            return Err(DecodeError::Malformed);
        },
    };
    let d3 = match find_dot(token, d2 + 1) {
        Some(d) => d,
        None => {
            return Err(DecodeError::Malformed);
        },
    };
    let d4 = match find_dot(token, d3 + 1) {
        Some(d) => d,
        None => {
            return Err(DecodeError::Malformed);
        },
    };
    let d5 = match find_dot(token, d4 + 1) {
        Some(d) => d,
        None => {
            return Err(DecodeError::Malformed);
        },
    };
    let d6 = match find_dot(token, d5 + 1) {
        Some(d) => d,
        None => {
            return Err(DecodeError::Malformed);
        },
    };
    if find_dot(token, d6 + 1).is_some() {
        return Err(DecodeError::Malformed);
    }
    let issuer = token.substring_ascii(0, d0);
    let subject = token.substring_ascii(d0 + 1, d1);
    let tys = token.substring_ascii(d1 + 1, d2);
    let iats = token.substring_ascii(d2 + 1, d3);
    let exps = token.substring_ascii(d3 + 1, d4);
    let nbfs = token.substring_ascii(d4 + 1, d5);
    let jtis = token.substring_ascii(d5 + 1, d6);
    let sig = token.substring_ascii(d6 + 1, n);
    proof {
        reveal_strlit("access");
        reveal_strlit("refresh");
    }
    let token_type = if str_eq(tys, "access") {
        TokenType::Access
    } else if str_eq(tys, "refresh") {
        TokenType::Refresh
    } else {
        return Err(DecodeError::Malformed);
    };
    let issued_at = match parse_u64(iats) {
        Some(v) => v,
        None => {
            return Err(DecodeError::Malformed);
        },
    };
    let expires_at = match parse_u64(exps) {
        Some(v) => v,
        None => {
            return Err(DecodeError::Malformed);
        },
    };
    let not_before = match parse_nbf(nbfs) {
        Some(v) => v,
        None => {
            return Err(DecodeError::Malformed);
        },
    };
    let token_id = match parse_u64(jtis) {
        Some(v) => v,
        None => {
            return Err(DecodeError::Malformed);
        },
    };
    let si = token.substring_ascii(0, d6);
    let expected = sign_message(secret, si);
    if !str_eq(sig, expected.as_str()) {
        return Err(DecodeError::InvalidSignature);
    }
    if !str_eq(issuer, token_issuer()) {
        return Err(DecodeError::InvalidIssuer);
    }
    if now > expires_at {
        return Err(DecodeError::ExpiredSignature);
    }
    if let Some(nb) = not_before {
        if now < nb {
            return Err(DecodeError::NotYetValid);
        }
    }
    let claim = Claim {
        issuer: String::from_str(issuer),
        subject: String::from_str(subject),
        token_type,
        issued_at,
        expires_at,
        not_before,
        token_id,
    };
    Ok(claim)
}

/// Digit strings are wire text: ASCII and free of the separator.
pub proof fn lemma_digits_wire(s: Seq<char>)
    requires
        crate::digits::all_digits(s),
    ensures
        wire_text(s),
{
    assert forall|i: int| 0 <= i < s.len() implies '\0' <= #[trigger] s[i] <= '\u{7f}' && s[i]
        != '.' by {
        assert(crate::digits::is_digit_char(s[i]));
    }
}

/// The rendering of a token kind is wire text.
proof fn lemma_type_str_wire(t: TokenType)
    ensures
        wire_text(spec_type_str(t)),
{
    reveal_strlit("access");
    reveal_strlit("refresh");
}

/// The rendering of an optional not-before instant is wire text.
proof fn lemma_nbf_str_wire(nbf: Option<u64>)
    ensures
        wire_text(spec_nbf_str(nbf)),
{
    match nbf {
        Some(v) => {
            crate::digits::lemma_dec_str_canonical(v as nat);
            lemma_digits_wire(dec_str(v as nat));
        },
        None => {
            reveal_strlit("none");
        },
    }
}

/// Validation is part of decoding, never skippable: whenever decoding
/// succeeds, the claim's window contains `now` and its issuer is this
/// service's.  In particular a claim whose expiry has passed never decodes,
/// whatever its signature.
pub proof fn lemma_decode_enforces_validity(secret: Seq<u8>, t: Seq<char>, now: u64)
    ensures
        spec_decode(secret, t, now) matches Ok(c) ==> {
            &&& now <= c.expires_at
            &&& c.issuer == spec_issuer()
            &&& (c.not_before matches Some(nb) ==> now >= nb)
        },
{
}

/// Round trip: decoding an encoded claim under the same secret reproduces
/// the claim exactly — subject, kind, issuer and window — whenever the
/// claim is live at `now`, and reports the window violation otherwise.
/// (Holds wherever the signing tag is known to be wire text, which
/// [`sign_message`] guarantees of every tag the codec produces.)
#[verifier::rlimit(100)]
pub proof fn lemma_encode_decode_round_trip(secret: Seq<u8>, c: ClaimV, now: u64)
    requires
        claim_wf(c),
        c.issuer == spec_issuer(),
    ensures
        wire_text(hmac_sig(secret, signing_input(c))) ==> spec_decode(
            secret,
            token_of(secret, c),
            now,
        ) == (if now > c.expires_at {
            Err::<ClaimV, DecodeError>(DecodeError::ExpiredSignature)
        } else if (match c.not_before {
            Some(nb) => now < nb,
            None => false,
        }) {
            Err::<ClaimV, DecodeError>(DecodeError::NotYetValid)
        } else {
            Ok::<ClaimV, DecodeError>(c)
        }),
{
    let si = signing_input(c);
    let sg = hmac_sig(secret, si);
    let t = token_of(secret, c);
    if wire_text(sg) {
        let f0 = c.issuer;
        let f1 = c.subject;
        let f2 = spec_type_str(c.token_type);
        let f3 = dec_str(c.issued_at as nat);
        let f4 = dec_str(c.expires_at as nat);
        let f5 = spec_nbf_str(c.not_before);
        let f6 = dec_str(c.token_id as nat);
        lemma_type_str_wire(c.token_type);
        lemma_nbf_str_wire(c.not_before);
        crate::digits::lemma_dec_str_canonical(c.issued_at as nat);
        crate::digits::lemma_dec_str_canonical(c.expires_at as nat);
        crate::digits::lemma_dec_str_canonical(c.token_id as nat);
        lemma_digits_wire(f3);
        lemma_digits_wire(f4);
        lemma_digits_wire(f6);
        let n0 = f0.len() as int;
        let n1 = n0 + 1 + f1.len();
        let n2 = n1 + 1 + f2.len();
        let n3 = n2 + 1 + f3.len();
        let n4 = n3 + 1 + f4.len();
        let n5 = n4 + 1 + f5.len();
        let n6 = n5 + 1 + f6.len();
        assert(t.len() == n6 + 1 + sg.len());
        assert(vstd::utf8::is_ascii_chars(t));
        assert(t[n0] == '.');
        assert(t[n1] == '.');
        assert(t[n2] == '.');
        assert(t[n3] == '.');
        assert(t[n4] == '.');
        assert(t[n5] == '.');
        assert(t[n6] == '.');
        assert(forall|k: int| 0 <= k < n0 ==> t[k] == f0[k]);
        assert(forall|k: int| n0 < k < n1 ==> t[k] == f1[k - n0 - 1]);
        assert(forall|k: int| n1 < k < n2 ==> t[k] == f2[k - n1 - 1]);
        assert(forall|k: int| n2 < k < n3 ==> t[k] == f3[k - n2 - 1]);
        assert(forall|k: int| n3 < k < n4 ==> t[k] == f4[k - n3 - 1]);
        assert(forall|k: int| n4 < k < n5 ==> t[k] == f5[k - n4 - 1]);
        assert(forall|k: int| n5 < k < n6 ==> t[k] == f6[k - n5 - 1]);
        assert(forall|k: int| n6 < k < t.len() ==> t[k] == sg[k - n6 - 1]);
        lemma_find_dot_found(t, 0, n0);
        lemma_find_dot_found(t, n0 + 1, n1);
        lemma_find_dot_found(t, n1 + 1, n2);
        lemma_find_dot_found(t, n2 + 1, n3);
        lemma_find_dot_found(t, n3 + 1, n4);
        lemma_find_dot_found(t, n4 + 1, n5);
        lemma_find_dot_found(t, n5 + 1, n6);
        lemma_find_dot_none(t, n6 + 1);
        assert(spec_dots(t) == Some((n0, n1, n2, n3, n4, n5, n6)));
        assert(t.subrange(0, n0) =~= f0);
        assert(t.subrange(n0 + 1, n1) =~= f1);
        assert(t.subrange(n1 + 1, n2) =~= f2);
        assert(t.subrange(n2 + 1, n3) =~= f3);
        assert(t.subrange(n3 + 1, n4) =~= f4);
        assert(t.subrange(n4 + 1, n5) =~= f5);
        assert(t.subrange(n5 + 1, n6) =~= f6);
        assert(t.subrange(n6 + 1, t.len() as int) =~= sg);
        assert(t.subrange(0, n6) =~= si);
        assert(spec_parse_type(f2) == Some(c.token_type)) by {
            reveal_strlit("access");
            reveal_strlit("refresh");
        }
        crate::digits::lemma_parse_dec_str(c.issued_at);
        crate::digits::lemma_parse_dec_str(c.expires_at);
        crate::digits::lemma_parse_dec_str(c.token_id);
        assert(spec_parse_nbf(f5) == Some(c.not_before)) by {
            reveal_strlit("none");
            match c.not_before {
                Some(v) => {
                    crate::digits::lemma_dec_str_canonical(v as nat);
                    assert(crate::digits::is_digit_char(dec_str(v as nat)[0]));
                    assert(dec_str(v as nat) != "none"@);
                    crate::digits::lemma_parse_dec_str(v);
                },
                None => {},
            }
        }
        if !(now > c.expires_at) && !(match c.not_before {
            Some(nb) => now < nb,
            None => false,
        }) {
            let decoded = spec_decode(secret, t, now);
            assert(decoded matches Ok(d) && d =~= c);
        }
    }
}

/// Parse the wire spelling of an optional not-before instant.
fn parse_nbf(s: &str) -> (r: Option<Option<u64>>)
    ensures
        r == spec_parse_nbf(s@),
{
    proof {
        reveal_strlit("none");
    }
    if str_eq(s, "none") {
        return Some(None);
    }
    match parse_u64(s) {
        Some(v) => Some(Some(v)),
        None => None,
    }
}

} // verus!
