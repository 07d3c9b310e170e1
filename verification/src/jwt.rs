//! Local verification of a bearer token against the key set.
//!
//! The steps are fixed: parse the token header without verifying the
//! signature; reject a token without a key id; look the key id up,
//! and on a miss ask for exactly one refresh of the key set before
//! failing cleanly; reject a token whose declared algorithm is not
//! the one pinned algorithm, even when a matching key exists; only
//! then verify the signature and the standard claims.  Every failure
//! collapses to a rejection — the verifier never explains itself to
//! the caller, so it cannot be used as an oracle.

use vstd::prelude::*;

use crate::keys::{has_kid, KeySet};
use crate::principal::SupabaseUser;

verus! {

/// `jsonwebtoken::DecodingKey` carried opaquely: the usable form of
/// one verification key.
#[verifier::external_type_specification]
#[verifier::external_body]
pub struct ExDecodingKey(jsonwebtoken::DecodingKey);

/// What the unverified token header declares: its key id, and whether
/// the declared algorithm is the pinned one (ES256).
pub struct TokenHeader {
    pub kid: Option<String>,
    pub alg_es256: bool,
}

/// What parsing a token's header yields: a function of the token text
/// alone — `None` for an unparsable header, else the declared key id
/// and whether the declared algorithm is ES256.
pub uninterp spec fn token_header_of(token: Seq<char>) -> Option<(Option<Seq<char>>, bool)>;

/// Relies on `jsonwebtoken::decode_header`: it parses the token's
/// header part without verifying the signature, failing on a
/// malformed token, and its result depends on the token text alone.
#[verifier::external_body]
fn parse_token_header(token: &str) -> (r: Option<TokenHeader>)
    ensures
        (match (r, token_header_of(token@)) {
            (Some(h), Some(sh)) => sh.1 == h.alg_es256 && (match h.kid {
                Some(k) => sh.0 == Some(k@),
                None => sh.0 is None,
            }),
            (None, None) => true,
            _ => false,
        }),
{
    let header = match jsonwebtoken::decode_header(token) {
        Ok(h) => h,
        Err(_) => {
            return None;
        },
    };
    let alg_es256 = matches!(header.alg, jsonwebtoken::Algorithm::ES256);
    Some(TokenHeader { kid: header.kid, alg_es256 })
}

/// Relies on `jsonwebtoken::DecodingKey::from_jwk`: it builds the
/// verification key for one JWKS entry, failing on unusable key
/// material.
#[verifier::external_body]
fn key_from_jwk(jwk: &jsonwebtoken::jwk::Jwk) -> Option<jsonwebtoken::DecodingKey> {
    jsonwebtoken::DecodingKey::from_jwk(jwk).ok()
}

/// Relies on `jsonwebtoken::decode` with a `Validation` pinned to
/// ES256 and the given audience and issuer: it checks the signature
/// against `key` and the expiry, audience and issuer claims against
/// the system clock and the given values, and the claims `sub`,
/// `email` and `user_metadata` are read out.  The outcome depends on
/// the clock, so nothing more is assumed of it.  The validation's
/// timestamp helper panics only if the system clock predates the Unix
/// epoch — an environment condition, not an input.
#[verifier::external_body]
fn decode_user(
    token: &str,
    key: &jsonwebtoken::DecodingKey,
    audience: &String,
    issuer: &String,
) -> Option<SupabaseUser> {
    let mut validation = jsonwebtoken::Validation::new(jsonwebtoken::Algorithm::ES256);
    validation.set_audience(&[audience.as_str()]);
    validation.set_issuer(&[issuer.as_str()]);
    let data = jsonwebtoken::decode::<serde_json::Value>(token, key, &validation).ok()?;
    let id = data.claims.get("sub")?.as_str()?.to_string();
    let email = data.claims.get("email").and_then(|v| v.as_str()).map(|s| s.to_string());
    let user_metadata = data.claims.get("user_metadata").cloned();
    Some(SupabaseUser { id, email, user_metadata })
}

/// Strips every trailing slash.
pub open spec fn without_trailing_slashes(s: Seq<char>) -> Seq<char>
    decreases s.len(),
{
    if s.len() > 0 && s.last() == '/' {
        without_trailing_slashes(s.drop_last())
    } else {
        s
    }
}

/// The issuer a token of this deployment must declare.
pub open spec fn expected_issuer(url: Seq<char>) -> Seq<char> {
    without_trailing_slashes(url) + "/auth/v1"@
}

/// `url` without its trailing slashes, as a borrowed slice.
fn strip_trailing_slashes<'a>(url: &'a str) -> (r: &'a str)
    ensures
        r@ == without_trailing_slashes(url@),
{
    let n = url.unicode_len();
    let mut end: usize = n;
    proof {
        assert(url@.subrange(0, n as int) =~= url@);
    }
    while end > 0 && url.get_char(end - 1) == '/'
        invariant
            end <= n,
            n == url@.len(),
            without_trailing_slashes(url@) == without_trailing_slashes(
                url@.subrange(0, end as int),
            ),
        decreases end,
    {
        proof {
            let sub = url@.subrange(0, end as int);
            assert(sub.last() == url@[end - 1]);
            assert(sub.drop_last() =~= url@.subrange(0, end as int - 1));
        }
        end = end - 1;
    }
    proof {
        let sub = url@.subrange(0, end as int);
        assert(without_trailing_slashes(sub) == sub);
    }
    url.substring_char(0, end)
}

/// Builds the expected issuer from the deployment's base URL.
pub fn issuer_for(url: &str) -> (r: String)
    ensures
        r@ == expected_issuer(url@),
{
    strip_trailing_slashes(url).to_owned().concat("/auth/v1")
}

/// The identity provider's user-info endpoint for the deployment's
/// base URL.
pub fn user_info_endpoint(url: &str) -> (r: String)
    ensures
        r@ == without_trailing_slashes(url@) + "/auth/v1/user"@,
{
    strip_trailing_slashes(url).to_owned().concat("/auth/v1/user")
}

/// Whether one verification attempt would ask for a refresh: the
/// header parses, a key id is declared, and this key set does not
/// know it — whatever algorithm the header declares, since the key
/// lookup comes before the algorithm check.
pub open spec fn wants_refresh(token: Seq<char>, keys: Seq<crate::keys::KeyEntry>) -> bool {
    token_header_of(token) matches Some(h) && (h.0 matches Some(kid) && !has_kid(keys, kid))
}

/// The verifier's verdict for one token against one key set.
pub enum VerifyOutcome {
    /// Signature and claims checked out; here is the caller.
    Verified(SupabaseUser),
    /// The declared key id is unknown to this key set and no refresh
    /// has been spent yet: fetch the key set anew and retry once.
    NeedRefresh,
    /// The token is rejected; nothing distinguishes why.
    Rejected,
}

/// One verification attempt against `keys`.
///
/// `already_refreshed` says whether this attempt follows the one
/// permitted refresh; a second refresh is never requested, so garbage
/// tokens cannot cause refresh storms.
pub fn verify_token_with_keys(
    token: &String,
    keys: &KeySet,
    issuer: &String,
    already_refreshed: bool,
) -> (r: VerifyOutcome)
    ensures
        token_header_of(token@) is None ==> r is Rejected,
        (token_header_of(token@) matches Some(h) && h.0 is None) ==> r is Rejected,
        (token_header_of(token@) matches Some(h) && !h.1) ==> !(r is Verified),
        (token_header_of(token@) matches Some(h) && !h.1 && (h.0 matches Some(kid) && has_kid(
            keys.keys@,
            kid,
        ))) ==> r is Rejected,
        wants_refresh(token@, keys.keys@) ==> r == (if already_refreshed {
            VerifyOutcome::Rejected
        } else {
            VerifyOutcome::NeedRefresh
        }),
        r is NeedRefresh ==> !already_refreshed && wants_refresh(token@, keys.keys@),
        r is Verified ==> (token_header_of(token@) matches Some(h) && h.1 && (h.0 matches Some(
            kid,
        ) && has_kid(keys.keys@, kid))),
{
    let header = match parse_token_header(token.as_str()) {
        Some(h) => h,
        None => {
            return VerifyOutcome::Rejected;
        },
    };
    let kid = match header.kid {
        Some(k) => k,
        None => {
            return VerifyOutcome::Rejected;
        },
    };
    let index = match keys.find_key(&kid) {
        Some(i) => i,
        None => {
            if already_refreshed {
                return VerifyOutcome::Rejected;
            } else {
                return VerifyOutcome::NeedRefresh;
            }
        },
    };
    proof {
        assert(has_kid(keys.keys@, kid@));
    }
    if !header.alg_es256 {
        return VerifyOutcome::Rejected;
    }
    let decoding_key = match key_from_jwk(&keys.keys[index].jwk) {
        Some(k) => k,
        None => {
            return VerifyOutcome::Rejected;
        },
    };
    let audience = String::from_str("authenticated");
    match decode_user(token.as_str(), &decoding_key, &audience, issuer) {
        Some(user) => VerifyOutcome::Verified(user),
        None => VerifyOutcome::Rejected,
    }
}

/// The reactive key-rotation protocol, played out in full: verify
/// against the current key set, and on an unrecognized key id spend
/// exactly one refresh — `refreshed` is what that one re-fetch
/// returned — then retry.  The refresh count is returned and is `1`
/// exactly when the first attempt met an unknown key id; if the
/// refreshed set still does not know it, the outcome is one clean
/// rejection, never a second refresh.
pub fn verify_with_rotation(
    token: &String,
    initial: &KeySet,
    refreshed: &KeySet,
    issuer: &String,
) -> (r: (Option<SupabaseUser>, usize))
    ensures
        r.1 == (if wants_refresh(token@, initial.keys@) {
            1int
        } else {
            0int
        }),
        wants_refresh(token@, initial.keys@) && wants_refresh(token@, refreshed.keys@) ==> r.0
            is None,
        token_header_of(token@) is None ==> r.0 is None,
        (token_header_of(token@) matches Some(h) && h.0 is None) ==> r.0 is None,
        (token_header_of(token@) matches Some(h) && !h.1) ==> r.0 is None,
        r.0 is Some ==> (token_header_of(token@) matches Some(h) && h.1),
{
    match verify_token_with_keys(token, initial, issuer, false) {
        VerifyOutcome::Verified(user) => (Some(user), 0),
        VerifyOutcome::Rejected => (None, 0),
        VerifyOutcome::NeedRefresh => {
            match verify_token_with_keys(token, refreshed, issuer, true) {
                VerifyOutcome::Verified(user) => (Some(user), 1),
                _ => (None, 1),
            }
        },
    }
}

} // verus!
