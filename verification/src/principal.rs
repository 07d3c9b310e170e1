//! Establishing the caller's identity for one request.
//!
//! The precedence is fixed: an enabled development override with a
//! non-empty trusted identity header wins outright and involves no
//! verification and no network call; otherwise a bearer token, if one
//! is present, is handed to the verifier; otherwise an enabled
//! override falls back to the configured default subject; otherwise
//! the request is unauthenticated.  The stricter variant used by
//! callers that need a cryptographically verified identity refuses
//! the override path outright.
//!
//! The verification itself (local keys or the remote identity call)
//! happens outside these functions; they take its outcome as an
//! argument, so every decision here is checked for every outcome.

use vstd::prelude::*;

use crate::config::AuthConfig;
use crate::errors::AppError;
use crate::strings::{find_char, lower_seq, str_eq_ignore_case, trim_of, trimmed};

verus! {

/// `serde_json::Value` carried opaquely: the resolution layer never
/// reads inside a metadata blob, it only passes it along.
#[verifier::external_type_specification]
#[verifier::external_body]
pub struct ExValue(serde_json::Value);

/// The identity of the current caller.
pub struct SupabaseUser {
    pub id: String,
    pub email: Option<String>,
    pub user_metadata: Option<serde_json::Value>,
}

/// Where the first resolution step sends a request.
pub enum ResolveDecision {
    /// Development override: the trimmed header value is the subject,
    /// no verification and no network call happens.
    UseDevHeader(String),
    /// A bearer token is present and must be verified.
    NeedVerification(String),
    /// No usable credential in the request.
    NoCredential,
}

/// Where the strict resolution variant sends a request.
pub enum StrictDecision {
    /// The request came through the development-override header; the
    /// strict variant refuses to produce a principal for it.
    Refused,
    /// A bearer token is present and must be verified.
    NeedVerification(String),
    /// No bearer token at all.
    NoCredential,
}

/// Whether the request carries a usable development-override header.
pub open spec fn dev_header_usable(dev_header: Option<&String>) -> bool {
    match dev_header {
        Some(h) => trimmed(h@).len() > 0,
        None => false,
    }
}

pub open spec fn has_space(s: Seq<char>) -> bool {
    exists|i: int| 0 <= i < s.len() && s[i] == ' '
}

pub open spec fn first_space(s: Seq<char>) -> int {
    choose|i: int|
        0 <= i < s.len() && s[i] == ' ' && forall|j: int| 0 <= j < i ==> s[j] != ' '
}

/// What `Authorization: <scheme> <token>` yields: the trimmed token,
/// when the scheme is `bearer` in any case and the token is non-empty.
pub open spec fn bearer_token_spec(s: Seq<char>) -> Option<Seq<char>> {
    if !has_space(s) {
        None
    } else {
        let i = first_space(s);
        let scheme = s.subrange(0, i);
        let token = trimmed(s.subrange(i + 1, s.len() as int));
        if lower_seq(scheme) == "bearer"@ && token.len() > 0 {
            Some(token)
        } else {
            None
        }
    }
}

/// Whether the request carries a bearer token.
pub open spec fn bearer_present(authorization: Option<&String>) -> bool {
    match authorization {
        Some(a) => bearer_token_spec(a@) is Some,
        None => false,
    }
}

/// Extracts the bearer token from an `Authorization` header value.
pub fn bearer_token(authorization: Option<&String>) -> (r: Option<String>)
    ensures
        (match (authorization, r) {
            (Some(a), Some(t)) => bearer_token_spec(a@) == Some(t@),
            (Some(a), None) => bearer_token_spec(a@) is None,
            (None, None) => true,
            (None, Some(_)) => false,
        }),
{
    let value = match authorization {
        Some(v) => v,
        None => {
            return None;
        },
    };
    let s = value.as_str();
    let i = match find_char(s, ' ') {
        Some(i) => i,
        None => {
            return None;
        },
    };
    proof {
        assert(has_space(s@));
        let k = first_space(s@);
        assert(0 <= k < s@.len() && s@[k] == ' ' && forall|j: int| 0 <= j < k ==> s@[j] != ' ');
        assert(k == i as int);
    }
    let n = s.unicode_len();
    let scheme = s.substring_char(0, i);
    let rest = s.substring_char(i + 1, n);
    if !str_eq_ignore_case(scheme, "bearer") {
        proof {
            reveal_strlit("bearer");
            assert(lower_seq("bearer"@) =~= "bearer"@);
        }
        return None;
    }
    proof {
        reveal_strlit("bearer");
        assert(lower_seq("bearer"@) =~= "bearer"@);
    }
    let token = trim_of(rest);
    if token.unicode_len() == 0 {
        None
    } else {
        Some(token.to_owned())
    }
}

/// The first resolution step: development override first, then bearer
/// token, else no credential.  With overrides enabled and both a
/// usable identity header and a bearer token present, the override
/// wins and the token is never even looked at.
pub fn resolve_precedence(
    config: &AuthConfig,
    dev_header: Option<&String>,
    authorization: Option<&String>,
) -> (d: ResolveDecision)
    ensures
        (match d {
            ResolveDecision::UseDevHeader(u) => config.auth_dev_overrides && dev_header_usable(
                dev_header,
            ) && (dev_header matches Some(h) && u@ == trimmed(h@)),
            ResolveDecision::NeedVerification(t) => !(config.auth_dev_overrides
                && dev_header_usable(dev_header)) && (authorization matches Some(a)
                && bearer_token_spec(a@) == Some(t@)),
            ResolveDecision::NoCredential => !(config.auth_dev_overrides && dev_header_usable(
                dev_header,
            )) && !bearer_present(authorization),
        }),
        config.auth_dev_overrides && dev_header_usable(dev_header) ==> d matches UseDevHeader,
        !(config.auth_dev_overrides && dev_header_usable(dev_header)) && bearer_present(
            authorization,
        ) ==> d matches NeedVerification,
{
    if config.auth_dev_overrides_enabled() {
        if let Some(header) = dev_header {
            let value = trim_of(header.as_str());
            if value.unicode_len() > 0 {
                return ResolveDecision::UseDevHeader(value.to_owned());
            }
        }
    }
    match bearer_token(authorization) {
        Some(token) => ResolveDecision::NeedVerification(token),
        None => ResolveDecision::NoCredential,
    }
}

/// The final resolution step, given the verifier's outcome (or `None`
/// when no token was present or verification failed): a verified
/// subject wins; otherwise enabled overrides fall back to the
/// configured default subject; otherwise the request stays
/// unauthenticated.
pub fn resolve_after_verification(config: &AuthConfig, verified: Option<SupabaseUser>) -> (r:
    Option<String>)
    ensures
        (match verified {
            Some(user) => r matches Some(id) && id == user.id,
            None => {
                if config.auth_dev_overrides {
                    r == config.default_user_id
                } else {
                    r is None
                }
            },
        }),
{
    match verified {
        Some(user) => Some(user.id),
        None => {
            if config.auth_dev_overrides_enabled() {
                match &config.default_user_id {
                    Some(id) => Some(id.clone()),
                    None => None,
                }
            } else {
                None
            }
        },
    }
}

/// The strict variant: a request that resolved through the
/// development-override header is refused, even though the relaxed
/// variant would have produced a principal for it.
pub fn strict_precedence(
    config: &AuthConfig,
    dev_header: Option<&String>,
    authorization: Option<&String>,
) -> (d: StrictDecision)
    ensures
        (match d {
            StrictDecision::Refused => config.auth_dev_overrides && dev_header_usable(dev_header),
            StrictDecision::NeedVerification(t) => !(config.auth_dev_overrides
                && dev_header_usable(dev_header)) && (authorization matches Some(a)
                && bearer_token_spec(a@) == Some(t@)),
            StrictDecision::NoCredential => !(config.auth_dev_overrides && dev_header_usable(
                dev_header,
            )) && !bearer_present(authorization),
        }),
{
    if config.auth_dev_overrides_enabled() {
        if let Some(header) = dev_header {
            let value = trim_of(header.as_str());
            if value.unicode_len() > 0 {
                return StrictDecision::Refused;
            }
        }
    }
    match bearer_token(authorization) {
        Some(token) => StrictDecision::NeedVerification(token),
        None => StrictDecision::NoCredential,
    }
}

/// Turns a resolved subject into the strict `401` outcome the HTTP
/// boundary reports when the request had no usable credential.
pub fn require_user_id(resolved: Option<String>) -> (r: Result<String, AppError>)
    ensures
        (match resolved {
            Some(user_id) => r matches Ok(id) && id == user_id,
            None => r matches Err(e) && (e matches AppError::Unauthorized(m) && m@
                == "Unauthorized: missing or invalid Supabase access token."@),
        }),
{
    match resolved {
        Some(user_id) => Ok(user_id),
        None => Err(
            AppError::Unauthorized(
                String::from_str("Unauthorized: missing or invalid Supabase access token."),
            ),
        ),
    }
}

/// Turns a strict verification outcome into the `401` the HTTP
/// boundary reports when no verified principal exists.
pub fn require_supabase_user(verified: Option<SupabaseUser>) -> (r: Result<
    SupabaseUser,
    AppError,
>)
    ensures
        (match verified {
            Some(user) => r == Ok::<SupabaseUser, AppError>(user),
            None => r matches Err(e) && (e matches AppError::Unauthorized(m) && m@
                == "Unauthorized: missing or invalid Supabase access token."@),
        }),
{
    match verified {
        Some(user) => Ok(user),
        None => Err(
            AppError::Unauthorized(
                String::from_str("Unauthorized: missing or invalid Supabase access token."),
            ),
        ),
    }
}

} // verus!
