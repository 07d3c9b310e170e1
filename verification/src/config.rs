//! The configuration the resolution layer recognizes.
//!
//! `supabase_jwks_url` enables local token verification when set;
//! `auth_dev_overrides` gates both the trusted identity header and the
//! default-user fallback and must stay off outside development;
//! `default_user_id` is the development-only fallback subject.

use vstd::prelude::*;

verus! {

pub struct AuthConfig {
    pub supabase_url: Option<String>,
    pub supabase_service_role_key: Option<String>,
    pub supabase_jwks_url: Option<String>,
    pub auth_dev_overrides: bool,
    pub default_user_id: Option<String>,
}

impl AuthConfig {
    /// Whether the development-only identity overrides are active.
    pub fn auth_dev_overrides_enabled(&self) -> (enabled: bool)
        ensures
            enabled == self.auth_dev_overrides,
    {
        self.auth_dev_overrides
    }
}

} // verus!
