//! The set of token-verification keys and its holder.
//!
//! A key set is the parsed form of the JWKS document the identity
//! provider publishes: per entry a key id and the key material.  The
//! holder keeps the last-fetched set; it has no TTL and is never
//! polled — staleness is resolved reactively, by the refresh-on-miss
//! protocol of the verifier.  Fetching the document is I/O and happens
//! outside; the holder only stores what the fetch returned.

use vstd::prelude::*;

verus! {

/// `jsonwebtoken::jwk::Jwk` carried opaquely: the key material of one
/// JWKS entry, handed to the decoder as is.
#[verifier::external_type_specification]
#[verifier::external_body]
pub struct ExJwk(jsonwebtoken::jwk::Jwk);

/// One verification key: its advertised key id and its material.
pub struct KeyEntry {
    pub kid: Option<String>,
    pub jwk: jsonwebtoken::jwk::Jwk,
}

/// Whether some entry advertises `kid`.
pub open spec fn has_kid(keys: Seq<KeyEntry>, kid: Seq<char>) -> bool {
    exists|i: int|
        #![trigger keys[i]]
        0 <= i < keys.len() && (keys[i].kid matches Some(s) && s@ == kid)
}

fn kid_matches(entry_kid: &Option<String>, kid: &String) -> (r: bool)
    ensures
        r == ((*entry_kid) matches Some(s) && s@ == kid@),
{
    match entry_kid {
        Some(s) => *s == *kid,
        None => false,
    }
}

/// The current set of verification keys, replaced wholesale on
/// refresh.
pub struct KeySet {
    pub keys: Vec<KeyEntry>,
}

impl KeySet {
    /// The entry advertising `kid`, if any.
    pub fn find_key(&self, kid: &String) -> (r: Option<usize>)
        ensures
            (match r {
                Some(i) => i < self.keys@.len() && (self.keys@[i as int].kid matches Some(s) && s@
                    == kid@),
                None => !has_kid(self.keys@, kid@),
            }),
    {
        let n = self.keys.len();
        let mut i: usize = 0;
        while i < n
            invariant
                i <= n,
                n == self.keys@.len(),
                forall|j: int|
                    #![trigger self.keys@[j]]
                    0 <= j < i ==> !(self.keys@[j].kid matches Some(s) && s@ == kid@),
            decreases n - i,
        {
            let entry = &self.keys[i];
            proof {
                assert(*entry == self.keys@[i as int]);
            }
            if kid_matches(&entry.kid, kid) {
                return Some(i);
            }
            i = i + 1;
        }
        None
    }
}

/// Holds the last-fetched key set; empty until the first fetch.
pub struct SigningKeySource {
    cached: Option<KeySet>,
}

impl SigningKeySource {
    /// Whether a key set has been installed.
    pub closed spec fn spec_has_keys(&self) -> bool {
        self.cached is Some
    }

    /// The key ids of the installed set.
    pub closed spec fn spec_keys(&self) -> Seq<KeyEntry> {
        self.cached->Some_0.keys@
    }

    /// A source that has fetched nothing yet.
    pub fn new() -> (source: Self)
        ensures
            !source.spec_has_keys(),
    {
        SigningKeySource { cached: None }
    }

    /// Whether the first use still has to fetch the document.
    pub fn needs_fetch(&self) -> (r: bool)
        ensures
            r == !self.spec_has_keys(),
    {
        self.cached.is_none()
    }

    /// The installed key set, if any.
    pub fn current(&self) -> (r: Option<&KeySet>)
        ensures
            (match r {
                Some(ks) => self.spec_has_keys() && ks.keys@ == self.spec_keys(),
                None => !self.spec_has_keys(),
            }),
    {
        self.cached.as_ref()
    }

    /// Replace the cached set wholesale with what a fetch returned:
    /// the lazy first fill of `get` and the unconditional re-fetch of
    /// `refresh` both end here.
    pub fn install(&mut self, keys: KeySet)
        ensures
            final(self).spec_has_keys(),
            final(self).spec_keys() == keys.keys@,
    {
        self.cached = Some(keys);
    }
}

} // verus!
