//! The two cache instances the resolution layer is wired to.
//!
//! The membership cache remembers, per `(org, user)` pair, whether the
//! user is a member of the organization — including the negative
//! answer, which is cached as `None` and is distinct from "never
//! looked up".  The public-listings cache remembers rendered listing
//! pages under a serialized-query key and is only ever invalidated
//! wholesale, since a per-key invalidation of a filter-dependent page
//! is not tractable.
//!
//! Both instances honor their configured TTL and capacity exactly,
//! per cache instance.

use vstd::prelude::*;

use crate::cache::{
    fresh_at, key_known, key_slot, lock_base, lock_generation, put_result, KeyLockTable,
    LockToken, StampedeSafeCache,
};

verus! {

/// What the tenancy store answers for one `(org, user)` pair.
#[derive(Debug)]
pub struct MembershipRecord {
    pub role: String,
    pub status: String,
}

impl Clone for MembershipRecord {
    fn clone(&self) -> (other: Self)
        ensures
            other == *self,
    {
        MembershipRecord { role: self.role.clone(), status: self.status.clone() }
    }
}

fn clone_membership(value: &Option<MembershipRecord>) -> (other: Option<MembershipRecord>)
    ensures
        other == *value,
{
    match value {
        None => None,
        Some(record) => Some(record.clone()),
    }
}

/// The composite cache key of a membership fact.
pub open spec fn membership_key(user_id: Seq<char>, org_id: Seq<char>) -> Seq<char> {
    org_id + seq![':'] + user_id
}

/// Builds the string under which a membership fact is cached.
pub fn membership_cache_key(user_id: &String, org_id: &String) -> (key: String)
    ensures
        key@ == membership_key(user_id@, org_id@),
{
    let key = org_id.clone().concat(":").concat(user_id.as_str());
    proof {
        reveal_strlit(":");
        assert(key@ =~= org_id@ + seq![':'] + user_id@);
    }
    key
}

/// The per-process cache of tenant-membership lookups.
pub struct OrgMembershipCache {
    values: StampedeSafeCache<Option<MembershipRecord>>,
    locks: KeyLockTable,
}

impl View for OrgMembershipCache {
    type V = Map<Seq<char>, (Option<MembershipRecord>, u64)>;

    closed spec fn view(&self) -> Map<Seq<char>, (Option<MembershipRecord>, u64)> {
        self.values@
    }
}

impl OrgMembershipCache {
    pub closed spec fn wf(&self) -> bool {
        self.values.wf() && self.locks.wf() && self.locks.spec_max() == self.values.spec_max()
    }

    pub closed spec fn spec_ttl(&self) -> u64 {
        self.values.spec_ttl()
    }

    pub closed spec fn spec_max(&self) -> usize {
        self.values.spec_max()
    }

    pub closed spec fn spec_lock_keys(&self) -> Seq<Seq<char>> {
        self.locks.spec_keys()
    }

    pub closed spec fn spec_lock_generation(&self) -> u64 {
        self.locks.spec_generation()
    }

    /// A fresh cache honoring the configured TTL and capacity.
    pub fn new(ttl_seconds: u64, max_entries: usize) -> (cache: Self)
        ensures
            cache.wf(),
            cache@ == Map::<Seq<char>, (Option<MembershipRecord>, u64)>::empty(),
            cache.spec_ttl() == ttl_seconds,
            cache.spec_max() == max_entries,
            cache.spec_lock_keys() == Seq::<Seq<char>>::empty(),
            cache.spec_lock_generation() == 0,
    {
        OrgMembershipCache {
            values: StampedeSafeCache::new(ttl_seconds, max_entries),
            locks: KeyLockTable::new(max_entries),
        }
    }

    pub fn ttl(&self) -> (ttl: u64)
        ensures
            ttl == self.spec_ttl(),
    {
        self.values.ttl()
    }

    /// The cached membership answer for `(org, user)` at tick `now`:
    /// `None` when nothing valid is cached, `Some(answer)` otherwise —
    /// where the answer itself may be `None`, the cached negative.
    pub fn get(&mut self, user_id: &String, org_id: &String, now: u64) -> (r: Option<
        Option<MembershipRecord>,
    >)
        requires
            old(self).wf(),
        ensures
            final(self).wf(),
            final(self)@ == if fresh_at(old(self)@, membership_key(user_id@, org_id@), now) {
                old(self)@
            } else {
                old(self)@.remove(membership_key(user_id@, org_id@))
            },
            (match r {
                Some(answer) => fresh_at(old(self)@, membership_key(user_id@, org_id@), now)
                    && answer == old(self)@[membership_key(user_id@, org_id@)].0,
                None => !fresh_at(old(self)@, membership_key(user_id@, org_id@), now),
            }),
            final(self).spec_ttl() == old(self).spec_ttl(),
            final(self).spec_max() == old(self).spec_max(),
            final(self).spec_lock_keys() == old(self).spec_lock_keys(),
            final(self).spec_lock_generation() == old(self).spec_lock_generation(),
    {
        let key = membership_cache_key(user_id, org_id);
        match self.values.get(&key, now) {
            None => None,
            Some(value) => Some(clone_membership(value)),
        }
    }

    /// Cache `value` for `(org, user)` at tick `now` with a fresh TTL.
    pub fn put(&mut self, user_id: &String, org_id: &String, value: Option<MembershipRecord>, now: u64)
        requires
            old(self).wf(),
            now + old(self).spec_ttl() <= u64::MAX,
        ensures
            final(self).wf(),
            final(self)@ == put_result(
                old(self)@,
                old(self).spec_max() as nat,
                membership_key(user_id@, org_id@),
                value,
                (now + old(self).spec_ttl()) as u64,
                now,
            ),
            final(self).spec_ttl() == old(self).spec_ttl(),
            final(self).spec_max() == old(self).spec_max(),
            final(self).spec_lock_keys() == old(self).spec_lock_keys(),
            final(self).spec_lock_generation() == old(self).spec_lock_generation(),
    {
        let key = membership_cache_key(user_id, org_id);
        self.values.put(key, value, now);
    }

    /// Drop the cached answer for `(org, user)`, used right after a
    /// membership create, update or remove.
    pub fn invalidate(&mut self, user_id: &String, org_id: &String)
        requires
            old(self).wf(),
        ensures
            final(self).wf(),
            final(self)@ == old(self)@.remove(membership_key(user_id@, org_id@)),
            final(self).spec_ttl() == old(self).spec_ttl(),
            final(self).spec_max() == old(self).spec_max(),
            final(self).spec_lock_keys() == old(self).spec_lock_keys(),
            final(self).spec_lock_generation() == old(self).spec_lock_generation(),
    {
        let key = membership_cache_key(user_id, org_id);
        self.values.invalidate(&key);
    }

    /// The current clear generation of the lock table.
    pub fn lock_generation(&self) -> (generation: u64)
        ensures
            generation == self.spec_lock_generation(),
    {
        self.locks.generation()
    }

    /// The fill lock shared by every concurrent filler of `(org, user)`.
    pub fn key_lock(&mut self, user_id: &String, org_id: &String) -> (token: LockToken)
        requires
            old(self).wf(),
            old(self).spec_lock_generation() < u64::MAX,
        ensures
            final(self).wf(),
            final(self)@ == old(self)@,
            final(self).spec_ttl() == old(self).spec_ttl(),
            final(self).spec_max() == old(self).spec_max(),
            final(self).spec_lock_generation() == lock_generation(
                old(self).spec_lock_keys(),
                old(self).spec_max(),
                old(self).spec_lock_generation(),
            ),
            token.generation == final(self).spec_lock_generation(),
            key_known(
                lock_base(old(self).spec_lock_keys(), old(self).spec_max()),
                membership_key(user_id@, org_id@),
            ) ==> token.slot == key_slot(
                lock_base(old(self).spec_lock_keys(), old(self).spec_max()),
                membership_key(user_id@, org_id@),
            ) && final(self).spec_lock_keys() =~= lock_base(
                old(self).spec_lock_keys(),
                old(self).spec_max(),
            ),
            !key_known(
                lock_base(old(self).spec_lock_keys(), old(self).spec_max()),
                membership_key(user_id@, org_id@),
            ) ==> token.slot == lock_base(
                old(self).spec_lock_keys(),
                old(self).spec_max(),
            ).len() && final(self).spec_lock_keys() =~= lock_base(
                old(self).spec_lock_keys(),
                old(self).spec_max(),
            ).push(membership_key(user_id@, org_id@)),
    {
        let key = membership_cache_key(user_id, org_id);
        self.locks.key_lock(&key)
    }
}

/// The per-process cache of rendered public listing pages.
pub struct PublicListingsCache {
    values: StampedeSafeCache<String>,
    locks: KeyLockTable,
}

impl View for PublicListingsCache {
    type V = Map<Seq<char>, (String, u64)>;

    closed spec fn view(&self) -> Map<Seq<char>, (String, u64)> {
        self.values@
    }
}

impl PublicListingsCache {
    pub closed spec fn wf(&self) -> bool {
        self.values.wf() && self.locks.wf() && self.locks.spec_max() == self.values.spec_max()
    }

    pub closed spec fn spec_ttl(&self) -> u64 {
        self.values.spec_ttl()
    }

    pub closed spec fn spec_max(&self) -> usize {
        self.values.spec_max()
    }

    pub closed spec fn spec_lock_keys(&self) -> Seq<Seq<char>> {
        self.locks.spec_keys()
    }

    pub closed spec fn spec_lock_generation(&self) -> u64 {
        self.locks.spec_generation()
    }

    /// A fresh cache honoring the configured TTL and capacity.
    pub fn new(ttl_seconds: u64, max_entries: usize) -> (cache: Self)
        ensures
            cache.wf(),
            cache@ == Map::<Seq<char>, (String, u64)>::empty(),
            cache.spec_ttl() == ttl_seconds,
            cache.spec_max() == max_entries,
            cache.spec_lock_keys() == Seq::<Seq<char>>::empty(),
            cache.spec_lock_generation() == 0,
    {
        PublicListingsCache {
            values: StampedeSafeCache::new(ttl_seconds, max_entries),
            locks: KeyLockTable::new(max_entries),
        }
    }

    /// The cached page under `key` at tick `now`, if still valid.
    pub fn get(&mut self, key: &String, now: u64) -> (r: Option<String>)
        requires
            old(self).wf(),
        ensures
            final(self).wf(),
            final(self)@ == if fresh_at(old(self)@, key@, now) {
                old(self)@
            } else {
                old(self)@.remove(key@)
            },
            (match r {
                Some(page) => fresh_at(old(self)@, key@, now) && page == old(self)@[key@].0,
                None => !fresh_at(old(self)@, key@, now),
            }),
            final(self).spec_ttl() == old(self).spec_ttl(),
            final(self).spec_max() == old(self).spec_max(),
            final(self).spec_lock_keys() == old(self).spec_lock_keys(),
            final(self).spec_lock_generation() == old(self).spec_lock_generation(),
    {
        match self.values.get(key, now) {
            None => None,
            Some(page) => Some(page.clone()),
        }
    }

    /// Cache `page` under `key` at tick `now` with a fresh TTL.
    pub fn put(&mut self, key: String, page: String, now: u64)
        requires
            old(self).wf(),
            now + old(self).spec_ttl() <= u64::MAX,
        ensures
            final(self).wf(),
            final(self)@ == put_result(
                old(self)@,
                old(self).spec_max() as nat,
                key@,
                page,
                (now + old(self).spec_ttl()) as u64,
                now,
            ),
            final(self).spec_ttl() == old(self).spec_ttl(),
            final(self).spec_max() == old(self).spec_max(),
            final(self).spec_lock_keys() == old(self).spec_lock_keys(),
            final(self).spec_lock_generation() == old(self).spec_lock_generation(),
    {
        self.values.put(key, page, now);
    }

    /// Drop every cached page: run whenever any listing changes
    /// publish state.
    pub fn clear(&mut self)
        requires
            old(self).wf(),
        ensures
            final(self).wf(),
            final(self)@ == Map::<Seq<char>, (String, u64)>::empty(),
            final(self).spec_ttl() == old(self).spec_ttl(),
            final(self).spec_max() == old(self).spec_max(),
            final(self).spec_lock_keys() == old(self).spec_lock_keys(),
            final(self).spec_lock_generation() == old(self).spec_lock_generation(),
    {
        self.values.clear();
    }

    /// The current clear generation of the lock table.
    pub fn lock_generation(&self) -> (generation: u64)
        ensures
            generation == self.spec_lock_generation(),
    {
        self.locks.generation()
    }

    /// The fill lock shared by every concurrent filler of `key`.
    pub fn key_lock(&mut self, key: &String) -> (token: LockToken)
        requires
            old(self).wf(),
            old(self).spec_lock_generation() < u64::MAX,
        ensures
            final(self).wf(),
            final(self)@ == old(self)@,
            final(self).spec_ttl() == old(self).spec_ttl(),
            final(self).spec_max() == old(self).spec_max(),
            final(self).spec_lock_generation() == lock_generation(
                old(self).spec_lock_keys(),
                old(self).spec_max(),
                old(self).spec_lock_generation(),
            ),
            token.generation == final(self).spec_lock_generation(),
            key_known(lock_base(old(self).spec_lock_keys(), old(self).spec_max()), key@)
                ==> token.slot == key_slot(
                lock_base(old(self).spec_lock_keys(), old(self).spec_max()),
                key@,
            ) && final(self).spec_lock_keys() =~= lock_base(
                old(self).spec_lock_keys(),
                old(self).spec_max(),
            ),
            !key_known(lock_base(old(self).spec_lock_keys(), old(self).spec_max()), key@)
                ==> token.slot == lock_base(old(self).spec_lock_keys(), old(self).spec_max()).len()
                && final(self).spec_lock_keys() =~= lock_base(
                old(self).spec_lock_keys(),
                old(self).spec_max(),
            ).push(key@),
    {
        self.locks.key_lock(key)
    }
}

} // verus!
