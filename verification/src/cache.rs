//! A TTL-bounded cache with per-key fill locks, safe against cache
//! stampedes.
//!
//! The engine keeps string-keyed entries that expire `ttl` ticks after
//! they are written; expiry is enforced lazily on the read path, never
//! by a background sweep.  When a write finds the table at or above
//! `max_entries` it first drops the expired entries, and if the table
//! is still full it clears the whole table — deliberately coarse, so
//! that observable contents match the wholesale-clear policy rather
//! than any per-entry eviction scheme.
//!
//! Time is a caller-supplied tick counter (`now`).  The surrounding
//! process reads its clock once per request and passes the value in,
//! which keeps every decision about freshness a pure function of the
//! cache state and that value.

use vstd::map::*;
use vstd::prelude::*;

verus! {

/// One stored entry: its key, the cached value, and the absolute tick
/// at which it stops being valid.
struct Slot<T> {
    key: String,
    value: T,
    expires_at: u64,
}

/// An entry is valid at `now` iff it is present and `now` is strictly
/// before its expiry tick.
pub open spec fn fresh_at<T>(m: Map<Seq<char>, (T, u64)>, key: Seq<char>, now: u64) -> bool {
    m.contains_key(key) && now < m[key].1
}

/// The table after dropping every entry that is no longer valid at
/// `now`.
pub open spec fn swept<T>(m: Map<Seq<char>, (T, u64)>, now: u64) -> Map<Seq<char>, (T, u64)> {
    Map::new(|key: Seq<char>| m.contains_key(key) && now < m[key].1, |key: Seq<char>| m[key])
}

/// The table after a write of `value` under `key` at `now`: if the
/// table is below `max` the entry is simply inserted; otherwise the
/// expired entries are dropped first, and if that does not bring the
/// table below `max` the whole table is cleared before the insert.
pub open spec fn put_result<T>(
    m: Map<Seq<char>, (T, u64)>,
    max: nat,
    key: Seq<char>,
    value: T,
    expires_at: u64,
    now: u64,
) -> Map<Seq<char>, (T, u64)> {
    let base = if m.dom().len() < max {
        m
    } else if swept(m, now).dom().len() < max {
        swept(m, now)
    } else {
        Map::empty()
    };
    base.insert(key, (value, expires_at))
}

spec fn keys_unique<T>(s: Seq<Slot<T>>) -> bool {
    forall|i: int, j: int| 0 <= i < j < s.len() ==> s[i].key@ != s[j].key@
}

spec fn slots_to_map<T>(s: Seq<Slot<T>>) -> Map<Seq<char>, (T, u64)>
    decreases s.len(),
{
    if s.len() == 0 {
        Map::empty()
    } else {
        slots_to_map(s.drop_last()).insert(s.last().key@, (s.last().value, s.last().expires_at))
    }
}

proof fn lemma_slots_contains<T>(s: Seq<Slot<T>>, key: Seq<char>)
    ensures
        slots_to_map(s).contains_key(key) <==> exists|i: int|
            0 <= i < s.len() && s[i].key@ == key,
    decreases s.len(),
{
    if s.len() > 0 {
        let s0 = s.drop_last();
        lemma_slots_contains(s0, key);
        if s.last().key@ == key {
            assert(s[s.len() - 1].key@ == key);
        } else {
            if slots_to_map(s).contains_key(key) {
                let i = choose|i: int| 0 <= i < s0.len() && s0[i].key@ == key;
                assert(s[i].key@ == key);
            }
            if exists|i: int| 0 <= i < s.len() && s[i].key@ == key {
                let i = choose|i: int| 0 <= i < s.len() && s[i].key@ == key;
                assert(s0[i].key@ == key);
            }
        }
    }
}

proof fn lemma_slots_value<T>(s: Seq<Slot<T>>, i: int)
    requires
        keys_unique(s),
        0 <= i < s.len(),
    ensures
        slots_to_map(s).contains_key(s[i].key@),
        slots_to_map(s)[s[i].key@] == (s[i].value, s[i].expires_at),
    decreases s.len(),
{
    if i < s.len() - 1 {
        let s0 = s.drop_last();
        assert(keys_unique(s0));
        lemma_slots_value(s0, i);
        assert(s.last().key@ != s[i].key@);
    }
}

proof fn lemma_slots_len<T>(s: Seq<Slot<T>>)
    requires
        keys_unique(s),
    ensures
        slots_to_map(s).dom().finite(),
        slots_to_map(s).dom().len() == s.len(),
    decreases s.len(),
{
    if s.len() > 0 {
        let s0 = s.drop_last();
        assert(keys_unique(s0));
        lemma_slots_len(s0);
        lemma_slots_contains(s0, s.last().key@);
        if exists|i: int| 0 <= i < s0.len() && s0[i].key@ == s.last().key@ {
            let i = choose|i: int| 0 <= i < s0.len() && s0[i].key@ == s.last().key@;
            assert(s[i].key@ == s[s.len() - 1].key@);
            assert(false);
        }
    }
}

proof fn lemma_slots_remove<T>(s: Seq<Slot<T>>, i: int)
    requires
        keys_unique(s),
        0 <= i < s.len(),
    ensures
        keys_unique(s.remove(i)),
        slots_to_map(s.remove(i)) =~= slots_to_map(s).remove(s[i].key@),
    decreases s.len(),
{
    let t = s.remove(i);
    let k = s[i].key@;
    assert forall|a: int, b: int| 0 <= a < b < t.len() implies t[a].key@ != t[b].key@ by {
        let sa = if a < i { a } else { a + 1 };
        let sb = if b < i { b } else { b + 1 };
        assert(t[a] == s[sa]);
        assert(t[b] == s[sb]);
    }
    let m1 = slots_to_map(t);
    let m2 = slots_to_map(s).remove(k);
    assert_maps_equal!(m1, m2, key => {
        lemma_slots_contains(t, key);
        lemma_slots_contains(s, key);
        if m1.contains_key(key) {
            let a = choose|a: int| 0 <= a < t.len() && t[a].key@ == key;
            let sa = if a < i { a } else { a + 1 };
            assert(t[a] == s[sa]);
            assert(key != k);
            lemma_slots_value(t, a);
            lemma_slots_value(s, sa);
        } else if m2.contains_key(key) {
            let a = choose|a: int| 0 <= a < s.len() && s[a].key@ == key;
            assert(a != i);
            let ta = if a < i { a } else { a - 1 };
            assert(t[ta] == s[a]);
        }
    });
}

/// Models the canonical get-or-fill pattern for one cold key.
///
/// The per-key lock serializes the critical sections of the `callers`
/// concurrent requesters; this function plays those critical sections
/// back in their serialization order.  Each caller re-checks the cache
/// and only fetches on a miss, so the underlying fetch runs exactly
/// once: the first caller stores `fetched`, and every later caller
/// reads that same entry back.  A positive TTL is a hypothesis of the
/// guarantee: an entry born already expired could not be shared.
pub fn cold_key_fill_round<T>(
    cache: &mut StampedeSafeCache<T>,
    key: &String,
    now: u64,
    fetched: T,
    callers: usize,
) -> (fetches: usize)
    requires
        old(cache).wf(),
        !fresh_at(old(cache)@, key@, now),
        now + old(cache).spec_ttl() <= u64::MAX,
        old(cache).spec_ttl() >= 1,
        callers >= 1,
    ensures
        fetches == 1,
        final(cache).wf(),
        fresh_at(final(cache)@, key@, now),
        final(cache)@[key@].0 == fetched,
{
    let mut pending: Option<T> = Some(fetched);
    let mut fetches: usize = 0;
    let mut i: usize = 0;
    while i < callers
        invariant
            i <= callers,
            cache.wf(),
            now + cache.spec_ttl() <= u64::MAX,
            cache.spec_ttl() >= 1,
            fetches == 0 ==> pending == Some(fetched) && !fresh_at(cache@, key@, now) && i == 0,
            fetches == 1 ==> pending is None && fresh_at(cache@, key@, now) && cache@[key@].0
                == fetched,
            fetches <= 1,
            i >= 1 ==> fetches == 1,
        decreases callers - i,
    {
        // one caller's critical section: re-check, fetch and store on a miss
        let cached = cache.get(key, now);
        let miss = cached.is_none();
        if miss {
            let value = pending.take().unwrap();
            cache.put(key.clone(), value, now);
            fetches = fetches + 1;
        }
        i = i + 1;
    }
    fetches
}

/// A TTL-bounded value table with the wholesale-clear overflow policy.
pub struct StampedeSafeCache<T> {
    ttl: u64,
    max_entries: usize,
    slots: Vec<Slot<T>>,
}

impl<T> View for StampedeSafeCache<T> {
    type V = Map<Seq<char>, (T, u64)>;

    closed spec fn view(&self) -> Map<Seq<char>, (T, u64)> {
        slots_to_map(self.slots@)
    }
}

impl<T> StampedeSafeCache<T> {
    /// Internal well-formedness: no key is stored twice.
    /// Constructors establish it and every method preserves it.
    pub closed spec fn wf(&self) -> bool {
        keys_unique(self.slots@)
    }

    /// Ticks a fresh entry stays valid for.
    pub closed spec fn spec_ttl(&self) -> u64 {
        self.ttl
    }

    /// The overflow threshold of the table.
    pub closed spec fn spec_max(&self) -> usize {
        self.max_entries
    }

    /// An empty cache whose entries will stay valid for `ttl` ticks,
    /// with overflow threshold `max_entries`.
    pub fn new(ttl: u64, max_entries: usize) -> (cache: Self)
        ensures
            cache.wf(),
            cache@ == Map::<Seq<char>, (T, u64)>::empty(),
            cache.spec_ttl() == ttl,
            cache.spec_max() == max_entries,
    {
        StampedeSafeCache { ttl, max_entries, slots: Vec::new() }
    }

    pub fn ttl(&self) -> (ttl: u64)
        ensures
            ttl == self.spec_ttl(),
    {
        self.ttl
    }

    pub fn max_entries(&self) -> (max: usize)
        ensures
            max == self.spec_max(),
    {
        self.max_entries
    }

    /// How many entries the table currently holds, expired ones
    /// included.
    pub fn len(&self) -> (n: usize)
        requires
            self.wf(),
        ensures
            n == self@.dom().len(),
    {
        proof {
            lemma_slots_len(self.slots@);
        }
        self.slots.len()
    }

    fn find_index(&self, key: &String) -> (r: Option<usize>)
        ensures
            match r {
                Some(i) => i < self.slots@.len() && self.slots@[i as int].key@ == key@,
                None => forall|i: int| 0 <= i < self.slots@.len() ==> self.slots@[i].key@ != key@,
            },
    {
        let n = self.slots.len();
        let mut i: usize = 0;
        while i < n
            invariant
                i <= n,
                n == self.slots@.len(),
                forall|j: int| 0 <= j < i ==> self.slots@[j].key@ != key@,
            decreases n - i,
        {
            if self.slots[i].key == *key {
                return Some(i);
            }
            i = i + 1;
        }
        None
    }

    /// Look `key` up at tick `now`: a valid entry is returned as is; an
    /// expired one is removed on this read path and reported as absent.
    pub fn get(&mut self, key: &String, now: u64) -> (r: Option<&T>)
        requires
            old(self).wf(),
        ensures
            final(self).wf(),
            final(self)@ == if fresh_at(old(self)@, key@, now) {
                old(self)@
            } else {
                old(self)@.remove(key@)
            },
            (match r {
                Some(v) => fresh_at(old(self)@, key@, now) && *v == old(self)@[key@].0,
                None => !fresh_at(old(self)@, key@, now),
            }),
            final(self).spec_ttl() == old(self).spec_ttl(),
            final(self).spec_max() == old(self).spec_max(),
    {
        match self.find_index(key) {
            None => {
                proof {
                    lemma_slots_contains(self.slots@, key@);
                    assert(old(self)@.remove(key@) =~= old(self)@);
                }
                None
            },
            Some(i) => {
                proof {
                    lemma_slots_value(self.slots@, i as int);
                }
                if now < self.slots[i].expires_at {
                    Some(&self.slots[i].value)
                } else {
                    proof {
                        lemma_slots_remove(self.slots@, i as int);
                    }
                    self.slots.remove(i);
                    None
                }
            },
        }
    }

    /// Drop `key` immediately, whatever its state.
    pub fn invalidate(&mut self, key: &String)
        requires
            old(self).wf(),
        ensures
            final(self).wf(),
            final(self)@ == old(self)@.remove(key@),
            final(self).spec_ttl() == old(self).spec_ttl(),
            final(self).spec_max() == old(self).spec_max(),
    {
        match self.find_index(key) {
            None => {
                proof {
                    lemma_slots_contains(self.slots@, key@);
                    assert(old(self)@.remove(key@) =~= old(self)@);
                }
            },
            Some(i) => {
                proof {
                    lemma_slots_remove(self.slots@, i as int);
                }
                self.slots.remove(i);
            },
        }
    }

    /// Drop every entry that is expired at `now`, keeping the rest.
    fn retain_fresh(&mut self, now: u64)
        requires
            old(self).wf(),
        ensures
            final(self).wf(),
            final(self)@ =~= swept(old(self)@, now),
            final(self).spec_ttl() == old(self).spec_ttl(),
            final(self).spec_max() == old(self).spec_max(),
    {
        let ghost m0 = slots_to_map(old(self).slots@);
        let mut kept: Vec<Slot<T>> = Vec::new();
        proof {
            assert(swept(m0, now) =~= swept(slots_to_map(self.slots@), now).union_prefer_right(
                slots_to_map(kept@),
            ));
        }
        while self.slots.len() > 0
            invariant
                keys_unique(self.slots@),
                keys_unique(kept@),
                forall|a: int, b: int|
                    0 <= a < self.slots@.len() && 0 <= b < kept@.len()
                        ==> self.slots@[a].key@ != kept@[b].key@,
                forall|b: int| 0 <= b < kept@.len() ==> now < kept@[b].expires_at,
                swept(m0, now) =~= swept(slots_to_map(self.slots@), now).union_prefer_right(
                    slots_to_map(kept@),
                ),
                self.ttl == old(self).ttl,
                self.max_entries == old(self).max_entries,
            decreases self.slots@.len(),
        {
            let ghost s = self.slots@;
            let ghost kept0 = kept@;
            let slot = self.slots.pop().unwrap();
            proof {
                assert(self.slots@ =~= s.drop_last());
                lemma_slots_contains(s.drop_last(), s.last().key@);
                if now < s.last().expires_at {
                    assert(swept(slots_to_map(s), now) =~= swept(
                        slots_to_map(s.drop_last()),
                        now,
                    ).insert(s.last().key@, (s.last().value, s.last().expires_at)));
                } else {
                    assert(swept(slots_to_map(s), now) =~= swept(
                        slots_to_map(s.drop_last()),
                        now,
                    ));
                }
            }
            if now < slot.expires_at {
                kept.push(slot);
                proof {
                    assert(kept@.drop_last() =~= kept0);
                    lemma_slots_contains(kept0, s.last().key@);
                    assert(swept(slots_to_map(s), now).union_prefer_right(slots_to_map(kept0))
                        =~= swept(slots_to_map(self.slots@), now).union_prefer_right(
                        slots_to_map(kept@),
                    ));
                }
            }
        }
        proof {
            assert(swept(slots_to_map(self.slots@), now) =~= Map::<Seq<char>, (T, u64)>::empty());
            assert(swept(m0, now) =~= slots_to_map(kept@));
        }
        self.slots = kept;
    }

    /// Write `value` under `key` at tick `now`, overwriting any previous
    /// entry and giving the pair a fresh TTL.  A full table is first
    /// swept of expired entries and, if that is not enough, cleared
    /// wholesale.
    pub fn put(&mut self, key: String, value: T, now: u64)
        requires
            old(self).wf(),
            now + old(self).spec_ttl() <= u64::MAX,
        ensures
            final(self).wf(),
            final(self)@ == put_result(
                old(self)@,
                old(self).spec_max() as nat,
                key@,
                value,
                (now + old(self).spec_ttl()) as u64,
                now,
            ),
            final(self).spec_ttl() == old(self).spec_ttl(),
            final(self).spec_max() == old(self).spec_max(),
    {
        let ghost k = key@;
        proof {
            lemma_slots_len(self.slots@);
        }
        if self.slots.len() >= self.max_entries {
            self.retain_fresh(now);
            proof {
                lemma_slots_len(self.slots@);
            }
            if self.slots.len() >= self.max_entries {
                self.slots.clear();
            }
        }
        let ghost base = slots_to_map(self.slots@);
        let expires_at = now + self.ttl;
        match self.find_index(&key) {
            Some(i) => {
                proof {
                    lemma_slots_remove(self.slots@, i as int);
                }
                self.slots.remove(i);
            },
            None => {
                proof {
                    lemma_slots_contains(self.slots@, k);
                }
            },
        }
        proof {
            lemma_slots_contains(self.slots@, k);
        }
        let ghost before_push = self.slots@;
        self.slots.push(Slot { key, value, expires_at });
        proof {
            assert(self.slots@.drop_last() =~= before_push);
            assert(slots_to_map(self.slots@) =~= base.insert(k, (value, expires_at)));
        }
    }

    /// Drop every entry at once.
    pub fn clear(&mut self)
        ensures
            final(self).wf(),
            final(self)@ == Map::<Seq<char>, (T, u64)>::empty(),
            final(self).spec_ttl() == old(self).spec_ttl(),
            final(self).spec_max() == old(self).spec_max(),
    {
        self.slots.clear();
    }
}

/// TTL expiry: an entry written at `now` is present at every tick
/// strictly before `now + ttl` and absent from `now + ttl` on, whatever
/// the table held before.
pub proof fn lemma_ttl_expiry<T>(
    m: Map<Seq<char>, (T, u64)>,
    max: nat,
    key: Seq<char>,
    value: T,
    now: u64,
    ttl: u64,
    at: u64,
)
    requires
        now + ttl <= u64::MAX,
    ensures
        fresh_at(put_result(m, max, key, value, (now + ttl) as u64, now), key, at) <==> at < now
            + ttl,
{
}

/// Negative caching: storing `None` under a key yields an entry that a
/// later read (within the TTL window) reports as present-with-`None`,
/// distinct from a key that was never looked up, which is absent.
pub proof fn lemma_negative_entry_cached<T>(
    m: Map<Seq<char>, (Option<T>, u64)>,
    max: nat,
    key: Seq<char>,
    now: u64,
    ttl: u64,
    at: u64,
)
    requires
        now + ttl <= u64::MAX,
        at < now + ttl,
    ensures
        fresh_at(put_result(m, max, key, None, (now + ttl) as u64, now), key, at),
        put_result(m, max, key, None::<T>, (now + ttl) as u64, now)[key].0 is None,
{
}

/// Invalidation: once a key is dropped, it is absent at every tick,
/// even before its TTL would have elapsed.
pub proof fn lemma_invalidate_absent<T>(m: Map<Seq<char>, (T, u64)>, key: Seq<char>, at: u64)
    ensures
        !fresh_at(m.remove(key), key, at),
{
}

/// The identity of a per-key fill lock: the handle callers share while
/// they serialize a fill.  Two handles are the same lock exactly when
/// they are equal.
#[derive(Clone, Copy, Debug, PartialEq, Eq, Structural)]
pub struct LockToken {
    pub slot: usize,
    pub generation: u64,
}

/// The lock table a request actually looks at: the table as it stands,
/// unless it has reached its overflow threshold, in which case it is
/// cleared wholesale first.
pub open spec fn lock_base(keys: Seq<Seq<char>>, max: usize) -> Seq<Seq<char>> {
    if keys.len() >= max {
        Seq::<Seq<char>>::empty()
    } else {
        keys
    }
}

/// The generation after the overflow decision of `lock_base`.
pub open spec fn lock_generation(keys: Seq<Seq<char>>, max: usize, generation: u64) -> u64 {
    if keys.len() >= max {
        (generation + 1) as u64
    } else {
        generation
    }
}

/// Whether `key` already has a lock in the table.
pub open spec fn key_known(keys: Seq<Seq<char>>, key: Seq<char>) -> bool {
    exists|i: int| 0 <= i < keys.len() && keys[i] == key
}

/// The slot of the lock `key` already has.
pub open spec fn key_slot(keys: Seq<Seq<char>>, key: Seq<char>) -> int {
    choose|i: int| 0 <= i < keys.len() && keys[i] == key
}

spec fn names_unique(s: Seq<Seq<char>>) -> bool {
    forall|i: int, j: int| 0 <= i < j < s.len() ==> s[i] != s[j]
}

/// The side table of per-key fill locks, separate from the value map.
///
/// A lock is created on the first request for its key and handed back
/// unchanged to every later requester of the same key.  The table has
/// its own, cruder overflow policy: once it holds `max_entries`
/// distinct keys it is cleared wholesale, after which the same key
/// maps to a new lock (the `generation` field of the token changes).
/// Around that clear boundary two callers can therefore hold distinct
/// locks for one key and both fill it — an accepted, bounded-cost
/// race; the tables are deliberately not merged.
pub struct KeyLockTable {
    max_entries: usize,
    generation: u64,
    keys: Vec<String>,
}

impl KeyLockTable {
    /// No key has two locks.
    pub closed spec fn wf(&self) -> bool {
        names_unique(self.spec_keys())
    }

    /// The keys that currently have a lock, in creation order.
    pub closed spec fn spec_keys(&self) -> Seq<Seq<char>> {
        self.keys@.map_values(|k: String| k@)
    }

    /// Bumped on every wholesale clear of the table.
    pub closed spec fn spec_generation(&self) -> u64 {
        self.generation
    }

    /// The overflow threshold of the table.
    pub closed spec fn spec_max(&self) -> usize {
        self.max_entries
    }

    pub fn new(max_entries: usize) -> (table: Self)
        ensures
            table.wf(),
            table.spec_keys() == Seq::<Seq<char>>::empty(),
            table.spec_generation() == 0,
            table.spec_max() == max_entries,
    {
        let table = KeyLockTable { max_entries, generation: 0, keys: Vec::new() };
        proof {
            assert(table.spec_keys() =~= Seq::<Seq<char>>::empty());
        }
        table
    }

    /// The current clear generation of the table.
    pub fn generation(&self) -> (generation: u64)
        ensures
            generation == self.spec_generation(),
    {
        self.generation
    }

    fn find_key(&self, key: &String) -> (r: Option<usize>)
        ensures
            match r {
                Some(i) => i < self.spec_keys().len() && self.spec_keys()[i as int] == key@,
                None => forall|i: int|
                    0 <= i < self.spec_keys().len() ==> self.spec_keys()[i] != key@,
            },
    {
        let n = self.keys.len();
        let mut i: usize = 0;
        while i < n
            invariant
                i <= n,
                n == self.keys@.len(),
                forall|j: int| 0 <= j < i ==> self.spec_keys()[j] != key@,
            decreases n - i,
        {
            if self.keys[i] == *key {
                return Some(i);
            }
            i = i + 1;
        }
        None
    }

    /// The lock for `key`: the one already in the table if the key has
    /// been seen since the last clear, else a newly created one.  When
    /// the table has reached `max_entries` distinct keys it is cleared
    /// first, so the key gets a fresh lock of a new generation.
    pub fn key_lock(&mut self, key: &String) -> (token: LockToken)
        requires
            old(self).wf(),
            old(self).spec_generation() < u64::MAX,
        ensures
            final(self).wf(),
            final(self).spec_max() == old(self).spec_max(),
            final(self).spec_generation() == lock_generation(
                old(self).spec_keys(),
                old(self).spec_max(),
                old(self).spec_generation(),
            ),
            token.generation == final(self).spec_generation(),
            key_known(lock_base(old(self).spec_keys(), old(self).spec_max()), key@)
                ==> token.slot == key_slot(
                lock_base(old(self).spec_keys(), old(self).spec_max()),
                key@,
            ) && final(self).spec_keys() =~= lock_base(
                old(self).spec_keys(),
                old(self).spec_max(),
            ),
            !key_known(lock_base(old(self).spec_keys(), old(self).spec_max()), key@)
                ==> token.slot == lock_base(old(self).spec_keys(), old(self).spec_max()).len()
                && final(self).spec_keys() =~= lock_base(
                old(self).spec_keys(),
                old(self).spec_max(),
            ).push(key@),
    {
        if self.keys.len() >= self.max_entries {
            self.keys.clear();
            self.generation = self.generation + 1;
            proof {
                assert(self.spec_keys() =~= Seq::<Seq<char>>::empty());
            }
        }
        let ghost base = self.spec_keys();
        match self.find_key(key) {
            Some(i) => {
                proof {
                    assert(key_known(base, key@));
                    let j = key_slot(base, key@);
                    assert(j == i as int);
                }
                LockToken { slot: i, generation: self.generation }
            },
            None => {
                let slot = self.keys.len();
                self.keys.push(key.clone());
                proof {
                    assert(self.spec_keys() =~= base.push(key@));
                }
                LockToken { slot, generation: self.generation }
            },
        }
    }
}


/// Lock sharing: requesters of one key against one table state all
/// compute the same lock.  As long as the table is below its
/// overflow threshold, the first requester either finds the key's
/// slot or creates it at the end of the table, no request clears the
/// table, and every later requester of the same key lands on that
/// same slot under the same generation — so concurrent fillers of a
/// key share one lock.
pub proof fn lemma_lock_sharing(keys: Seq<Seq<char>>, max: usize, key: Seq<char>)
    requires
        keys.len() + 1 < max,
    ensures
        ({
            let keys_after = if key_known(keys, key) {
                keys
            } else {
                keys.push(key)
            };
            let slot = if key_known(keys, key) {
                key_slot(keys, key)
            } else {
                keys.len() as int
            };
            &&& lock_base(keys, max) == keys
            &&& lock_base(keys_after, max) == keys_after
            &&& key_known(keys_after, key)
            &&& key_slot(keys_after, key) == slot
        }),
{
    if !key_known(keys, key) {
        let keys_after = keys.push(key);
        assert(keys_after[keys.len() as int] == key);
        assert(key_known(keys_after, key));
        let j = key_slot(keys_after, key);
        assert(0 <= j < keys_after.len() && keys_after[j] == key);
        if j < keys.len() {
            assert(keys[j] == key);
            assert(false);
        }
    }
}

/// All concurrent requesters of one key share one lock: as long as the

/// round does not cross the table's overflow boundary, every caller
/// asking for the lock of `key` receives the same token.
pub fn shared_lock_round(table: &mut KeyLockTable, key: &String, callers: usize) -> (all_same:
    bool)
    requires
        old(table).wf(),
        old(table).spec_generation() < u64::MAX,
        old(table).spec_keys().len() + 1 < old(table).spec_max(),
        callers >= 1,
    ensures
        all_same,
        final(table).wf(),
{
    let ghost keys0 = table.spec_keys();
    let first = table.key_lock(key);
    proof {
        assert(lock_base(keys0, table.spec_max()) == keys0);
        if !key_known(keys0, key@) {
            assert(table.spec_keys()[keys0.len() as int] == key@);
        }
        assert(key_known(table.spec_keys(), key@));
    }
    let mut all_same = true;
    let mut i: usize = 1;
    while i < callers
        invariant
            all_same,
            table.wf(),
            table.spec_generation() < u64::MAX,
            table.spec_keys().len() < table.spec_max(),
            key_known(table.spec_keys(), key@),
            first.generation == table.spec_generation(),
            first.slot == key_slot(table.spec_keys(), key@),
        decreases callers - i,
    {
        let ghost keys_before = table.spec_keys();
        let token = table.key_lock(key);
        proof {
            assert(lock_base(keys_before, table.spec_max()) == keys_before);
            assert(table.spec_keys() == keys_before);
            assert(token.slot == first.slot && token.generation == first.generation);
        }
        if !(token == first) {
            all_same = false;
        }
        i = i + 1;
    }
    all_same
}

} // verus!
