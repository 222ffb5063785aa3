//! Payers that were verified, or refused, a short while ago.
//!
//! A payer who was verified need not be verified again. One who was refused is
//! verified before the request is served. A payer is kept with the time at
//! which that happened; the cache may drop them before it no longer counts.

use vstd::prelude::*;
use moka::sync::Cache;

use crate::clock::{counts, nanos_since, start_clock, still_counts, MILLISECOND};

verus! {

/// How long a verification counts by default, in milliseconds.
pub const DEFAULT_CACHE_TTL_MILLIS: u64 = 30_000;

/// How long a refusal counts, in milliseconds.
pub const FAILURE_TTL_MILLIS: u64 = 60_000;

/// How many payers are kept.
pub const MAX_PAYERS: u64 = 10_000;

/// The longest life of an entry in milliseconds: a thousand years.
pub const MAX_TTL_MILLIS: u64 = 31_536_000_000_000;

/// The addresses that were put into a cache and not taken out since, each with
/// the time that was put in last. One may be gone from the cache: it has
/// expired, or it made room for others.
pub uninterp spec fn addresses_put(
    c: Cache<String, u128, std::hash::RandomState>,
) -> Map<Seq<char>, u128>;

/// The life of the entries of a cache in milliseconds, and its capacity.
pub uninterp spec fn address_limits(c: Cache<String, u128, std::hash::RandomState>) -> (u64, u64);

/// `Cache::builder` with `time_to_live`, `max_capacity` and `build`: an empty
/// cache with these limits. `build` panics where the life is longer than a
/// thousand years of 365 days.
#[verifier::external_body]
fn new_address_cache(ttl_millis: u64, capacity: u64) -> (r: Cache<
    String,
    u128,
    std::hash::RandomState,
>)
    requires
        ttl_millis <= MAX_TTL_MILLIS,
    ensures
        (addresses_put(r) == Map::<Seq<char>, u128>::empty()),
        address_limits(r) == (ttl_millis, capacity),
{
    Cache::builder()
        .time_to_live(std::time::Duration::from_millis(ttl_millis))
        .max_capacity(capacity)
        .build()
}

/// `Cache::insert`: puts an address in with a time, in place of one that it
/// had.
#[verifier::external_body]
fn put_address(c: &mut Cache<String, u128, std::hash::RandomState>, address: String, at: u128)
    ensures
        addresses_put(*final(c)) == addresses_put(*old(c)).insert(address@, at),
        address_limits(*final(c)) == address_limits(*old(c)),
{
    c.insert(address, at)
}

/// `Cache::invalidate`: takes an address out.
#[verifier::external_body]
fn drop_address(c: &mut Cache<String, u128, std::hash::RandomState>, address: &str)
    ensures
        addresses_put(*final(c)) == addresses_put(*old(c)).remove(address@),
        address_limits(*final(c)) == address_limits(*old(c)),
{
    c.invalidate(address)
}

/// `Cache::get`: the time of an address that the cache holds, which then was
/// put in with it and not taken out since. Whether one that was put in is still
/// there depends on the time and on the other entries, and is left unsaid.
#[verifier::external_body]
fn get_address(c: &Cache<String, u128, std::hash::RandomState>, address: &str) -> (r: Option<u128>)
    ensures
        r matches Some(at) ==> addresses_put(*c).contains_key(address@) && addresses_put(
            *c,
        )[address@] == at,
{
    c.get(address)
}

/// Payers that were verified, or refused, a short while ago. Times are
/// nanoseconds since `origin`.
pub struct VerificationCache {
    cache: Cache<String, u128, std::hash::RandomState>,
    failures: Cache<String, u128, std::hash::RandomState>,
    ttl: u128,
    origin: std::time::Instant,
    hits: u64,
    misses: u64,
    downgrades: u64,
}

/// The payers that were verified and those that were refused and not verified
/// since, each with the time at which they last were; how long a verification
/// counts, in nanoseconds; and how often the cache has answered. The counts
/// wrap around.
pub struct CacheView {
    pub verified: Map<Seq<char>, u128>,
    pub failed: Map<Seq<char>, u128>,
    pub ttl: nat,
    pub hits: u64,
    pub misses: u64,
    pub downgrades: u64,
}

impl View for VerificationCache {
    type V = CacheView;

    closed spec fn view(&self) -> CacheView {
        CacheView {
            verified: addresses_put(self.cache),
            failed: addresses_put(self.failures),
            ttl: self.ttl as nat,
            hits: self.hits,
            misses: self.misses,
            downgrades: self.downgrades,
        }
    }
}

impl CacheView {
    /// Whether a payer was verified, and that counts at a time.
    pub open spec fn recently_verified(self, address: Seq<char>, now: u128) -> bool {
        self.verified.contains_key(address) && counts(Some(self.verified[address]), now, self.ttl)
    }

    /// Whether a payer was refused and not verified since, and that counts at
    /// a time.
    pub open spec fn recently_failed(self, address: Seq<char>, now: u128) -> bool {
        self.failed.contains_key(address) && counts(
            Some(self.failed[address]),
            now,
            60_000_000_000,
        )
    }

    /// The cache after a payer was verified at a time: a refusal is forgotten.
    pub open spec fn with_verified(self, address: Seq<char>, now: u128) -> CacheView {
        CacheView {
            verified: self.verified.insert(address, now),
            failed: self.failed.remove(address),
            ..self
        }
    }

    /// The cache after a payer was refused at a time.
    pub open spec fn with_failed(self, address: Seq<char>, now: u128) -> CacheView {
        CacheView { failed: self.failed.insert(address, now), ..self }
    }

    /// The cache after a lookup of a verification: a hit where one was found,
    /// else a miss.
    pub open spec fn looked_up(self, found: bool) -> CacheView {
        if found {
            CacheView { hits: counted(self.hits), ..self }
        } else {
            CacheView { misses: counted(self.misses), ..self }
        }
    }

    /// The cache after a lookup of a refusal: a downgrade where one was found.
    pub open spec fn failure_looked_up(self, found: bool) -> CacheView {
        if found {
            CacheView { downgrades: counted(self.downgrades), ..self }
        } else {
            self
        }
    }
}

/// One more, or 0 after the greatest count.
pub open spec fn counted(n: u64) -> u64 {
    if n == u64::MAX {
        0
    } else {
        (n + 1) as u64
    }
}

/// One more, or 0 after the greatest count.
fn count_up(n: u64) -> (r: u64)
    ensures
        r == counted(n),
{
    if n == 0xffff_ffff_ffff_ffff {
        0
    } else {
        n + 1
    }
}

impl VerificationCache {
    /// The life in milliseconds and the greatest number of the verifications
    /// that are kept, and those of the refusals.
    pub closed spec fn limits(&self) -> ((u64, u64), (u64, u64)) {
        (address_limits(self.cache), address_limits(self.failures))
    }

    /// A cache in which a verification counts for so many milliseconds.
    pub fn new(ttl_millis: u64) -> (r: Self)
        requires
            ttl_millis <= MAX_TTL_MILLIS,
        ensures
            r@ == (CacheView {
                verified: Map::empty(),
                failed: Map::empty(),
                ttl: (ttl_millis * 1_000_000) as nat,
                hits: 0,
                misses: 0,
                downgrades: 0,
            }),
            r.limits() == ((ttl_millis, 10_000u64), (60_000u64, 10_000u64)),
    {
        VerificationCache {
            cache: new_address_cache(ttl_millis, MAX_PAYERS),
            failures: new_address_cache(FAILURE_TTL_MILLIS, MAX_PAYERS),
            ttl: ttl_millis as u128 * MILLISECOND,
            origin: start_clock(),
            hits: 0,
            misses: 0,
            downgrades: 0,
        }
    }

    /// A cache in which a verification counts for half a minute.
    pub fn with_default_ttl() -> (r: Self)
        ensures
            r@ == (CacheView {
                verified: Map::empty(),
                failed: Map::empty(),
                ttl: 30_000_000_000,
                hits: 0,
                misses: 0,
                downgrades: 0,
            }),
            r.limits() == ((30_000u64, 10_000u64), (60_000u64, 10_000u64)),
    {
        Self::new(DEFAULT_CACHE_TTL_MILLIS)
    }

    /// The time on the cache's clock.
    pub fn now(&self) -> u128 {
        nanos_since(&self.origin)
    }

    /// Whether the cache holds a verification of a payer that counts at a
    /// time. No lookup is counted.
    pub(crate) fn holds_verified(&self, address: &str, now: u128) -> (r: bool)
        ensures
            r ==> self@.recently_verified(address@, now),
    {
        still_counts(get_address(&self.cache, address), now, self.ttl)
    }

    /// Whether the cache holds a refusal of a payer that counts at a time. No
    /// lookup is counted.
    pub(crate) fn holds_failure(&self, address: &str, now: u128) -> (r: bool)
        ensures
            r ==> self@.recently_failed(address@, now),
    {
        still_counts(
            get_address(&self.failures, address),
            now,
            FAILURE_TTL_MILLIS as u128 * MILLISECOND,
        )
    }

    /// Whether a payer was verified a short while before a time. The answer is
    /// counted as a hit or a miss. It is `false` once the life of the
    /// verification is over; until then it rests on the cache.
    pub fn is_verified_at(&mut self, address: &str, now: u128) -> (r: bool)
        ensures
            r ==> old(self)@.recently_verified(address@, now),
            final(self)@ == old(self)@.looked_up(r),
            final(self).limits() == old(self).limits(),
    {
        let found = self.holds_verified(address, now);
        self.lookup_found(found)
    }

    /// Whether a payer was verified a short while ago. The answer is counted
    /// as a hit or a miss.
    pub fn is_verified(&mut self, address: &str) -> (r: bool)
        ensures
            r ==> exists|now: u128| #[trigger] old(self)@.recently_verified(address@, now),
            final(self)@ == old(self)@.looked_up(r),
            final(self).limits() == old(self).limits(),
    {
        let now: u128 = self.now();
        self.is_verified_at(address, now)
    }

    /// Takes up whether a lookup has found a verification of a payer, and
    /// counts it as a hit or a miss.
    pub fn lookup_found(&mut self, found: bool) -> (r: bool)
        ensures
            r == found,
            final(self)@ == old(self)@.looked_up(found),
            final(self).limits() == old(self).limits(),
    {
        if found {
            self.hits = count_up(self.hits);
        } else {
            self.misses = count_up(self.misses);
        }
        found
    }

    /// Notes that a payer was verified at a time, and forgets a refusal.
    pub fn mark_verified_at(&mut self, address: &str, now: u128)
        ensures
            final(self)@ == old(self)@.with_verified(address@, now),
            final(self).limits() == old(self).limits(),
    {
        put_address(&mut self.cache, address.to_owned(), now);
        drop_address(&mut self.failures, address);
    }

    /// Notes that a payer was verified now, and forgets a refusal.
    pub fn mark_verified(&mut self, address: &str)
        ensures
            exists|now: u128| final(self)@ == #[trigger] old(self)@.with_verified(address@, now),
            final(self).limits() == old(self).limits(),
    {
        let now: u128 = self.now();
        self.mark_verified_at(address, now)
    }

    /// Whether a payer was refused a short while before a time and not verified
    /// since. A payer who was is counted as downgraded.
    pub fn has_recent_failure_at(&mut self, address: &str, now: u128) -> (r: bool)
        ensures
            r ==> old(self)@.recently_failed(address@, now),
            final(self)@ == old(self)@.failure_looked_up(r),
            final(self).limits() == old(self).limits(),
    {
        let found = self.holds_failure(address, now);
        self.failure_found(found)
    }

    /// Whether a payer was refused a short while ago and not verified since. A
    /// payer who was is counted as downgraded.
    pub fn has_recent_failure(&mut self, address: &str) -> (r: bool)
        ensures
            r ==> exists|now: u128| #[trigger] old(self)@.recently_failed(address@, now),
            final(self)@ == old(self)@.failure_looked_up(r),
            final(self).limits() == old(self).limits(),
    {
        let now: u128 = self.now();
        self.has_recent_failure_at(address, now)
    }

    /// Takes up whether a lookup has found a refusal of a payer: one that was
    /// found is counted as a downgrade.
    pub fn failure_found(&mut self, found: bool) -> (r: bool)
        ensures
            r == found,
            final(self)@ == old(self)@.failure_looked_up(found),
            final(self).limits() == old(self).limits(),
    {
        if found {
            self.downgrades = count_up(self.downgrades);
        }
        found
    }

    /// Notes that a payer was refused at a time.
    pub fn record_failure_at(&mut self, address: &str, now: u128)
        ensures
            final(self)@ == old(self)@.with_failed(address@, now),
            final(self).limits() == old(self).limits(),
    {
        put_address(&mut self.failures, address.to_owned(), now);
    }

    /// Notes that a payer was refused now.
    pub fn record_failure(&mut self, address: &str)
        ensures
            exists|now: u128| final(self)@ == #[trigger] old(self)@.with_failed(address@, now),
            final(self).limits() == old(self).limits(),
    {
        let now: u128 = self.now();
        self.record_failure_at(address, now)
    }

    /// The hits, the misses and the downgrades.
    pub fn stats(&self) -> (r: (u64, u64, u64))
        ensures
            r == (self@.hits, self@.misses, self@.downgrades),
    {
        (self.hits, self.misses, self.downgrades)
    }
}

// ---------------------------------------------------------------------------
// Laws
// ---------------------------------------------------------------------------

/// The cache after lookups of verifications with these answers.
pub open spec fn after_lookups(c: CacheView, found: Seq<bool>) -> CacheView
    decreases found.len(),
{
    if found.len() == 0 {
        c
    } else {
        after_lookups(c, found.drop_last()).looked_up(found.last())
    }
}

/// Every lookup of a verification is counted once, as a hit or as a miss: the
/// two together count the lookups, as far as counts that wrap around do.
/// Nothing else changes.
pub proof fn law_lookups_are_counted(c: CacheView, found: Seq<bool>)
    ensures
        ({
            let after = after_lookups(c, found);
            &&& (after.hits + after.misses - c.hits - c.misses - found.len())
                % 0x1_0000_0000_0000_0000 == 0
            &&& after.verified == c.verified
            &&& after.failed == c.failed
            &&& after.downgrades == c.downgrades
        }),
    decreases found.len(),
{
    if found.len() > 0 {
        law_lookups_are_counted(c, found.drop_last());
    }
}

/// A verification counts for its life and no longer: at every time after it,
/// the payer counts as verified exactly where less than that has passed, also
/// if a payment of theirs was refused in between. No other payer counts as
/// verified by it, and no lookup is counted.
pub proof fn law_verification_lasts_its_life(
    c: CacheView,
    a: Seq<char>,
    t: u128,
    refused: u128,
    b: Seq<char>,
    u: u128,
)
    requires
        t <= u,
    ensures
        ({
            let marked = c.with_verified(a, t);
            let later = marked.with_failed(a, refused);
            &&& marked.recently_verified(b, u) == if b == a {
                u - t < c.ttl
            } else {
                c.recently_verified(b, u)
            }
            &&& later.recently_verified(b, u) == marked.recently_verified(b, u)
            &&& (later.hits, later.misses, later.downgrades) == (c.hits, c.misses, c.downgrades)
        }),
{
}

/// A refusal counts for a minute, and is forgotten once the payer is verified.
pub proof fn law_refusal_lasts_a_minute(
    c: CacheView,
    a: Seq<char>,
    t: u128,
    verified: u128,
    u: u128,
)
    requires
        t <= u,
    ensures
        c.with_failed(a, t).recently_failed(a, u) == (u - t < 60_000_000_000),
        !c.with_failed(a, t).with_verified(a, verified).recently_failed(a, u),
{
}

/// A lookup that finds a verification is one hit more and no miss, one that
/// finds none a miss and no hit; one that finds a refusal is a downgrade more.
/// What is known of the payers stays.
pub proof fn law_each_lookup_counts_once(c: CacheView)
    requires
        c.hits < u64::MAX,
        c.misses < u64::MAX,
        c.downgrades < u64::MAX,
    ensures
        ({
            let hit = c.looked_up(true);
            let miss = c.looked_up(false);
            let refused = c.failure_looked_up(true);
            &&& (hit.hits, hit.misses, hit.downgrades) == ((c.hits + 1) as u64, c.misses, c.downgrades)
            &&& (miss.hits, miss.misses, miss.downgrades) == (
                c.hits,
                (c.misses + 1) as u64,
                c.downgrades,
            )
            &&& (refused.hits, refused.misses, refused.downgrades) == (
                c.hits,
                c.misses,
                (c.downgrades + 1) as u64,
            )
            &&& c.failure_looked_up(false) == c
            &&& (hit.verified, hit.failed, hit.ttl) == (c.verified, c.failed, c.ttl)
            &&& (miss.verified, miss.failed, miss.ttl) == (c.verified, c.failed, c.ttl)
            &&& (refused.verified, refused.failed, refused.ttl) == (c.verified, c.failed, c.ttl)
        }),
{
}

/// What becomes of one payer leaves every other one: who was verified still is,
/// and who was refused still is.
pub proof fn law_payers_are_apart(c: CacheView, a: Seq<char>, t: u128, b: Seq<char>, u: u128)
    requires
        a != b,
    ensures
        c.with_verified(a, t).recently_failed(b, u) == c.recently_failed(b, u),
        c.with_failed(a, t).recently_failed(b, u) == c.recently_failed(b, u),
        c.with_verified(a, t).recently_verified(b, u) == c.recently_verified(b, u),
        c.with_failed(a, t).recently_verified(b, u) == c.recently_verified(b, u),
{
}

} // verus!
