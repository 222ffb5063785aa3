//! The nonces of payments, so that none is paid with twice.
//!
//! A nonce counts as used for a time. The ones that no longer do are dropped.

use vstd::prelude::*;

use crate::clock::{counts, nanos_since, start_clock, still_counts, MILLISECOND};
use crate::text::same_text;

verus! {

/// A nonce, and when it was used.
pub struct UsedNonce {
    nonce: String,
    at: u128,
}

/// The nonces that were used. Times are nanoseconds since `origin`.
pub struct NonceTracker {
    used: Vec<UsedNonce>,
    ttl: u128,
    origin: std::time::Instant,
}

/// The nonces that were used, each with the time at which it was, and how long
/// one counts as used. Times are in nanoseconds.
pub struct NonceView {
    pub used: Map<Seq<char>, u128>,
    pub ttl: nat,
}

impl NonceView {
    /// Whether a nonce counts as used at a time.
    pub open spec fn remembers(self, nonce: Seq<char>, now: u128) -> bool {
        self.used.contains_key(nonce) && counts(Some(self.used[nonce]), now, self.ttl)
    }

    /// The nonces that count as used at a time.
    pub open spec fn remembered(self, now: u128) -> Map<Seq<char>, u128> {
        Map::new(|n: Seq<char>| self.remembers(n, now), |n: Seq<char>| self.used[n])
    }

    /// The nonces after one was used at a time, where it did not count as used
    /// already.
    pub open spec fn after(self, nonce: Seq<char>, now: u128) -> NonceView {
        let kept = self.remembered(now);
        NonceView {
            used: if kept.contains_key(nonce) {
                kept
            } else {
                kept.insert(nonce, now)
            },
            ..self
        }
    }
}

/// The nonces of a list, with their times.
spec fn times(s: Seq<UsedNonce>) -> Map<Seq<char>, u128>
    decreases s.len(),
{
    if s.len() == 0 {
        Map::empty()
    } else {
        times(s.drop_last()).insert(s.last().nonce@, s.last().at)
    }
}

/// Whether no nonce occurs twice in a list.
spec fn distinct(s: Seq<UsedNonce>) -> bool
    decreases s.len(),
{
    s.len() == 0 || (distinct(s.drop_last()) && !times(s.drop_last()).contains_key(s.last().nonce@))
}

/// No nonce occurs twice in the first part of a list in which none does.
proof fn lemma_distinct_prefix(s: Seq<UsedNonce>, n: int)
    requires
        distinct(s),
        0 <= n <= s.len(),
    ensures
        distinct(s.take(n)),
    decreases s.len(),
{
    if n < s.len() {
        lemma_distinct_prefix(s.drop_last(), n);
        assert(s.drop_last().take(n) =~= s.take(n));
    } else {
        assert(s.take(n) =~= s);
    }
}

impl View for NonceTracker {
    type V = NonceView;

    closed spec fn view(&self) -> NonceView {
        NonceView { used: times(self.used@), ttl: self.ttl as nat }
    }
}

impl NonceTracker {
    /// Whether no nonce is kept twice.
    pub closed spec fn valid(&self) -> bool {
        distinct(self.used@)
    }

    /// A tracker that has seen no nonce, and for which one counts as used for
    /// so many milliseconds.
    pub fn new(ttl_millis: u64) -> (r: Self)
        ensures
            r.valid(),
            r@ == (NonceView { used: Map::empty(), ttl: (ttl_millis * 1_000_000) as nat }),
    {
        NonceTracker {
            used: Vec::new(),
            ttl: ttl_millis as u128 * MILLISECOND,
            origin: start_clock(),
        }
    }

    /// The time on the tracker's clock.
    pub fn now(&self) -> u128 {
        nanos_since(&self.origin)
    }

    /// Uses a nonce at a time, and says whether it did not count as used.
    pub fn try_use_nonce_at(&mut self, nonce: &str, now: u128) -> (r: bool)
        requires
            old(self).valid(),
        ensures
            final(self).valid(),
            r == !old(self)@.remembers(nonce@, now),
            final(self)@ == old(self)@.after(nonce@, now),
    {
        let ghost view = self@;
        let mut kept: Vec<UsedNonce> = Vec::new();
        let mut found = false;
        let mut i: usize = 0;
        assert(self.used@.take(0) =~= seq![]);
        while i < self.used.len()
            invariant
                i <= self.used@.len(),
                view == self@,
                distinct(self.used@),
                distinct(kept@),
                times(kept@) == (NonceView {
                    used: times(self.used@.take(i as int)),
                    ..view
                }).remembered(now),
                found == times(kept@).contains_key(nonce@),
            decreases self.used@.len() - i,
        {
            let u = &self.used[i];
            let ghost part = NonceView { used: times(self.used@.take(i as int)), ..view };
            let ghost next = NonceView { used: times(self.used@.take(i + 1)), ..view };
            proof {
                lemma_distinct_prefix(self.used@, i + 1);
                assert(self.used@.take(i + 1).drop_last() =~= self.used@.take(i as int));
                assert(next.used == part.used.insert(u.nonce@, u.at));
            }
            let ghost before = kept@;
            if still_counts(Some(u.at), now, self.ttl) {
                if same_text(u.nonce.as_str(), nonce) {
                    found = true;
                }
                kept.push(UsedNonce { nonce: u.nonce.clone(), at: u.at });
                proof {
                    assert(kept@.drop_last() =~= before);
                    assert(times(kept@) == times(before).insert(u.nonce@, u.at));
                    assert(next.remembered(now) =~= times(kept@));
                }
            } else {
                assert(next.remembered(now) =~= part.remembered(now));
            }
            i += 1;
        }
        assert(self.used@.take(i as int) =~= self.used@);
        let ghost all = kept@;
        if !found {
            kept.push(UsedNonce { nonce: nonce.to_owned(), at: now });
            assert(kept@.drop_last() =~= all);
        }
        self.used = kept;
        !found
    }

    /// Uses a nonce now, and says whether it did not count as used.
    pub fn try_use_nonce(&mut self, nonce: &str) -> (r: bool)
        requires
            old(self).valid(),
        ensures
            final(self).valid(),
            exists|now: u128|
                r == !old(self)@.remembers(nonce@, now) && final(self)@ == #[trigger] old(
                    self,
                )@.after(nonce@, now),
    {
        let now: u128 = self.now();
        self.try_use_nonce_at(nonce, now)
    }
}

// ---------------------------------------------------------------------------
// Laws
// ---------------------------------------------------------------------------

/// A nonce that was used is refused for its life, and taken again after it.
pub proof fn law_used_for_its_life(v: NonceView, nonce: Seq<char>, t: u128, u: u128)
    requires
        !v.remembers(nonce, t),
        t <= u,
    ensures
        v.after(nonce, t).remembers(nonce, u) == (u - t < v.ttl),
{
}

/// Using a nonce leaves the others as they were: one counts as used at a later
/// time exactly where it did before.
pub proof fn law_others_are_kept(
    v: NonceView,
    nonce: Seq<char>,
    t: u128,
    other: Seq<char>,
    u: u128,
)
    requires
        other != nonce,
        t <= u,
    ensures
        v.after(nonce, t).remembers(other, u) == v.remembers(other, u),
{
}

} // verus!
