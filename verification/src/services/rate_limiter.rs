//! Rate limiting by address, in fixed windows.
//!
//! The first request of an address opens a window. Until the window is over,
//! only so many requests are let through; the first one after that opens the
//! next window.

use vstd::prelude::*;

use crate::clock::{elapsed, nanos_since, start_clock};
use crate::text::{lowercase, same_text, to_lowercase};

verus! {

/// Up to this many addresses are kept, whatever the age of their windows.
pub const CLEANUP_THRESHOLD: usize = 10000;

/// A second, in nanoseconds.
pub const SECOND: u128 = 1_000_000_000;

/// The window of an address: how many requests it has seen, and when it began.
pub struct Window {
    address: String,
    count: u32,
    start: u128,
}

/// Counts requests by address. Times are nanoseconds since `origin`.
pub struct RateLimiter {
    windows: Vec<Window>,
    max_requests: u32,
    window_duration: u128,
    origin: std::time::Instant,
}

/// The state of a rate limiter: by address in lower case, how many requests
/// its window has seen and when it began.
pub struct LimiterView {
    pub windows: Map<Seq<char>, (u32, nat)>,
    pub max_requests: u32,
    pub window_duration: nat,
}

impl LimiterView {
    /// Whether a window is younger than two window durations.
    pub open spec fn is_recent(self, w: (u32, nat), now: nat) -> bool {
        elapsed(w.1, now) < 2 * self.window_duration
    }

    /// The windows without those that are no longer recent, once there are
    /// many.
    pub open spec fn cleaned(self, now: nat) -> Map<Seq<char>, (u32, nat)> {
        if self.windows.len() > CLEANUP_THRESHOLD {
            Map::new(
                |k: Seq<char>| self.windows.contains_key(k) && self.is_recent(self.windows[k], now),
                |k: Seq<char>| self.windows[k],
            )
        } else {
            self.windows
        }
    }

    /// Whether a request is let through, given the window of its address.
    pub open spec fn allows(self, w: Option<(u32, nat)>, now: nat) -> bool {
        match w {
            Some(w) => elapsed(w.1, now) >= self.window_duration || w.0 < self.max_requests,
            None => true,
        }
    }

    /// The window of an address after a request, given the one before it.
    pub open spec fn next_window(self, w: Option<(u32, nat)>, now: nat) -> (u32, nat) {
        match w {
            Some(w) => if elapsed(w.1, now) >= self.window_duration {
                (1, now)
            } else if w.0 < self.max_requests {
                ((w.0 + 1) as u32, w.1)
            } else {
                w
            },
            None => (1, now),
        }
    }

    /// The state after a request of an address.
    pub open spec fn after(self, address: Seq<char>, now: nat) -> LimiterView {
        let m = self.cleaned(now);
        let k = lowercase(address);
        LimiterView { windows: m.insert(k, self.next_window(m.get(k), now)), ..self }
    }

    /// Whether a request of an address is let through.
    pub open spec fn lets_through(self, address: Seq<char>, now: nat) -> bool {
        self.allows(self.cleaned(now).get(lowercase(address)), now)
    }

    /// The state after requests, each of an address at a time.
    pub open spec fn after_all(self, requests: Seq<(Seq<char>, nat)>) -> LimiterView
        decreases requests.len(),
    {
        if requests.len() == 0 {
            self
        } else {
            self.after_all(requests.drop_last()).after(requests.last().0, requests.last().1)
        }
    }
}

/// How many requests are of an address, which is given in lower case.
pub open spec fn requests_of(requests: Seq<(Seq<char>, nat)>, key: Seq<char>) -> nat
    decreases requests.len(),
{
    if requests.len() == 0 {
        0
    } else {
        requests_of(requests.drop_last(), key) + if lowercase(requests.last().0) == key {
            1nat
        } else {
            0nat
        }
    }
}

// ---------------------------------------------------------------------------
// The table of windows
// ---------------------------------------------------------------------------

/// The rows of the table: an address and its window.
spec fn rows(ws: Seq<Window>) -> Seq<(Seq<char>, (u32, nat))> {
    Seq::new(ws.len(), |i: int| (ws[i].address@, (ws[i].count, ws[i].start as nat)))
}

/// Whether no two rows have one address.
spec fn distinct(t: Seq<(Seq<char>, (u32, nat))>) -> bool {
    forall|i: int, j: int| 0 <= i < j < t.len() ==> (#[trigger] t[i]).0 != (#[trigger] t[j]).0
}

/// The windows by address.
spec fn by_address(t: Seq<(Seq<char>, (u32, nat))>) -> Map<Seq<char>, (u32, nat)> {
    Map::new(
        |k: Seq<char>| exists|i: int| 0 <= i < t.len() && (#[trigger] t[i]).0 == k,
        |k: Seq<char>| t[choose|i: int| 0 <= i < t.len() && (#[trigger] t[i]).0 == k].1,
    )
}

/// Each row is found by its address.
proof fn lemma_row(t: Seq<(Seq<char>, (u32, nat))>, i: int)
    requires
        distinct(t),
        0 <= i < t.len(),
    ensures
        by_address(t).contains_key(t[i].0),
        by_address(t)[t[i].0] == t[i].1,
{
    let k = t[i].0;
    let j = choose|j: int| 0 <= j < t.len() && (#[trigger] t[j]).0 == k;
    assert(0 <= j < t.len() && t[j].0 == k);
    if i < j {
        assert(t[i].0 != t[j].0);
    } else if j < i {
        assert(t[j].0 != t[i].0);
    }
}

/// There are as many addresses as rows.
proof fn lemma_rows_len(t: Seq<(Seq<char>, (u32, nat))>)
    requires
        distinct(t),
    ensures
        by_address(t).len() == t.len(),
        by_address(t).dom().finite(),
{
    let keys = t.map_values(|r: (Seq<char>, (u32, nat))| r.0);
    assert(keys.no_duplicates());
    keys.unique_seq_to_set();
    assert(by_address(t).dom() =~= keys.to_set()) by {
        assert forall|k: Seq<char>| by_address(t).dom().contains(k) == keys.to_set().contains(k) by {
            if by_address(t).dom().contains(k) {
                let i = choose|i: int| 0 <= i < t.len() && (#[trigger] t[i]).0 == k;
                assert(keys[i] == k);
            }
            if keys.to_set().contains(k) {
                let i = choose|i: int| 0 <= i < keys.len() && keys[i] == k;
                assert(t[i].0 == k);
            }
        }
    }
}

/// Replacing the window of a row.
proof fn lemma_row_update(t: Seq<(Seq<char>, (u32, nat))>, i: int, w: (u32, nat))
    requires
        distinct(t),
        0 <= i < t.len(),
    ensures
        distinct(t.update(i, (t[i].0, w))),
        by_address(t.update(i, (t[i].0, w))) == by_address(t).insert(t[i].0, w),
{
    let u = t.update(i, (t[i].0, w));
    assert forall|a: int, b: int| 0 <= a < b < u.len() implies (#[trigger] u[a]).0 != (
    #[trigger] u[b]).0 by {
        assert(t[a].0 != t[b].0);
    }
    assert(by_address(u) =~= by_address(t).insert(t[i].0, w)) by {
        assert forall|k: Seq<char>|
            #![trigger by_address(u).contains_key(k)]
            by_address(u).contains_key(k) == by_address(t).insert(t[i].0, w).contains_key(k) && (
            by_address(u).contains_key(k) ==> by_address(u)[k] == by_address(t).insert(
                t[i].0,
                w,
            )[k]) by {
            if by_address(u).contains_key(k) {
                let j = choose|j: int| 0 <= j < u.len() && (#[trigger] u[j]).0 == k;
                lemma_row(u, j);
                lemma_row(t, j);
                lemma_row(t, i);
            }
            if by_address(t).contains_key(k) {
                let j = choose|j: int| 0 <= j < t.len() && (#[trigger] t[j]).0 == k;
                assert(u[j].0 == k);
            }
            assert(u[i].0 == t[i].0);
        }
    }
}

/// Adding a row for a new address.
proof fn lemma_row_push(t: Seq<(Seq<char>, (u32, nat))>, k: Seq<char>, w: (u32, nat))
    requires
        distinct(t),
        forall|i: int| 0 <= i < t.len() ==> (#[trigger] t[i]).0 != k,
    ensures
        distinct(t.push((k, w))),
        by_address(t.push((k, w))) == by_address(t).insert(k, w),
        !by_address(t).contains_key(k),
{
    let u = t.push((k, w));
    assert forall|a: int, b: int| 0 <= a < b < u.len() implies (#[trigger] u[a]).0 != (
    #[trigger] u[b]).0 by {
        assert(u[a] == t[a]);
        if b < t.len() {
            assert(u[b] == t[b]);
            assert(t[a].0 != t[b].0);
        }
    }
    assert(by_address(u) =~= by_address(t).insert(k, w)) by {
        assert forall|x: Seq<char>|
            #![trigger by_address(u).contains_key(x)]
            by_address(u).contains_key(x) == by_address(t).insert(k, w).contains_key(x) && (
            by_address(u).contains_key(x) ==> by_address(u)[x] == by_address(t).insert(
                k,
                w,
            )[x]) by {
            if by_address(u).contains_key(x) {
                let j = choose|j: int| 0 <= j < u.len() && (#[trigger] u[j]).0 == x;
                lemma_row(u, j);
                if j < t.len() {
                    assert(u[j] == t[j]);
                    lemma_row(t, j);
                }
            }
            if by_address(t).contains_key(x) {
                let j = choose|j: int| 0 <= j < t.len() && (#[trigger] t[j]).0 == x;
                assert(u[j].0 == x);
            }
            assert(u[t.len() as int].0 == k);
        }
    }
}

impl View for RateLimiter {
    type V = LimiterView;

    closed spec fn view(&self) -> LimiterView {
        LimiterView {
            windows: by_address(rows(self.windows@)),
            max_requests: self.max_requests,
            window_duration: self.window_duration as nat,
        }
    }
}

impl RateLimiter {
    /// Whether no address has two windows, and a window lasts a second.
    pub closed spec fn valid(&self) -> bool {
        distinct(rows(self.windows@)) && self.window_duration == SECOND
    }

    /// A limiter that lets so many requests of an address through a second.
    pub fn new(max_requests_per_second: u32) -> (r: Self)
        ensures
            r.valid(),
            r@ == (LimiterView {
                windows: Map::empty(),
                max_requests: max_requests_per_second,
                window_duration: SECOND as nat,
            }),
    {
        let r = RateLimiter {
            windows: Vec::new(),
            max_requests: max_requests_per_second,
            window_duration: SECOND,
            origin: start_clock(),
        };
        assert(by_address(rows(r.windows@)) =~= Map::empty());
        r
    }

    /// Drops the windows that are no longer recent.
    fn cleanup(&mut self, now: u128)
        requires
            old(self).valid(),
            old(self)@.windows.len() > CLEANUP_THRESHOLD,
        ensures
            final(self).valid(),
            final(self)@ == (LimiterView {
                windows: old(self)@.cleaned(now as nat),
                ..old(self)@
            }),
    {
        let ghost t = rows(self.windows@);
        let ghost view = self@;
        let ghost mut origins: Seq<int> = seq![];
        let mut kept: Vec<Window> = Vec::new();
        let mut i: usize = 0;
        while i < self.windows.len()
            invariant
                i <= self.windows@.len(),
                t == rows(self.windows@),
                view == self@,
                self.window_duration == SECOND,
                distinct(t),
                kept@.len() == origins.len(),
                forall|j: int|
                    0 <= j < origins.len() ==> 0 <= #[trigger] origins[j] < i && rows(kept@)[j]
                        == t[origins[j]] && view.is_recent(t[origins[j]].1, now as nat),
                forall|a: int, b: int|
                    0 <= a < b < origins.len() ==> #[trigger] origins[a] < #[trigger] origins[b],
                forall|a: int|
                    0 <= a < i && view.is_recent((#[trigger] t[a]).1, now as nat) ==> exists|j: int|
                        0 <= j < origins.len() && #[trigger] origins[j] == a,
            decreases self.windows@.len() - i,
        {
            let w = &self.windows[i];
            let age: u128 = if now >= w.start {
                now - w.start
            } else {
                0
            };
            let ghost before = origins;
            if age < self.window_duration * 2 {
                kept.push(Window { address: w.address.clone(), count: w.count, start: w.start });
                proof {
                    origins = origins.push(i as int);
                    assert(view.is_recent(t[i as int].1, now as nat));
                    assert forall|j: int| 0 <= j < origins.len() implies 0 <= #[trigger] origins[j]
                        < i + 1 && rows(kept@)[j] == t[origins[j]] && view.is_recent(
                        t[origins[j]].1,
                        now as nat,
                    ) by {
                        if j < before.len() {
                            assert(origins[j] == before[j]);
                        }
                    }
                    assert forall|a: int|
                        0 <= a < i + 1 && view.is_recent((#[trigger] t[a]).1, now as nat) implies exists|
                        j: int,
                    |
                        0 <= j < origins.len() && #[trigger] origins[j] == a by {
                        if a < i {
                            let j = choose|j: int| 0 <= j < before.len() && #[trigger] before[j] == a;
                            assert(origins[j] == a);
                        } else {
                            assert(origins[before.len() as int] == a);
                        }
                    }
                }
            } else {
                assert(!view.is_recent(t[i as int].1, now as nat));
            }
            i += 1;
        }
        let ghost u = rows(kept@);
        proof {
            lemma_rows_len(t);
            assert forall|a: int, b: int| 0 <= a < b < u.len() implies (#[trigger] u[a]).0 != (
            #[trigger] u[b]).0 by {
                assert(origins[a] < origins[b]);
                assert(t[origins[a]].0 != t[origins[b]].0);
            }
            let m = view.cleaned(now as nat);
            assert(by_address(u) =~= m) by {
                assert forall|k: Seq<char>|
                    #![trigger by_address(u).contains_key(k)]
                    by_address(u).contains_key(k) == m.contains_key(k) && (by_address(
                        u,
                    ).contains_key(k) ==> by_address(u)[k] == m[k]) by {
                    if by_address(u).contains_key(k) {
                        let j = choose|j: int| 0 <= j < u.len() && (#[trigger] u[j]).0 == k;
                        lemma_row(u, j);
                        assert(u[j] == t[origins[j]]);
                        lemma_row(t, origins[j]);
                    }
                    if m.contains_key(k) {
                        let a = choose|a: int| 0 <= a < t.len() && (#[trigger] t[a]).0 == k;
                        lemma_row(t, a);
                        let j = choose|j: int| 0 <= j < origins.len() && #[trigger] origins[j] == a;
                        assert(u[j].0 == k);
                    }
                }
            }
        }
        self.windows = kept;
    }

    /// Counts a request of an address at a time in nanoseconds, and says
    /// whether it is let through.
    pub fn check_rate_limit_at(&mut self, address: &str, now: u128) -> (r: bool)
        requires
            old(self).valid(),
        ensures
            final(self).valid(),
            r == old(self)@.lets_through(address@, now as nat),
            final(self)@ == old(self)@.after(address@, now as nat),
    {
        let ghost begin = self@;
        proof {
            lemma_rows_len(rows(self.windows@));
        }
        if self.windows.len() > CLEANUP_THRESHOLD {
            self.cleanup(now);
        }
        let ghost m = self@.windows;
        let ghost t = rows(self.windows@);
        assert(m == begin.cleaned(now as nat));
        let key = to_lowercase(address);
        let mut i: usize = 0;
        while i < self.windows.len()
            invariant
                i <= self.windows@.len(),
                self.valid(),
                self@ == (LimiterView { windows: m, ..begin }),
                m == begin.cleaned(now as nat),
                m == by_address(t),
                t == rows(self.windows@),
                distinct(t),
                key@ == lowercase(address@),
                begin == old(self)@,
                forall|j: int| 0 <= j < i ==> (#[trigger] t[j]).0 != key@,
            decreases self.windows@.len() - i,
        {
            if same_text(self.windows[i].address.as_str(), key.as_str()) {
                proof {
                    lemma_row(t, i as int);
                    assert(t[i as int].0 == key@);
                }
                let count: u32 = self.windows[i].count;
                let start: u128 = self.windows[i].start;
                let age: u128 = if now >= start {
                    now - start
                } else {
                    0
                };
                let (next, begun, allowed): (u32, u128, bool) = if age >= self.window_duration {
                    (1, now, true)
                } else if count >= self.max_requests {
                    (count, start, false)
                } else {
                    (count + 1, start, true)
                };
                let w = Window { address: key, count: next, start: begun };
                self.windows.set(i, w);
                proof {
                    let u = t.update(i as int, (t[i as int].0, (next, begun as nat)));
                    assert(rows(self.windows@) =~= u);
                    lemma_row_update(t, i as int, (next, begun as nat));
                    assert(self@.windows =~= begin.after(address@, now as nat).windows);
                }
                return allowed;
            }
            i += 1;
        }
        proof {
            lemma_row_push(t, key@, (1, now as nat));
        }
        let ghost k = key@;
        self.windows.push(Window { address: key, count: 1, start: now });
        assert(rows(self.windows@) =~= t.push((k, (1u32, now as nat))));
        true
    }

    /// The time on this limiter's clock.
    pub fn now(&self) -> u128 {
        nanos_since(&self.origin)
    }

    /// Counts a request of an address now, and says whether it is let through.
    pub fn check_rate_limit(&mut self, address: &str) -> (r: bool)
        requires
            old(self).valid(),
        ensures
            final(self).valid(),
            exists|now: nat|
                r == old(self)@.lets_through(address@, now) && final(self)@ == #[trigger] old(
                    self,
                )@.after(address@, now),
    {
        let now: u128 = self.now();
        self.check_rate_limit_at(address, now)
    }

    /// How many addresses have a window.
    pub fn tracked_addresses(&self) -> (r: usize)
        requires
            self.valid(),
        ensures
            r == self@.windows.len(),
    {
        proof {
            lemma_rows_len(rows(self.windows@));
        }
        self.windows.len()
    }
}

// ---------------------------------------------------------------------------
// Laws
// ---------------------------------------------------------------------------

/// Whether a request is let through depends on the window of its own address
/// alone, and so does that window afterwards: dropping old windows changes
/// neither.
pub proof fn law_own_window_decides(s: LimiterView, address: Seq<char>, now: nat)
    ensures
        s.lets_through(address, now) == s.allows(s.windows.get(lowercase(address)), now),
        s.after(address, now).windows[lowercase(address)] == s.next_window(
            s.windows.get(lowercase(address)),
            now,
        ),
{
}

/// A request leaves the windows of other addresses as they are, but for those
/// that are no longer recent, which may be dropped.
pub proof fn law_addresses_are_independent(
    s: LimiterView,
    address: Seq<char>,
    now: nat,
    other: Seq<char>,
)
    requires
        other != lowercase(address),
    ensures
        ({
            let before = s.windows.get(other);
            let after = s.after(address, now).windows.get(other);
            after == before || (before is Some && after is None && !s.is_recent(before->0, now))
        }),
{
}

/// The case of an address does not matter.
pub proof fn law_case_does_not_matter(s: LimiterView, a: Seq<char>, b: Seq<char>, now: nat)
    requires
        lowercase(a) == lowercase(b),
    ensures
        s.lets_through(a, now) == s.lets_through(b, now),
        s.after(a, now) == s.after(b, now),
{
}

/// Whether requests fall into one window of an address: the first one opens
/// it, since the address has none or only one that is over, and all come
/// before it is over.
pub open spec fn in_one_window(
    s: LimiterView,
    address: Seq<char>,
    requests: Seq<(Seq<char>, nat)>,
) -> bool {
    &&& requests.len() > 0
    &&& lowercase(requests[0].0) == lowercase(address)
    &&& match s.windows.get(lowercase(address)) {
        Some(w) => elapsed(w.1, requests[0].1) >= s.window_duration,
        None => true,
    }
    &&& forall|i: int|
        0 <= i < requests.len() ==> requests[0].1 <= (#[trigger] requests[i]).1 < requests[0].1
            + s.window_duration
}

/// The window of an address after requests that fall into it.
proof fn lemma_burst(s: LimiterView, address: Seq<char>, requests: Seq<(Seq<char>, nat)>)
    requires
        in_one_window(s, address, requests),
        s.max_requests > 0,
    ensures
        ({
            let end = s.after_all(requests);
            let n = requests_of(requests, lowercase(address));
            &&& end.max_requests == s.max_requests
            &&& end.window_duration == s.window_duration
            &&& end.windows.get(lowercase(address)) == Some(
                (
                    if n <= s.max_requests {
                        n as u32
                    } else {
                        s.max_requests
                    },
                    requests[0].1,
                ),
            )
            &&& n >= 1
        }),
    decreases requests.len(),
{
    let key = lowercase(address);
    let front = requests.drop_last();
    let (who, when) = requests.last();
    if front.len() == 0 {
        assert(s.after_all(front) == s);
        assert(requests_of(front, key) == 0);
        assert(requests[0] == requests.last());
        law_own_window_decides(s, who, when);
    } else {
        assert forall|i: int| 0 <= i < front.len() implies front[0].1 <= (#[trigger] front[i]).1
            < front[0].1 + s.window_duration by {
            assert(front[i] == requests[i]);
        }
        lemma_burst(s, address, front);
        let mid = s.after_all(front);
        assert(requests[0].1 <= requests[requests.len() - 1].1 < requests[0].1
            + s.window_duration);
        if lowercase(who) == key {
            law_own_window_decides(mid, who, when);
        } else {
            law_addresses_are_independent(mid, who, when, key);
        }
    }
}

/// Of the requests that an address makes in one window, exactly the first
/// `max_requests` are let through, whatever requests of other addresses come
/// in between. (A limit of 0 lets the first one of each window through too.)
pub proof fn law_limit_holds(
    s: LimiterView,
    address: Seq<char>,
    requests: Seq<(Seq<char>, nat)>,
    now: nat,
)
    requires
        in_one_window(s, address, requests),
        s.max_requests > 0,
        requests[0].1 <= now < requests[0].1 + s.window_duration,
    ensures
        s.after_all(requests).lets_through(address, now) == (requests_of(
            requests,
            lowercase(address),
        ) < s.max_requests),
{
    lemma_burst(s, address, requests);
    law_own_window_decides(s.after_all(requests), address, now);
}

/// A request that comes a window duration or more after the window of its
/// address began is let through, and opens the next window.
pub proof fn law_window_resets(s: LimiterView, address: Seq<char>, now: nat)
    requires
        s.windows.contains_key(lowercase(address)),
        elapsed(s.windows[lowercase(address)].1, now) >= s.window_duration,
    ensures
        s.lets_through(address, now),
        s.after(address, now).windows[lowercase(address)] == (1u32, now),
{
    law_own_window_decides(s, address, now);
}

} // verus!
