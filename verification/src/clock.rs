//! The time of day, elapsed time and fresh tokens.

use vstd::prelude::*;

use crate::encoding::hex_digit;

verus! {

/// A millisecond, in nanoseconds.
pub const MILLISECOND: u128 = 1_000_000;

/// `std::time::Instant`: a moment of a clock that never goes back.
#[verifier::external_type_specification]
#[verifier::external_body]
pub struct ExInstant(std::time::Instant);

/// `chrono::Utc::now().timestamp()`: the seconds since 1970. chrono's clock
/// knows no time before 1970, and its calendar ends before the year 262144.
#[verifier::external_body]
pub(crate) fn unix_seconds() -> (r: i64)
    ensures
        0 <= r < 10_000_000_000_000,
{
    chrono::Utc::now().timestamp()
}

/// `chrono::Utc::now()` as its `timestamp()` and `timestamp_subsec_nanos()`:
/// the seconds since 1970, and the nanoseconds since the last full second.
#[verifier::external_body]
fn unix_time() -> (r: (i64, u32))
    ensures
        0 <= r.0 < 10_000_000_000_000,
        r.1 < 1_000_000_000,
{
    let now = chrono::Utc::now();
    (now.timestamp(), now.timestamp_subsec_nanos())
}

/// The nanoseconds since 1970 at a time that is given as the seconds since
/// then and the nanoseconds since the last full second.
pub fn nanos_at(seconds: i64, nanos: u32) -> (r: i128)
    ensures
        r == seconds * 1_000_000_000 + nanos,
{
    seconds as i128 * 1_000_000_000 + nanos as i128
}

/// The nanoseconds since 1970 now.
pub(crate) fn now_nanos() -> (r: i128)
    ensures
        0 <= r < 10_000_000_000_000_000_000_000,
{
    let (seconds, nanos) = unix_time();
    nanos_at(seconds, nanos)
}

/// `chrono::Utc::now().timestamp_nanos_opt()`: the nanoseconds since 1970,
/// where 64 bits hold them.
#[verifier::external_body]
pub(crate) fn unix_nanos() -> (r: Option<i64>)
    ensures
        r matches Some(n) ==> 0 <= n,
{
    chrono::Utc::now().timestamp_nanos_opt()
}

/// `std::time::Instant::now()`.
#[verifier::external_body]
pub(crate) fn start_clock() -> std::time::Instant {
    std::time::Instant::now()
}

/// `std::time::Instant::elapsed`: the nanoseconds since a moment.
#[verifier::external_body]
pub(crate) fn nanos_since(start: &std::time::Instant) -> u128 {
    start.elapsed().as_nanos()
}

/// The time from `start` to `now`, where `now` is the later one.
pub open spec fn elapsed(start: nat, now: nat) -> nat {
    if now >= start {
        (now - start) as nat
    } else {
        0
    }
}

/// Whether what was noted counts at a time: something was, less than its life
/// ago.
pub open spec fn counts(noted: Option<u128>, now: u128, ttl: nat) -> bool {
    noted is Some && elapsed(noted->0 as nat, now as nat) < ttl
}

/// Whether what was noted counts at a time: something was, less than its life
/// ago. Times are in nanoseconds.
pub fn still_counts(noted: Option<u128>, now: u128, ttl: u128) -> (r: bool)
    ensures
        r == counts(noted, now, ttl as nat),
{
    match noted {
        Some(at) => if now >= at {
            now - at < ttl
        } else {
            0 < ttl
        },
        None => false,
    }
}

/// Whether a text has the form of a hyphenated UUID: 36 characters, hyphens at
/// positions 8, 13, 18 and 23, hexadecimal digits elsewhere.
pub open spec fn is_uuid(s: Seq<char>) -> bool {
    &&& s.len() == 36
    &&& forall|i: int|
        0 <= i < 36 ==> if i == 8 || i == 13 || i == 18 || i == 23 {
            #[trigger] s[i] == '-'
        } else {
            hex_digit(s[i]) is Some
        }
}

/// `uuid::Uuid::new_v4().to_string()`: a random UUID. Which one it is is left
/// to chance.
#[verifier::external_body]
pub(crate) fn new_uuid() -> (r: String)
    ensures
        is_uuid(r@),
{
    uuid::Uuid::new_v4().to_string()
}

/// The time from one moment to a later one is their difference; no time has
/// passed where the clock says that it is earlier. What was noted counts while
/// less than its life has passed.
pub proof fn law_elapsed_time(start: u128, now: u128, ttl: nat)
    ensures
        start <= now ==> elapsed(start as nat, now as nat) == now - start,
        now <= start ==> elapsed(start as nat, now as nat) == 0,
        start <= now ==> counts(Some(start), now, ttl) == (now - start < ttl),
        now < start ==> counts(Some(start), now, ttl) == (ttl > 0),
        !counts(None, now, ttl),
{
}

} // verus!
