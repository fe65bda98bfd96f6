use vstd::prelude::*;

verus! {

/// Milliseconds in one day.
pub const MILLIS_PER_DAY: i64 = 86_400_000;

/// Every timestamp the clock source can hand out lies strictly inside this
/// bound (see `timestamp_millis`).
pub const TIMESTAMP_MILLIS_BOUND: i64 = 9_000_000_000_000_000;

/// Relies on chrono's `Utc::now` and `DateTime::timestamp_millis`: the number
/// of non-leap milliseconds since the Unix epoch. chrono dates span roughly
/// +/- 262,000 years around the epoch, so whatever the wall clock says, the
/// result stays strictly inside `TIMESTAMP_MILLIS_BOUND`.
#[verifier::external_body]
pub fn timestamp_millis() -> (r: i64)
    ensures
        -TIMESTAMP_MILLIS_BOUND < r < TIMESTAMP_MILLIS_BOUND,
{
    chrono::Utc::now().timestamp_millis()
}

/// The moment `days` whole days after `now`, both in milliseconds.
pub fn millis_after_days(now: i64, days: i64) -> (r: i64)
    requires
        -TIMESTAMP_MILLIS_BOUND < now < TIMESTAMP_MILLIS_BOUND,
        0 <= days <= 1_000_000,
    ensures
        r == now + days * MILLIS_PER_DAY,
{
    now + days * MILLIS_PER_DAY
}

/// The moment `days` whole days from now.
pub fn timestamp_millis_after_days(days: i64) -> (r: i64)
    requires
        0 <= days <= 1_000_000,
    ensures
        -TIMESTAMP_MILLIS_BOUND < r < 2 * TIMESTAMP_MILLIS_BOUND,
{
    let now = timestamp_millis();
    millis_after_days(now, days)
}

/// Whether a moment lies strictly before another, both in milliseconds since
/// the epoch.
pub fn is_expired_at(timestamp: i64, now: i64) -> (r: bool)
    ensures
        r == (timestamp < now),
{
    timestamp < now
}

/// Whether a moment lies strictly before the current wall clock. A timestamp
/// at or beyond the clock source's bound can never be expired.
pub fn is_timestamp_millis_expired(timestamp: i64) -> (r: bool)
    ensures
        timestamp >= TIMESTAMP_MILLIS_BOUND ==> !r,
{
    let now = timestamp_millis();
    is_expired_at(timestamp, now)
}

} // verus!
