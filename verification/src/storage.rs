//! Storage-side rules: how long raw and aggregated metrics are kept, and
//! the storage backends that exist only as placeholders.

use vstd::prelude::*;

verus! {

/// Milliseconds in one day.
pub const DAY_MS: i64 = 86_400_000;

/// How many days raw samples and aggregates are kept.
#[derive(Debug, Clone, Copy, PartialEq, Eq, Structural)]
pub struct RetentionConfig {
    pub raw_days: i64,
    pub aggregated_days: i64,
}

impl Default for RetentionConfig {
    fn default() -> (r: Self)
        ensures
            r.raw_days == 7,
            r.aggregated_days == 30,
    {
        RetentionConfig { raw_days: 7, aggregated_days: 30 }
    }
}

/// The instant before which data kept for `days` days is dropped.
pub open spec fn cutoff(now_ms: int, days: int) -> int {
    now_ms - days * 86_400_000
}

impl RetentionConfig {
    /// The cutoffs (raw, aggregated) of a cleanup run at `now_ms`: samples
    /// older than the first and aggregates whose window starts before the
    /// second are dropped.
    pub fn cutoffs(&self, now_ms: i64) -> (r: (i64, i64))
        requires
            i64::MIN <= self.raw_days * 86_400_000 <= i64::MAX,
            i64::MIN <= self.aggregated_days * 86_400_000 <= i64::MAX,
            i64::MIN <= cutoff(now_ms as int, self.raw_days as int) <= i64::MAX,
            i64::MIN <= cutoff(now_ms as int, self.aggregated_days as int) <= i64::MAX,
        ensures
            r.0 == cutoff(now_ms as int, self.raw_days as int),
            r.1 == cutoff(now_ms as int, self.aggregated_days as int),
    {
        let raw_cutoff = now_ms - self.raw_days * DAY_MS;
        let agg_cutoff = now_ms - self.aggregated_days * DAY_MS;
        (raw_cutoff, agg_cutoff)
    }
}

/// Whether a sample stamped `timestamp` survives a cleanup with cutoff `cutoff_ms`.
pub fn survives_cleanup(timestamp: i64, cutoff_ms: i64) -> (b: bool)
    ensures
        b == (timestamp >= cutoff_ms),
{
    !(timestamp < cutoff_ms)
}

/// Placeholder for a PostgreSQL backend; every storage operation on it
/// fails as not implemented.
#[derive(Debug, Clone, Copy)]
pub struct PostgresStorage;

impl PostgresStorage {
    pub fn new() -> (s: Self) {
        PostgresStorage
    }
}

/// The retention cutoff lies `days` whole days of milliseconds before `now`:
/// with no days kept it is `now` itself, and each further day kept moves it
/// one day (86 400 000 ms) earlier.
pub proof fn lemma_cutoff_days(now_ms: int, days: int)
    ensures
        cutoff(now_ms, 0) == now_ms,
        cutoff(now_ms, days + 1) == cutoff(now_ms, days) - 86_400_000,
        days >= 0 ==> cutoff(now_ms, days) <= now_ms,
{
    assert((days + 1) * 86_400_000 == days * 86_400_000 + 86_400_000) by (nonlinear_arith);
    assert(days >= 0 ==> days * 86_400_000 >= 0) by (nonlinear_arith);
}

} // verus!
