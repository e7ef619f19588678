//! Pure TTL helper functions.

use vstd::prelude::*;
use crate::config::Config;

verus! {

/// Integer halving that rounds toward zero, as Rust's `/` does.
pub open spec fn half_toward_zero(t: int) -> int {
    if t >= 0 {
        t / 2
    } else {
        -((-t) / 2)
    }
}

/// A lock is past half-life when less than half its TTL remains.
pub open spec fn half_expired(expires_at: int, ttl_ms: int, now: int) -> bool {
    expires_at - now < half_toward_zero(ttl_ms)
}

/// The TTL a lock gets when none is requested.
pub open spec fn spec_default_ttl(long_op: bool, config: Config) -> i64 {
    if long_op {
        config.lock_long_op_ttl_ms
    } else {
        config.lock_default_ttl_ms
    }
}

/// The effective TTL: a positive request wins, anything else falls back.
pub open spec fn spec_resolve_ttl(requested: Option<i64>, long_op: bool, config: Config) -> i64 {
    match requested {
        Some(v) => if v > 0 { v } else { spec_default_ttl(long_op, config) },
        None => spec_default_ttl(long_op, config),
    }
}

/// Return the default TTL for a lock based on the `long_op` flag.
pub fn default_ttl(long_op: bool, config: &Config) -> (r: i64)
    ensures
        r == spec_default_ttl(long_op, *config),
{
    if long_op {
        config.lock_long_op_ttl_ms
    } else {
        config.lock_default_ttl_ms
    }
}

/// Resolve the effective TTL in milliseconds.
///
/// - `None` → use `default_ttl(long_op, config)`
/// - `Some(v)` where v > 0 → use `v`
pub fn resolve_ttl(requested: Option<i64>, long_op: bool, config: &Config) -> (r: i64)
    ensures
        r == spec_resolve_ttl(requested, long_op, *config),
{
    match requested {
        Some(v) => {
            if v > 0 {
                v
            } else {
                default_ttl(long_op, config)
            }
        },
        None => default_ttl(long_op, config),
    }
}

/// Half of a TTL, rounded toward zero, for any `i64`.
pub(crate) fn half_of(t: i64) -> (h: i64)
    ensures
        h == half_toward_zero(t as int),
{
    if t >= 0 {
        t / 2
    } else {
        let m: i128 = -(t as i128);
        let q: i128 = m / 2;
        (-q) as i64
    }
}

/// Whether less than half the TTL remains, for any `i64` values.
pub(crate) fn past_half_life(expires_at: i64, ttl_ms: i64, now: i64) -> (r: bool)
    ensures
        r == half_expired(expires_at as int, ttl_ms as int, now as int),
{
    let remaining: i128 = (expires_at as i128) - (now as i128);
    remaining < (half_of(ttl_ms) as i128)
}

/// Integer division by 1000 rounding toward zero, as Rust's `/` does.
pub open spec fn thousandths_toward_zero(t: int) -> int {
    if t >= 0 {
        t / 1000
    } else {
        -((-t) / 1000)
    }
}

/// Whole seconds in a number of milliseconds, rounded toward zero.
pub fn ms_to_secs(ms: i64) -> (s: i64)
    ensures
        s == thousandths_toward_zero(ms as int),
{
    if ms >= 0 {
        ms / 1000
    } else {
        let m: i128 = -(ms as i128);
        let q: i128 = m / 1000;
        (-q) as i64
    }
}

/// Return true if a lock is more than halfway to expiry.
pub fn is_half_expired(expires_at: i64, ttl_ms: i64, now: i64) -> (r: bool)
    requires
        i64::MIN <= expires_at - now <= i64::MAX,
    ensures
        r == half_expired(expires_at as int, ttl_ms as int, now as int),
{
    let remaining = expires_at - now;
    remaining < half_of(ttl_ms)
}

} // verus!
