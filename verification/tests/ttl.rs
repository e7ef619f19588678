use sangha::config::Config;
use sangha::ttl::{default_ttl, is_half_expired, ms_to_secs, resolve_ttl};

fn test_config() -> Config {
    Config {
        db_path: ":memory:".to_string(),
        host: "127.0.0.1".to_string(),
        port: 0,
        session_ttl_ms: 600_000,
        lock_default_ttl_ms: 600_000,
        lock_long_op_ttl_ms: 1_800_000,
        lock_max_ttl_ms: 86_400_000,
        inbox_retention_ms: 86_400_000,
        log_level: "info".to_string(),
    }
}

#[test]
fn default_ttl_short_op() {
    let cfg = test_config();
    assert_eq!(default_ttl(false, &cfg), 600_000);
}

#[test]
fn default_ttl_long_op() {
    let cfg = test_config();
    assert_eq!(default_ttl(true, &cfg), 1_800_000);
}

#[test]
fn resolve_ttl_uses_requested_when_positive() {
    let cfg = test_config();
    assert_eq!(resolve_ttl(Some(12_000), false, &cfg), 12_000);
    assert_eq!(resolve_ttl(Some(99_999), true, &cfg), 99_999);
}

#[test]
fn resolve_ttl_falls_back_on_none() {
    let cfg = test_config();
    assert_eq!(resolve_ttl(None, false, &cfg), 600_000);
    assert_eq!(resolve_ttl(None, true, &cfg), 1_800_000);
}

#[test]
fn resolve_ttl_falls_back_on_zero_or_negative() {
    let cfg = test_config();
    assert_eq!(resolve_ttl(Some(0), false, &cfg), 600_000);
    assert_eq!(resolve_ttl(Some(-1), false, &cfg), 600_000);
}

#[test]
fn is_half_expired_true_when_past_halfway() {
    // ttl=1000, expires_at=1000, now=600 → remaining=400 < 500 → true
    assert!(is_half_expired(1000, 1000, 600));
}

#[test]
fn is_half_expired_false_when_fresh() {
    // ttl=1000, expires_at=1000, now=100 → remaining=900 >= 500 → false
    assert!(!is_half_expired(1000, 1000, 100));
}

#[test]
fn is_half_expired_exactly_at_half() {
    // ttl=1000, expires_at=1000, now=500 → remaining=500, NOT < 500 → false
    assert!(!is_half_expired(1000, 1000, 500));
}

// Edge cases of the same helpers.

#[test]
fn is_half_expired_odd_ttl_halves_toward_zero() {
    // ttl=1001 → half is 500; remaining 500 is not below it.
    assert!(!is_half_expired(1001, 1001, 501));
    assert!(is_half_expired(1001, 1001, 502));
}

#[test]
fn is_half_expired_already_expired() {
    assert!(is_half_expired(1000, 1000, 2000));
}

#[test]
fn ms_to_secs_truncates_toward_zero() {
    assert_eq!(ms_to_secs(1999), 1);
    assert_eq!(ms_to_secs(-1999), -1);
    assert_eq!(ms_to_secs(0), 0);
    assert_eq!(ms_to_secs(600_000), 600);
}
