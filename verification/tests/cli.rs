//! Inspection commands' text, the project filter, and timestamp rendering.

use sangha::cli::{locks_text, resolve_cli_project, status_text};
use sangha::db::{LockRow, SessionRow};
use sangha::text::{i64_to_decimal, u64_to_decimal};
use sangha::util::{format_ms, format_ms_from};

#[test]
fn cli_project_prefers_user_scope() {
    assert_eq!(resolve_cli_project(Some("p".to_string()), true), Some("__user__".to_string()));
    assert_eq!(resolve_cli_project(Some("p".to_string()), false), Some("p".to_string()));
    assert_eq!(resolve_cli_project(None, false), None);
}

#[test]
fn status_text_empty_and_listed() {
    assert_eq!(status_text(&vec![]), "No active sessions.\n");
    let rows = vec![SessionRow {
        id: "s1".to_string(),
        project: "proj".to_string(),
        branch: Some("main".to_string()),
        intent: None,
        pid: None,
        hostname: None,
        started_at: 0,
        last_heartbeat: 0,
        metadata: None,
    }];
    assert_eq!(status_text(&rows), "1 active session(s):\n\n  s1 (proj)\n    branch: main\n\n");
}

#[test]
fn locks_text_empty_and_listed() {
    assert_eq!(locks_text(&vec![]), "No active locks.\n");
    let rows = vec![LockRow {
        resource: "r".to_string(),
        project: "p".to_string(),
        session_id: "s".to_string(),
        branch: None,
        reason: Some("why".to_string()),
        long_op: true,
        ttl_ms: 1,
        acquired_at: 0,
        expires_at: 1,
    }];
    assert_eq!(
        locks_text(&rows),
        "1 active lock(s):\n\n  r (held by s)\n    project: p\n    reason: why\n    long_op: true\n\n"
    );
}

#[test]
fn format_ms_renders_epoch_and_falls_back() {
    assert_eq!(format_ms(0), "1970-01-01T00:00:00+00:00");
    assert_eq!(format_ms(1_500), "1970-01-01T00:00:01.500+00:00");
    assert_eq!(format_ms(i64::MAX), i64::MAX.to_string());
    assert_eq!(format_ms_from(None, -42), "-42");
    assert_eq!(format_ms_from(Some("x".to_string()), 7), "x");
}

#[test]
fn decimal_rendering() {
    assert_eq!(u64_to_decimal(0), "0");
    assert_eq!(u64_to_decimal(1024), "1024");
    assert_eq!(u64_to_decimal(u64::MAX), u64::MAX.to_string());
    assert_eq!(i64_to_decimal(-5), "-5");
    assert_eq!(i64_to_decimal(i64::MIN), i64::MIN.to_string());
}
