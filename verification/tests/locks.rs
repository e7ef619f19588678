//! Advisory locks: claim, renew, release, expiry and auto-extension.

use sangha::config::Config;
use sangha::db::{ClaimInput, Db, RegisterInput, ReleaseInput};
use sangha::tools::locks::{handle_claim, handle_list, handle_release, lock_to_formatted, ClaimArgs, LockListArgs, ReleaseArgs};
use sangha::tools::presence::handle_heartbeat;

fn config_with_lock_ttl(lock_default_ttl_ms: i64) -> Config {
    Config {
        db_path: ":memory:".to_string(),
        host: "127.0.0.1".to_string(),
        port: 0,
        session_ttl_ms: 600_000,
        lock_default_ttl_ms,
        lock_long_op_ttl_ms: 1_800_000,
        lock_max_ttl_ms: 86_400_000,
        inbox_retention_ms: 86_400_000,
        log_level: "info".to_string(),
    }
}

fn default_config() -> Config {
    config_with_lock_ttl(600_000)
}

fn wall_ms() -> i64 {
    std::time::SystemTime::now().duration_since(std::time::UNIX_EPOCH).unwrap().as_millis() as i64
}

fn spin_ms(ms: i64) {
    let until = wall_ms() + ms;
    while wall_ms() < until {
        std::hint::spin_loop();
    }
}

fn register_session(db: &mut Db, project: &str) -> String {
    let input = RegisterInput {
        session_id: None,
        project: project.to_string(),
        branch: None,
        intent: None,
        pid: None,
        hostname: None,
        metadata: None,
    };
    db.register_session(input).expect("register session").id
}

fn claim(resource: &str) -> ClaimArgs {
    ClaimArgs { resource: resource.to_string(), scope: None, reason: None, long_op: None, ttl_sec: None }
}

fn release(resource: &str) -> ReleaseArgs {
    ReleaseArgs { resource: resource.to_string(), scope: None, force: None }
}

#[test]
fn test_claim_granted() {
    let cfg = default_config();
    let mut db = Db::open_memory(&cfg).unwrap();
    let project = "claim-granted";
    let sid = register_session(&mut db, project);
    let out = handle_claim(&mut db, &cfg, &sid, project, claim("file.rs")).expect("claim ok");
    assert!(out.ok);
    assert!(out.lock.is_some());
    assert!(out.held_by.is_none());
}

#[test]
fn test_claim_conflict() {
    let cfg = default_config();
    let mut db = Db::open_memory(&cfg).unwrap();
    let project = "claim-conflict";
    let sid_a = register_session(&mut db, project);
    let sid_b = register_session(&mut db, project);
    handle_claim(
        &mut db,
        &cfg,
        &sid_a,
        project,
        ClaimArgs { resource: "shared.rs".to_string(), scope: None, reason: Some("editing".to_string()), long_op: None, ttl_sec: None },
    )
    .expect("A claims ok");
    let out_b = handle_claim(&mut db, &cfg, &sid_b, project, claim("shared.rs")).expect("B claim returns result");
    assert!(!out_b.ok);
    assert!(out_b.held_by.is_some());
    assert_eq!(out_b.held_by.unwrap().session_id, sid_a);
}

#[test]
fn test_same_session_renewal() {
    let cfg = default_config();
    let mut db = Db::open_memory(&cfg).unwrap();
    let project = "renewal";
    let sid = register_session(&mut db, project);
    let first = handle_claim(&mut db, &cfg, &sid, project, claim("lib.rs")).expect("first claim ok");
    spin_ms(5);
    let second = handle_claim(&mut db, &cfg, &sid, project, claim("lib.rs")).expect("renewal ok");
    assert!(second.ok);
    let first_lock = first.lock.unwrap();
    let second_lock = second.lock.unwrap();
    assert_eq!(first_lock.acquired_at, second_lock.acquired_at);
}

#[test]
fn lock_test_test_project_scoping() {
    let cfg = default_config();
    let mut db = Db::open_memory(&cfg).unwrap();
    let project_a = "scope-a";
    let project_b = "scope-b";
    let sid_a = register_session(&mut db, project_a);
    let sid_b = register_session(&mut db, project_b);
    let out_a = handle_claim(&mut db, &cfg, &sid_a, project_a, claim("main.rs")).expect("A claims ok");
    let out_b = handle_claim(&mut db, &cfg, &sid_b, project_b, claim("main.rs")).expect("B claims ok");
    assert!(out_a.ok, "A should succeed");
    assert!(out_b.ok, "B in different project should also succeed");
}

#[test]
fn test_user_scope_lock() {
    let cfg = default_config();
    let mut db = Db::open_memory(&cfg).unwrap();
    let project = "user-scope";
    let sid = register_session(&mut db, project);
    let out = handle_claim(
        &mut db,
        &cfg,
        &sid,
        project,
        ClaimArgs { resource: "global-res".to_string(), scope: Some("user".to_string()), reason: None, long_op: None, ttl_sec: None },
    )
    .expect("user scope claim ok");
    assert!(out.ok);
    let lock = out.lock.unwrap();
    assert_eq!(lock.project, sangha::tools::validate::USER_SCOPE_PROJECT);
}

#[test]
fn test_release_by_owner() {
    let cfg = default_config();
    let mut db = Db::open_memory(&cfg).unwrap();
    let project = "release-owner";
    let sid = register_session(&mut db, project);
    handle_claim(&mut db, &cfg, &sid, project, claim("owned.rs")).expect("claim ok");
    let out = handle_release(&mut db, &sid, project, release("owned.rs")).expect("release ok");
    assert!(out.ok);
    assert_eq!(out.status, "released");
}

#[test]
fn test_release_by_non_owner() {
    let cfg = default_config();
    let mut db = Db::open_memory(&cfg).unwrap();
    let project = "release-nonowner";
    let sid_a = register_session(&mut db, project);
    let sid_b = register_session(&mut db, project);
    handle_claim(&mut db, &cfg, &sid_a, project, claim("locked.rs")).expect("A claims");
    let out = handle_release(&mut db, &sid_b, project, release("locked.rs")).expect("release returns result");
    assert!(!out.ok);
    assert_eq!(out.status, "not_owner");
}

#[test]
fn test_release_not_held() {
    let cfg = default_config();
    let mut db = Db::open_memory(&cfg).unwrap();
    let project = "release-not-held";
    let sid = register_session(&mut db, project);
    let out = handle_release(&mut db, &sid, project, release("nonexistent.rs")).expect("release returns result");
    assert!(!out.ok);
    assert_eq!(out.status, "not_found");
}

#[test]
fn test_expired_lock_pruned() {
    let short_cfg = config_with_lock_ttl(50);
    let mut db = Db::open_memory(&short_cfg).expect("open db");
    let project = "expired-lock";
    let sid_a = register_session(&mut db, project);
    let out_a = handle_claim(&mut db, &short_cfg, &sid_a, project, claim("expiring.rs")).expect("A claims ok");
    assert!(out_a.ok);
    spin_ms(100);
    let sid_b = register_session(&mut db, project);
    let out_b = handle_claim(&mut db, &short_cfg, &sid_b, project, claim("expiring.rs")).expect("B claims after expiry");
    assert!(out_b.ok, "expired lock should have been pruned");
}

#[test]
fn test_fk_cascade() {
    let cfg = default_config();
    let mut db = Db::open_memory(&cfg).unwrap();
    let project = "fk-cascade";
    let sid = register_session(&mut db, project);
    handle_claim(&mut db, &cfg, &sid, project, claim("cascade.rs")).expect("claim ok");
    db.unregister_session(&sid).expect("unregister ok");
    let list = handle_list(&mut db, LockListArgs { project: Some(project.to_string()), scope: None }).expect("list ok");
    assert!(list.locks.is_empty(), "lock should be gone after session unregistered (cascade)");
}

#[test]
fn test_auto_extend_on_heartbeat() {
    let short_cfg = config_with_lock_ttl(200);
    let mut db = Db::open_memory(&short_cfg).expect("open db");
    let project = "auto-extend";
    let sid = register_session(&mut db, project);
    let before = handle_claim(&mut db, &short_cfg, &sid, project, claim("extending.rs")).expect("claim ok");
    assert!(before.ok);
    let expires_before = before.expires_at.clone().unwrap();
    spin_ms(120);
    handle_heartbeat(&mut db, &sid).expect("heartbeat ok");
    let list = handle_list(&mut db, LockListArgs { project: Some(project.to_string()), scope: None }).expect("list ok");
    assert_eq!(list.locks.len(), 1);
    let after = chrono::DateTime::parse_from_rfc3339(&list.locks[0].expires_at).unwrap().timestamp_millis();
    let before_ms = chrono::DateTime::parse_from_rfc3339(&expires_before).unwrap().timestamp_millis();
    assert!(after > before_ms, "expires_at should have advanced after heartbeat auto-extend");
}

#[test]
fn test_no_extend_fresh_lock() {
    let cfg = default_config();
    let mut db = Db::open_memory(&cfg).unwrap();
    let project = "no-extend";
    let sid = register_session(&mut db, project);
    let out = handle_claim(&mut db, &cfg, &sid, project, claim("fresh.rs")).expect("claim ok");
    assert!(out.ok);
    let expires_before = out.expires_at.clone().unwrap();
    let extended = db.auto_extend_locks(&sid).expect("auto_extend ok");
    assert_eq!(extended, 0, "fresh lock should not be extended");
    let list = handle_list(&mut db, LockListArgs { project: Some(project.to_string()), scope: None }).expect("list ok");
    assert_eq!(list.locks[0].expires_at, expires_before);
}

#[test]
fn test_long_op_ttl() {
    let cfg = default_config();
    let mut db = Db::open_memory(&cfg).unwrap();
    let project = "long-op";
    let sid = register_session(&mut db, project);
    let out = handle_claim(
        &mut db,
        &cfg,
        &sid,
        project,
        ClaimArgs { resource: "long-op.rs".to_string(), scope: None, reason: None, long_op: Some(true), ttl_sec: None },
    )
    .expect("claim ok");
    assert!(out.ok);
    let lock = out.lock.unwrap();
    assert!(lock.long_op);
    let acq = chrono::DateTime::parse_from_rfc3339(&lock.acquired_at).expect("parse acquired_at").timestamp_millis();
    let exp = chrono::DateTime::parse_from_rfc3339(&lock.expires_at).expect("parse expires_at").timestamp_millis();
    let diff = exp - acq;
    assert!(diff >= 1_790_000 && diff <= 1_810_000, "long_op TTL diff should be ~1_800_000 ms, got {diff}");
}

#[test]
fn test_max_ttl_clamped() {
    let cfg = default_config();
    let mut db = Db::open_memory(&cfg).unwrap();
    let project = "max-ttl";
    let sid = register_session(&mut db, project);
    let too_long_sec = 86_401i64;
    let result = handle_claim(
        &mut db,
        &cfg,
        &sid,
        project,
        ClaimArgs { resource: "max-ttl.rs".to_string(), scope: None, reason: None, long_op: None, ttl_sec: Some(too_long_sec) },
    );
    assert!(result.is_err(), "should return InvalidArgument for TTL exceeding max");
}

#[test]
fn test_claim_without_session_fails() {
    let cfg = default_config();
    let mut db = Db::open_memory(&cfg).unwrap();
    let project = "no-session";
    let fake_sid = "00000000-0000-0000-0000-000000000000";
    let out = handle_claim(&mut db, &cfg, fake_sid, project, claim("orphan.rs")).expect("handler returns Ok with ok=false");
    assert!(!out.ok, "claiming without a registered session should return ok=false");
}

// Deterministic checks on the store with explicit times.

fn claim_input(resource: &str, sid: &str, ttl_ms: i64, now: i64) -> ClaimInput {
    ClaimInput {
        resource: resource.to_string(),
        project: "p".to_string(),
        session_id: sid.to_string(),
        branch: None,
        reason: None,
        long_op: false,
        ttl_ms,
        expires_at: now + ttl_ms,
    }
}

fn fixed_session(db: &mut Db, id: &str, now: i64) {
    let input = RegisterInput {
        session_id: Some(id.to_string()),
        project: "p".to_string(),
        branch: None,
        intent: None,
        pid: None,
        hostname: None,
        metadata: None,
    };
    db.register_session_at(input, "unused".to_string(), now).unwrap();
}

#[test]
fn auto_extend_renews_only_half_expired_locks() {
    let cfg = default_config();
    let mut db = Db::open_memory(&cfg).unwrap();
    fixed_session(&mut db, "s", 0);
    assert!(db.claim_resource_at(claim_input("a", "s", 1000, 0), 0).unwrap().ok);
    assert!(db.claim_resource_at(claim_input("b", "s", 10_000, 0), 0).unwrap().ok);
    // At t=600: "a" has 400 ms left (< 500), "b" has 9400 ms (>= 5000).
    assert_eq!(db.auto_extend_locks_at("s", 600).unwrap(), 1);
    let locks = db.list_locks_at(Some("p"), 600).unwrap();
    let a = locks.iter().find(|l| l.resource == "a").unwrap();
    let b = locks.iter().find(|l| l.resource == "b").unwrap();
    assert_eq!(a.expires_at, 1600);
    assert_eq!(b.expires_at, 10_000);
}

#[test]
fn release_undoes_claim_and_force_release_ignores_owner() {
    let cfg = default_config();
    let mut db = Db::open_memory(&cfg).unwrap();
    fixed_session(&mut db, "a", 0);
    fixed_session(&mut db, "b", 0);
    assert!(db.claim_resource_at(claim_input("r", "a", 1000, 0), 0).unwrap().ok);
    let denied = db.claim_resource_at(claim_input("r", "b", 1000, 10), 10).unwrap();
    assert!(!denied.ok);
    assert_eq!(denied.held_by.as_ref().unwrap().session_id, "a");
    assert_eq!(denied.held_by.as_ref().unwrap().expires_at, 1000);
    let r = db.release_resource(ReleaseInput { resource: "r".to_string(), project: "p".to_string(), session_id: "b".to_string(), force: true }).unwrap();
    assert!(r.ok);
    assert_eq!(r.status, "released");
    assert!(db.list_locks_at(Some("p"), 20).unwrap().is_empty());
}

#[test]
fn expired_lock_is_pruned_exactly_after_expiry() {
    let cfg = default_config();
    let mut db = Db::open_memory(&cfg).unwrap();
    fixed_session(&mut db, "a", 0);
    assert!(db.claim_resource_at(claim_input("r", "a", 100, 0), 0).unwrap().ok);
    assert_eq!(db.prune_expired_locks_at(100), 0);
    assert_eq!(db.prune_expired_locks_at(101), 1);
}

#[test]
fn force_release_everywhere_counts_removed_locks() {
    let cfg = default_config();
    let mut db = Db::open_memory(&cfg).unwrap();
    fixed_session(&mut db, "a", 0);
    assert!(db.claim_resource_at(claim_input("r", "a", 1000, 0), 0).unwrap().ok);
    assert_eq!(db.force_release_everywhere_at("r", 5).unwrap(), 1);
    assert_eq!(db.force_release_everywhere_at("r", 5).unwrap(), 0);
}

#[test]
fn lock_to_formatted_renders_times() {
    let row = sangha::db::LockRow {
        resource: "r".to_string(),
        project: "p".to_string(),
        session_id: "s".to_string(),
        branch: None,
        reason: Some("why".to_string()),
        long_op: false,
        ttl_ms: 1000,
        acquired_at: 0,
        expires_at: 1000,
    };
    let f = lock_to_formatted(row);
    assert_eq!(f.acquired_at, "1970-01-01T00:00:00+00:00");
    assert_eq!(f.expires_at, "1970-01-01T00:00:01+00:00");
    assert_eq!(f.reason.as_deref(), Some("why"));
}

#[test]
fn claim_rejections_are_exact() {
    let cfg = default_config();
    let mut db = Db::open_memory(&cfg).unwrap();
    let sid = register_session(&mut db, "p");
    let long_reason = "r".repeat(1025);
    match handle_claim(&mut db, &cfg, &sid, "p", ClaimArgs { resource: "x".to_string(), scope: None, reason: Some(long_reason), long_op: None, ttl_sec: None }) {
        Err(sangha::error::SanghaError::InvalidArgument { tool, argument, constraint, received, next_action }) => {
            assert_eq!(tool, "resource_claim");
            assert_eq!(argument, "reason");
            assert_eq!(constraint, "length <= 1024 bytes");
            assert_eq!(received.as_deref(), Some("1025"));
            assert_eq!(next_action, "Shorten `reason` to at most 1024 bytes.");
        }
        other => panic!("unexpected {:?}", other),
    }
    match handle_claim(&mut db, &cfg, &sid, "p", ClaimArgs { resource: "x".to_string(), scope: None, reason: None, long_op: None, ttl_sec: Some(0) }) {
        Err(sangha::error::SanghaError::InvalidArgument { argument, constraint, received, .. }) => {
            assert_eq!(argument, "ttl_sec");
            assert_eq!(constraint, "> 0");
            assert_eq!(received.as_deref(), Some("0"));
        }
        other => panic!("unexpected {:?}", other),
    }
    match handle_release(&mut db, &sid, "p", ReleaseArgs { resource: String::new(), scope: None, force: None }) {
        Err(sangha::error::SanghaError::InvalidArgument { tool, argument, next_action, .. }) => {
            assert_eq!(tool, "resource_release");
            assert_eq!(argument, "resource");
            assert_eq!(next_action, "Pass a non-empty value for `resource`.");
        }
        other => panic!("unexpected {:?}", other),
    }
}

#[test]
fn claim_expiry_is_reported_only_when_granted() {
    let cfg = default_config();
    let mut db = Db::open_memory(&cfg).unwrap();
    let a = register_session(&mut db, "p");
    let b = register_session(&mut db, "p");
    let granted = handle_claim(&mut db, &cfg, &a, "p", claim("r")).unwrap();
    assert_eq!(granted.expires_at.as_deref(), Some(granted.lock.as_ref().unwrap().expires_at.as_str()));
    let refused = handle_claim(&mut db, &cfg, &b, "p", claim("r")).unwrap();
    assert!(!refused.ok);
    assert!(refused.expires_at.is_none());
    let orphan = handle_claim(&mut db, &cfg, "nobody", "p", claim("q")).unwrap();
    assert!(orphan.expires_at.is_none());
}
