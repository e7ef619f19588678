//! Session presence: register, heartbeat, list, unregister and expiry.

use sangha::config::Config;
use sangha::db::Db;
use sangha::tools::presence::{handle_heartbeat, handle_list, handle_register, handle_unregister, ListArgs, RegisterArgs};

fn config_with_session_ttl(session_ttl_ms: i64) -> Config {
    Config {
        db_path: ":memory:".to_string(),
        host: "127.0.0.1".to_string(),
        port: 0,
        session_ttl_ms,
        lock_default_ttl_ms: 600_000,
        lock_long_op_ttl_ms: 1_800_000,
        lock_max_ttl_ms: 86_400_000,
        inbox_retention_ms: 86_400_000,
        log_level: "info".to_string(),
    }
}

fn test_db() -> Db {
    Db::open_memory(&config_with_session_ttl(600_000)).expect("open in-memory db")
}

fn wall_ms() -> i64 {
    std::time::SystemTime::now().duration_since(std::time::UNIX_EPOCH).unwrap().as_millis() as i64
}

/// Wait, without sleeping, until the wall clock has moved `ms` past now.
fn spin_ms(ms: i64) {
    let until = wall_ms() + ms;
    while wall_ms() < until {
        std::hint::spin_loop();
    }
}

fn reg(project: &str) -> RegisterArgs {
    RegisterArgs { project: project.to_string(), branch: None, intent: None, metadata: None }
}

fn list_args(project: &str) -> ListArgs {
    ListArgs { project: Some(project.to_string()), scope: None }
}

#[test]
fn test_register_and_list() {
    let mut db = test_db();
    let project = "register-and-list";
    let out = handle_register(&mut db, None, reg(project)).expect("register ok");
    let list = handle_list(&mut db, list_args(project)).expect("list ok");
    assert_eq!(list.sessions.len(), 1);
    assert_eq!(list.sessions[0].session_id, out.session_id);
    assert_eq!(list.sessions[0].project, project);
}

#[test]
fn test_register_upsert() {
    let mut db = test_db();
    let project = "register-upsert";
    let first = handle_register(
        &mut db,
        None,
        RegisterArgs { project: project.to_string(), branch: Some("main".to_string()), intent: None, metadata: None },
    )
    .expect("first register ok");
    spin_ms(5);
    let second = handle_register(
        &mut db,
        Some(&first.session_id),
        RegisterArgs {
            project: project.to_string(),
            branch: Some("feature".to_string()),
            intent: Some("new intent".to_string()),
            metadata: None,
        },
    )
    .expect("re-register ok");
    assert_eq!(first.session_id, second.session_id);
    let list = handle_list(&mut db, list_args(project)).expect("list ok");
    assert_eq!(list.sessions.len(), 1);
    assert_eq!(list.sessions[0].branch.as_deref(), Some("feature"));
    assert_eq!(list.sessions[0].intent.as_deref(), Some("new intent"));
}

#[test]
fn test_register_returns_others() {
    let mut db = test_db();
    let project = "register-others";
    let first = handle_register(&mut db, None, reg(project)).expect("first ok");
    let second = handle_register(&mut db, None, reg(project)).expect("second ok");
    assert_eq!(second.others.len(), 1);
    assert_eq!(second.others[0].session_id, first.session_id);
    assert!(first.others.is_empty());
}

#[test]
fn session_test_test_project_scoping() {
    let mut db = test_db();
    let project_a = "scope-a";
    let project_b = "scope-b";
    handle_register(&mut db, None, reg(project_a)).expect("register in A");
    let list_b = handle_list(&mut db, list_args(project_b)).expect("list B");
    assert!(list_b.sessions.is_empty(), "project B should have no sessions, got {:?}", list_b.sessions.len());
    let list_a = handle_list(&mut db, list_args(project_a)).expect("list A");
    assert_eq!(list_a.sessions.len(), 1);
}

#[test]
fn test_heartbeat_updates_timestamp() {
    let mut db = test_db();
    let out = handle_register(&mut db, None, reg("hb-ts")).expect("register ok");
    let before = db.get_session(&out.session_id).expect("get ok").expect("session exists").last_heartbeat;
    spin_ms(10);
    let hb_out = handle_heartbeat(&mut db, &out.session_id).expect("heartbeat ok");
    assert_eq!(hb_out.session_id, out.session_id);
    assert!(hb_out.ttl_remaining_sec > 0);
    let after = db.get_session(&out.session_id).expect("get ok").expect("session exists").last_heartbeat;
    assert!(after > before, "last_heartbeat should advance after heartbeat");
}

#[test]
fn test_heartbeat_unknown_session() {
    let mut db = test_db();
    let out = handle_heartbeat(&mut db, "00000000-0000-0000-0000-000000000000").expect("handler should not error");
    assert_eq!(out.ttl_remaining_sec, 0);
}

#[test]
fn test_unregister() {
    let mut db = test_db();
    let project = "unregister";
    let out = handle_register(&mut db, None, reg(project)).expect("register ok");
    let unreg = handle_unregister(&mut db, &out.session_id).expect("unregister ok");
    assert!(unreg.ok);
    let list = handle_list(&mut db, list_args(project)).expect("list ok");
    assert!(list.sessions.is_empty(), "session should be gone after unregister");
}

#[test]
fn test_ttl_pruning() {
    let mut db = Db::open_memory(&config_with_session_ttl(50)).expect("open db");
    let project = "ttl-prune";
    handle_register(&mut db, None, reg(project)).expect("register ok");
    spin_ms(100);
    let list = handle_list(&mut db, list_args(project)).expect("list ok");
    assert!(list.sessions.is_empty(), "expired session should have been pruned, got {}", list.sessions.len());
}

#[test]
fn test_not_pruned_within_ttl() {
    let mut db = test_db();
    let project = "ttl-survive";
    let out = handle_register(&mut db, None, reg(project)).expect("register ok");
    db.prune_dead_sessions().expect("prune ok");
    let list = handle_list(&mut db, list_args(project)).expect("list ok");
    assert_eq!(list.sessions.len(), 1);
    assert_eq!(list.sessions[0].session_id, out.session_id);
}

#[test]
fn test_double_unregister() {
    let mut db = test_db();
    let out = handle_register(&mut db, None, reg("double-unreg")).expect("register ok");
    let first = handle_unregister(&mut db, &out.session_id).expect("first unregister ok");
    assert!(first.ok);
    let second = handle_unregister(&mut db, &out.session_id).expect("second unregister ok");
    assert!(!second.ok, "second unregister should return ok=false");
}

#[test]
fn test_unregister_unknown_id() {
    let mut db = test_db();
    let out = handle_unregister(&mut db, "00000000-0000-0000-0000-000000000000").expect("should not error");
    assert!(!out.ok, "unregistering unknown id should return ok=false");
}

#[test]
fn test_register_upsert_preserves_started_at() {
    let mut db = test_db();
    let project = "upsert-started";
    let first = handle_register(
        &mut db,
        None,
        RegisterArgs { project: project.to_string(), branch: Some("main".to_string()), intent: None, metadata: None },
    )
    .expect("first register ok");
    let started_before = db.get_session(&first.session_id).expect("get ok").expect("session exists").started_at;
    spin_ms(10);
    handle_register(
        &mut db,
        Some(&first.session_id),
        RegisterArgs {
            project: project.to_string(),
            branch: Some("feature".to_string()),
            intent: Some("new".to_string()),
            metadata: None,
        },
    )
    .expect("re-register ok");
    let started_after = db.get_session(&first.session_id).expect("get ok").expect("session exists").started_at;
    assert_eq!(started_before, started_after, "started_at must be preserved across re-registration");
}

#[test]
fn test_prune_dead_sessions_returns_count() {
    let mut db = Db::open_memory(&config_with_session_ttl(50)).expect("open db");
    handle_register(&mut db, None, reg("prune-count")).expect("register ok");
    spin_ms(100);
    let pruned = db.prune_dead_sessions().expect("prune ok");
    assert_eq!(pruned, 1, "should have pruned exactly 1 dead session");
}

#[test]
fn test_register_empty_project_rejected() {
    let mut db = test_db();
    let result = handle_register(
        &mut db,
        None,
        RegisterArgs { project: String::new(), branch: None, intent: None, metadata: None },
    );
    assert!(result.is_err(), "empty project should be rejected by validation");
}

// Deterministic checks through the store's clock-explicit operations.

#[test]
fn prune_keeps_session_exactly_at_ttl_boundary() {
    let mut db = Db::open_memory(&config_with_session_ttl(1000)).expect("open db");
    let input = sangha::db::RegisterInput {
        session_id: None,
        project: "p".to_string(),
        branch: None,
        intent: None,
        pid: None,
        hostname: None,
        metadata: None,
    };
    let row = db.register_session_at(input, "id-1".to_string(), 5000).expect("register ok");
    assert_eq!(row.id, "id-1");
    assert_eq!(row.started_at, 5000);
    assert_eq!(db.prune_dead_sessions_at(6000), 0);
    assert_eq!(db.prune_dead_sessions_at(6001), 1);
    assert!(db.get_session("id-1").unwrap().is_none());
}

#[test]
fn reregister_with_given_id_keeps_started_at() {
    let mut db = test_db();
    let mk = |branch: &str| sangha::db::RegisterInput {
        session_id: Some("fixed".to_string()),
        project: "p".to_string(),
        branch: Some(branch.to_string()),
        intent: None,
        pid: None,
        hostname: None,
        metadata: None,
    };
    db.register_session_at(mk("a"), "ignored".to_string(), 100).unwrap();
    let row = db.register_session_at(mk("b"), "ignored-too".to_string(), 200).unwrap();
    assert_eq!(row.id, "fixed");
    assert_eq!(row.started_at, 100);
    assert_eq!(row.last_heartbeat, 200);
    assert_eq!(row.branch.as_deref(), Some("b"));
}

#[test]
fn heartbeat_reports_remaining_ttl() {
    let mut db = test_db();
    let input = sangha::db::RegisterInput {
        session_id: None,
        project: "p".to_string(),
        branch: None,
        intent: None,
        pid: None,
        hostname: None,
        metadata: None,
    };
    db.register_session_at(input, "s".to_string(), 10).unwrap();
    let hb = db.heartbeat_at("s", 20).unwrap();
    assert!(hb.ok);
    assert_eq!(hb.ttl_remaining_ms, 600_000);
    assert_eq!(db.get_session("s").unwrap().unwrap().last_heartbeat, 20);
    let missing = db.heartbeat_at("nope", 20).unwrap();
    assert!(!missing.ok);
    assert_eq!(missing.ttl_remaining_ms, 0);
}

#[test]
fn list_sessions_spans_projects_when_unfiltered() {
    let mut db = test_db();
    handle_register(&mut db, None, reg("a")).unwrap();
    handle_register(&mut db, None, reg("b")).unwrap();
    let all = handle_list(&mut db, ListArgs { project: None, scope: None }).unwrap();
    assert_eq!(all.sessions.len(), 2);
    let bad = handle_list(&mut db, ListArgs { project: None, scope: Some("galaxy".to_string()) });
    assert!(bad.is_err());
}

#[test]
fn register_rejections_are_exact() {
    let mut db = test_db();
    let r = handle_register(
        &mut db,
        None,
        RegisterArgs { project: "p".to_string(), branch: Some("b".repeat(257)), intent: None, metadata: None },
    );
    match r {
        Err(sangha::error::SanghaError::InvalidArgument { tool, argument, constraint, received, next_action }) => {
            assert_eq!(tool, "session_register");
            assert_eq!(argument, "branch");
            assert_eq!(constraint, "length <= 256 bytes");
            assert_eq!(received.as_deref(), Some("257"));
            assert_eq!(next_action, "Shorten `branch` to at most 256 bytes.");
        }
        other => panic!("unexpected {:?}", other),
    }
}
