//! Connections calling the tools against one shared store.

use sangha::config::Config;
use sangha::db::Db;
use sangha::error::SanghaError;
use sangha::server::{EmptyArgs, SanghaServer};
use sangha::tools::inbox::{BroadcastArgs, ReadInboxArgs};
use sangha::tools::locks::{ClaimArgs, LockListArgs, ReleaseArgs};
use sangha::tools::presence::{ListArgs, RegisterArgs};

fn config() -> Config {
    Config {
        db_path: ":memory:".to_string(),
        host: "127.0.0.1".to_string(),
        port: 0,
        session_ttl_ms: 600_000,
        lock_default_ttl_ms: 600_000,
        lock_long_op_ttl_ms: 1_800_000,
        lock_max_ttl_ms: 86_400_000,
        inbox_retention_ms: 86_400_000,
        log_level: "info".to_string(),
    }
}

fn reg(project: &str) -> RegisterArgs {
    RegisterArgs { project: project.to_string(), branch: None, intent: None, metadata: None }
}

fn claim(resource: &str) -> ClaimArgs {
    ClaimArgs { resource: resource.to_string(), scope: None, reason: None, long_op: None, ttl_sec: None }
}

#[test]
fn test_full_session_lifecycle() {
    let cfg = config();
    let mut db = Db::open_memory(&cfg).unwrap();
    let mut conn = SanghaServer::new();
    let project = "/test/lifecycle";
    let out = conn
        .session_register(&mut db, RegisterArgs { project: project.to_string(), branch: None, intent: Some("lifecycle test".to_string()), metadata: None })
        .expect("session_register should return session_id");
    let hb = conn.session_heartbeat(&mut db, EmptyArgs {}).unwrap();
    assert_eq!(hb.session_id, out.session_id, "heartbeat should echo the same session_id");
    assert!(hb.ttl_remaining_sec > 0, "TTL remaining should be positive");
    let list = conn.session_list(&mut db, ListArgs { project: Some(project.to_string()), scope: None }).unwrap();
    assert!(list.sessions.iter().any(|s| s.session_id == out.session_id), "our session should appear in session_list");
    let unreg = conn.session_unregister(&mut db, EmptyArgs {}).unwrap();
    assert!(unreg.ok);
    let other = SanghaServer::new();
    let list2 = other.session_list(&mut db, ListArgs { project: Some(project.to_string()), scope: None }).unwrap();
    assert!(
        !list2.sessions.iter().any(|s| s.session_id == out.session_id),
        "unregistered session should no longer appear in session_list"
    );
}

#[test]
fn test_lock_conflict_two_clients() {
    let cfg = config();
    let mut db = Db::open_memory(&cfg).unwrap();
    let project = "/test/lock-conflict";
    let resource = "src/main.rs";
    let mut a = SanghaServer::new();
    let mut b = SanghaServer::new();
    a.session_register(&mut db, reg(project)).unwrap();
    b.session_register(&mut db, reg(project)).unwrap();
    let claim_a = a.resource_claim(&mut db, &cfg, claim(resource)).unwrap();
    assert!(claim_a.ok, "A should claim successfully");
    let claim_b = b.resource_claim(&mut db, &cfg, claim(resource)).unwrap();
    assert!(!claim_b.ok, "B should be denied");
    assert!(claim_b.held_by.is_some(), "B should see held_by info: {claim_b:?}");
    let release_a = a.resource_release(&mut db, ReleaseArgs { resource: resource.to_string(), scope: None, force: None }).unwrap();
    assert!(release_a.ok);
    let claim_b2 = b.resource_claim(&mut db, &cfg, claim(resource)).unwrap();
    assert!(claim_b2.ok, "B should succeed after A released");
}

#[test]
fn test_inbox_between_clients() {
    let cfg = config();
    let mut db = Db::open_memory(&cfg).unwrap();
    let project = "/test/inbox";
    let mut a = SanghaServer::new();
    let mut b = SanghaServer::new();
    a.session_register(&mut db, reg(project)).unwrap();
    b.session_register(&mut db, reg(project)).unwrap();
    let bcast = a
        .broadcast(&mut db, BroadcastArgs { message: "hello from A".to_string(), tags: Some(vec!["test".to_string()]), scope: None })
        .unwrap();
    assert!(bcast.ok);
    assert!(bcast.message_id > 0);
    let inbox = b.read_inbox(&mut db, ReadInboxArgs { unread_only: None, limit: None, scope: None }).unwrap();
    assert!(inbox.messages.iter().any(|m| m.message == "hello from A"), "B should see A's broadcast: {inbox:?}");
}

#[test]
fn test_identity_binding() {
    let cfg = config();
    let mut db = Db::open_memory(&cfg).unwrap();
    let conn = SanghaServer::new();
    let resp = conn.session_heartbeat(&mut db, EmptyArgs {});
    assert!(resp.is_err(), "expected an error for unbound identity, got: {resp:?}");
}

#[test]
fn test_multiple_concurrent_sessions() {
    let cfg = config();
    let mut db = Db::open_memory(&cfg).unwrap();
    let project = "/test/multi";
    let mut conns = Vec::new();
    let mut ids = Vec::new();
    for _ in 0..3 {
        let mut c = SanghaServer::new();
        ids.push(c.session_register(&mut db, reg(project)).unwrap().session_id);
        conns.push(c);
    }
    let list = conns[0].session_list(&mut db, ListArgs { project: Some(project.to_string()), scope: None }).unwrap();
    let listed: Vec<&str> = list.sessions.iter().map(|s| s.session_id.as_str()).collect();
    for expected in &ids {
        assert!(listed.contains(&expected.as_str()), "session {expected} should appear in list; got: {listed:?}");
    }
}

// Further connection rules.

#[test]
fn unbound_connection_is_refused_by_session_tools() {
    let cfg = config();
    let mut db = Db::open_memory(&cfg).unwrap();
    let conn = SanghaServer::new();
    assert!(matches!(conn.resource_claim(&mut db, &cfg, claim("r")), Err(SanghaError::IdentityError { .. })));
    assert!(matches!(
        conn.resource_release(&mut db, ReleaseArgs { resource: "r".to_string(), scope: None, force: None }),
        Err(SanghaError::IdentityError { .. })
    ));
    assert!(matches!(
        conn.broadcast(&mut db, BroadcastArgs { message: "m".to_string(), tags: None, scope: None }),
        Err(SanghaError::IdentityError { .. })
    ));
    assert!(matches!(
        conn.read_inbox(&mut db, ReadInboxArgs { unread_only: None, limit: None, scope: None }),
        Err(SanghaError::IdentityError { .. })
    ));
    assert!(matches!(conn.session_unregister(&mut db, EmptyArgs {}), Err(SanghaError::IdentityError { .. })));
    // The listings need no binding.
    assert!(conn.resource_list(&mut db, LockListArgs { project: None, scope: None }).is_ok());
}

#[test]
fn reregister_keeps_session_and_refuses_other_project() {
    let cfg = config();
    let mut db = Db::open_memory(&cfg).unwrap();
    let mut conn = SanghaServer::new();
    let first = conn.session_register(&mut db, reg("p")).unwrap();
    let again = conn.session_register(&mut db, reg("p")).unwrap();
    assert_eq!(first.session_id, again.session_id);
    match conn.session_register(&mut db, reg("q")) {
        Err(SanghaError::IdentityError { tool, message, .. }) => {
            assert_eq!(tool, "session_register");
            assert_eq!(message, "connection already bound to project p, cannot rebind to q");
        }
        other => panic!("unexpected {:?}", other),
    }
    // Claims still go to the bound project.
    let out = conn.resource_claim(&mut db, &cfg, claim("r")).unwrap();
    assert_eq!(out.lock.unwrap().project, "p");
}

#[test]
fn closing_a_connection_unregisters_its_session() {
    let cfg = config();
    let mut db = Db::open_memory(&cfg).unwrap();
    let mut conn = SanghaServer::new();
    let out = conn.session_register(&mut db, reg("p")).unwrap();
    conn.resource_claim(&mut db, &cfg, claim("r")).unwrap();
    conn.close(&mut db);
    assert!(db.get_session(&out.session_id).unwrap().is_none());
    assert!(db.lock_rows().is_empty());
}

#[test]
fn fresh_session_ids_are_hyphenated_uuids() {
    let cfg = config();
    let mut db = Db::open_memory(&cfg).unwrap();
    let mut conn = SanghaServer::new();
    let out = conn.session_register(&mut db, reg("p")).unwrap();
    assert_eq!(out.session_id.len(), 36);
    assert_eq!(out.session_id.matches('-').count(), 4);
}
