//! Restoring a store from rows, and what it hands back.

use sangha::config::Config;
use sangha::db::{BroadcastInput, Db, InboxRow, LockRow, ReadMark, RegisterInput, SessionRow};

fn config() -> Config {
    Config {
        db_path: ":memory:".to_string(),
        host: "127.0.0.1".to_string(),
        port: 0,
        session_ttl_ms: 600_000,
        lock_default_ttl_ms: 600_000,
        lock_long_op_ttl_ms: 1_800_000,
        lock_max_ttl_ms: 86_400_000,
        inbox_retention_ms: 86_400_000,
        log_level: "info".to_string(),
    }
}

fn session(id: &str, started_at: i64) -> SessionRow {
    SessionRow {
        id: id.to_string(),
        project: "p".to_string(),
        branch: None,
        intent: None,
        pid: None,
        hostname: None,
        started_at,
        last_heartbeat: started_at,
        metadata: None,
    }
}

fn lock(resource: &str, sid: &str, at: i64) -> LockRow {
    LockRow {
        resource: resource.to_string(),
        project: "p".to_string(),
        session_id: sid.to_string(),
        branch: None,
        reason: None,
        long_op: false,
        ttl_ms: 10,
        acquired_at: at,
        expires_at: at + 10,
    }
}

#[test]
fn restore_round_trips_a_store() {
    let cfg = config();
    let mut db = Db::open_memory(&cfg).unwrap();
    db.register_session_at(
        RegisterInput { session_id: Some("s".to_string()), project: "p".to_string(), branch: None, intent: None, pid: None, hostname: None, metadata: None },
        "g".to_string(),
        1,
    )
    .unwrap();
    db.broadcast_at(
        BroadcastInput { project: "p".to_string(), from_session: "s".to_string(), from_branch: None, message: "m".to_string(), tags: None },
        2,
    )
    .unwrap();
    let restored = Db::restore(&cfg, db.session_rows(), db.lock_rows(), db.inbox_rows(), db.read_marks(), db.next_message_id())
        .expect("a store's own rows restore");
    assert_eq!(restored.session_rows().len(), 1);
    assert_eq!(restored.inbox_rows()[0].message, "m");
    assert_eq!(restored.next_message_id(), 2);
}

#[test]
fn restore_refuses_lock_without_session() {
    let cfg = config();
    let r = Db::restore(&cfg, vec![session("a", 0)], vec![lock("r", "ghost", 0)], vec![], vec![], 1);
    assert!(r.is_none());
    let ok = Db::restore(&cfg, vec![session("a", 0)], vec![lock("r", "a", 0)], vec![], vec![], 1);
    assert!(ok.is_some());
}

#[test]
fn restore_refuses_duplicates_and_disorder() {
    let cfg = config();
    assert!(Db::restore(&cfg, vec![session("a", 0), session("a", 1)], vec![], vec![], vec![], 1).is_none());
    assert!(Db::restore(&cfg, vec![session("a", 5), session("b", 1)], vec![], vec![], vec![], 1).is_none());
    assert!(Db::restore(&cfg, vec![session("a", 0)], vec![lock("r", "a", 0), lock("r", "a", 1)], vec![], vec![], 1).is_none());
}

#[test]
fn restore_refuses_ids_beyond_the_counter() {
    let cfg = config();
    let msg = InboxRow {
        id: 7,
        project: "p".to_string(),
        from_session: "a".to_string(),
        from_branch: None,
        message: "m".to_string(),
        tags: None,
        created_at: 0,
    };
    assert!(Db::restore(&cfg, vec![], vec![], vec![msg.clone()], vec![], 7).is_none());
    assert!(Db::restore(&cfg, vec![], vec![], vec![msg], vec![], 8).is_some());
    let mark = ReadMark { session_id: "a".to_string(), message_id: 9, read_at: 0 };
    assert!(Db::restore(&cfg, vec![], vec![], vec![], vec![mark], 8).is_none());
}

#[test]
fn full_store_refuses_broadcast() {
    let cfg = config();
    let mut db = Db::restore(&cfg, vec![], vec![], vec![], vec![], i64::MAX).unwrap();
    let r = db.broadcast_at(
        BroadcastInput { project: "p".to_string(), from_session: "s".to_string(), from_branch: None, message: "m".to_string(), tags: None },
        0,
    );
    match r {
        Err(sangha::error::SanghaError::Db(e)) => assert_eq!(e.kind, sangha::error::DbErrorKind::SqliteFailure),
        other => panic!("unexpected {:?}", other),
    }
}

#[test]
fn clear_sessions_empties_the_registry() {
    let cfg = config();
    let mut db = Db::restore(&cfg, vec![session("a", 0), session("b", 1)], vec![lock("r", "a", 0)], vec![], vec![], 1).unwrap();
    assert_eq!(db.clear_sessions_at(2).unwrap(), 2);
    assert!(db.session_rows().is_empty());
    assert!(db.lock_rows().is_empty());
}
