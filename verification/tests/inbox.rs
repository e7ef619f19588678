//! The broadcast inbox: visibility, read marks, ordering, limits, retention.

use sangha::config::Config;
use sangha::db::{BroadcastInput, Db, ReadInboxInput, RegisterInput};
use sangha::tools::inbox::{handle_broadcast, handle_read_inbox, BroadcastArgs, ReadInboxArgs};

fn config_with_retention(inbox_retention_ms: i64) -> Config {
    Config {
        db_path: ":memory:".to_string(),
        host: "127.0.0.1".to_string(),
        port: 0,
        session_ttl_ms: 600_000,
        lock_default_ttl_ms: 600_000,
        lock_long_op_ttl_ms: 1_800_000,
        lock_max_ttl_ms: 86_400_000,
        inbox_retention_ms,
        log_level: "info".to_string(),
    }
}

fn test_db() -> Db {
    Db::open_memory(&config_with_retention(86_400_000)).expect("open in-memory db")
}

fn wall_ms() -> i64 {
    std::time::SystemTime::now().duration_since(std::time::UNIX_EPOCH).unwrap().as_millis() as i64
}

fn spin_ms(ms: i64) {
    let until = wall_ms() + ms;
    while wall_ms() < until {
        std::hint::spin_loop();
    }
}

fn register_session(db: &mut Db, project: &str) -> String {
    db.register_session(RegisterInput {
        session_id: None,
        project: project.to_string(),
        branch: None,
        intent: None,
        pid: None,
        hostname: None,
        metadata: None,
    })
    .expect("register session")
    .id
}

fn say(message: &str) -> BroadcastArgs {
    BroadcastArgs { message: message.to_string(), tags: None, scope: None }
}

fn read(unread_only: bool, limit: Option<i64>) -> ReadInboxArgs {
    ReadInboxArgs { unread_only: Some(unread_only), limit, scope: None }
}

#[test]
fn test_broadcast_and_read() {
    let mut db = test_db();
    let project = "broadcast-read";
    let sid_a = register_session(&mut db, project);
    let sid_b = register_session(&mut db, project);
    handle_broadcast(&mut db, &sid_a, project, say("hello from A")).expect("broadcast ok");
    let out = handle_read_inbox(&mut db, &sid_b, project, read(true, None)).expect("read ok");
    assert_eq!(out.count, 1);
    assert_eq!(out.messages[0].message, "hello from A");
    assert_eq!(out.messages[0].from_session, sid_a);
}

#[test]
fn test_excludes_own_messages() {
    let mut db = test_db();
    let project = "own-msgs";
    let sid_a = register_session(&mut db, project);
    handle_broadcast(&mut db, &sid_a, project, say("self-broadcast")).expect("broadcast ok");
    let out = handle_read_inbox(&mut db, &sid_a, project, read(true, None)).expect("read ok");
    assert_eq!(out.count, 0, "sender should not see their own messages");
    assert_eq!(out.total, 0);
}

#[test]
fn test_unread_only() {
    let mut db = test_db();
    let project = "unread-only";
    let sid_a = register_session(&mut db, project);
    let sid_b = register_session(&mut db, project);
    handle_broadcast(&mut db, &sid_a, project, say("mark me read")).expect("broadcast ok");
    let first = handle_read_inbox(&mut db, &sid_b, project, read(true, None)).expect("first read ok");
    assert_eq!(first.count, 1);
    let second = handle_read_inbox(&mut db, &sid_b, project, read(true, None)).expect("second read ok");
    assert_eq!(second.count, 0, "message should be marked read after first read");
    assert_eq!(second.unread_total, 0);
}

#[test]
fn test_read_all() {
    let mut db = test_db();
    let project = "read-all";
    let sid_a = register_session(&mut db, project);
    let sid_b = register_session(&mut db, project);
    handle_broadcast(&mut db, &sid_a, project, say("persistent message")).expect("broadcast ok");
    handle_read_inbox(&mut db, &sid_b, project, read(true, None)).expect("first read ok");
    let out = handle_read_inbox(&mut db, &sid_b, project, read(false, None)).expect("read all ok");
    assert_eq!(out.count, 1, "unread_only=false should return already-read messages");
    assert_eq!(out.messages[0].message, "persistent message");
}

#[test]
fn inbox_test_test_project_scoping() {
    let mut db = test_db();
    let project_a = "proj-scope-a";
    let project_b = "proj-scope-b";
    let sid_a = register_session(&mut db, project_a);
    let sid_b = register_session(&mut db, project_b);
    handle_broadcast(&mut db, &sid_a, project_a, say("only for project A")).expect("broadcast ok");
    let out = handle_read_inbox(&mut db, &sid_b, project_b, read(true, None)).expect("read ok");
    assert_eq!(out.count, 0, "session in project B should not see project A messages");
    assert_eq!(out.total, 0);
}

#[test]
fn test_user_scope_broadcast() {
    let mut db = test_db();
    let project_a = "user-scope-a";
    let project_b = "user-scope-b";
    let sid_a = register_session(&mut db, project_a);
    let sid_b = register_session(&mut db, project_b);
    handle_broadcast(
        &mut db,
        &sid_a,
        project_a,
        BroadcastArgs { message: "cross-project message".to_string(), tags: None, scope: Some("user".to_string()) },
    )
    .expect("broadcast ok");
    let out = handle_read_inbox(
        &mut db,
        &sid_b,
        project_b,
        ReadInboxArgs { unread_only: Some(true), limit: None, scope: Some("user".to_string()) },
    )
    .expect("read ok");
    assert_eq!(out.count, 1, "user-scoped message should be visible across projects");
    assert_eq!(out.messages[0].message, "cross-project message");
}

#[test]
fn test_tags_preserved() {
    let mut db = test_db();
    let project = "tags";
    let sid_a = register_session(&mut db, project);
    let sid_b = register_session(&mut db, project);
    handle_broadcast(
        &mut db,
        &sid_a,
        project,
        BroadcastArgs {
            message: "tagged message".to_string(),
            tags: Some(vec!["important".to_string(), "handoff".to_string()]),
            scope: None,
        },
    )
    .expect("broadcast ok");
    let out = handle_read_inbox(&mut db, &sid_b, project, read(true, None)).expect("read ok");
    assert_eq!(out.count, 1);
    let tags = out.messages[0].tags.as_ref().expect("tags present");
    assert_eq!(tags, &vec!["important".to_string(), "handoff".to_string()]);
}

#[test]
fn test_retention_pruning() {
    let mut db = Db::open_memory(&config_with_retention(50)).expect("open db");
    let project = "retention";
    let sid_a = register_session(&mut db, project);
    let sid_b = register_session(&mut db, project);
    let first = handle_broadcast(&mut db, &sid_a, project, say("old message")).expect("first broadcast ok");
    spin_ms(100);
    handle_broadcast(&mut db, &sid_a, project, say("new message")).expect("second broadcast ok");
    let out = handle_read_inbox(&mut db, &sid_b, project, read(false, None)).expect("read ok");
    assert_eq!(out.count, 1, "old message should have been pruned");
    assert_eq!(out.messages[0].message, "new message");
    assert!(out.messages.iter().all(|m| m.id != first.message_id), "old message id should not appear");
}

#[test]
fn test_counts_before_marking() {
    let mut db = test_db();
    let project = "counts";
    let sid_a = register_session(&mut db, project);
    let sid_b = register_session(&mut db, project);
    for i in 1..=3 {
        handle_broadcast(&mut db, &sid_a, project, say(&format!("message {i}"))).expect("broadcast ok");
    }
    let out = handle_read_inbox(&mut db, &sid_b, project, read(true, Some(1))).expect("read ok");
    assert_eq!(out.count, 1, "should return only 1 message due to limit");
    assert_eq!(out.unread_total, 3, "unread_total should reflect all 3 before marking");
    assert_eq!(out.total, 3, "total should be 3");
}

#[test]
fn test_cursor_ordering() {
    let mut db = test_db();
    let project = "cursor-order";
    let sid_a = register_session(&mut db, project);
    let sid_b = register_session(&mut db, project);
    for i in 1..=3 {
        handle_broadcast(&mut db, &sid_a, project, say(&format!("msg-{i}"))).expect("broadcast ok");
        spin_ms(5);
    }
    let first_read = handle_read_inbox(&mut db, &sid_b, project, read(true, Some(1))).expect("first read ok");
    assert_eq!(first_read.count, 1);
    assert_eq!(first_read.messages[0].message, "msg-3");
    let second_read = handle_read_inbox(&mut db, &sid_b, project, read(true, Some(1))).expect("second read ok");
    assert_eq!(second_read.count, 1);
    assert_eq!(second_read.messages[0].message, "msg-2");
    assert_eq!(second_read.unread_total, 2, "unread should be 2 after first read of 1");
}

#[test]
fn test_limit_clamping() {
    let mut db = test_db();
    let project = "limit-clamp";
    let sid_a = register_session(&mut db, project);
    let sid_b = register_session(&mut db, project);
    handle_broadcast(&mut db, &sid_a, project, say("hello")).expect("broadcast ok");
    let out_zero = handle_read_inbox(&mut db, &sid_b, project, read(false, Some(0))).expect("read ok");
    assert_eq!(out_zero.count, 1, "limit=0 should be clamped to 1");
    let out_huge = handle_read_inbox(&mut db, &sid_b, project, read(false, Some(99999))).expect("read ok");
    assert_eq!(out_huge.count, 1, "should still return the 1 message");
}

#[test]
fn test_broadcast_empty_message_rejected() {
    let mut db = test_db();
    let project = "empty-msg";
    let sid = register_session(&mut db, project);
    let result = handle_broadcast(&mut db, &sid, project, say(""));
    assert!(result.is_err(), "empty message should be rejected by validation");
}

#[test]
fn test_prune_old_inbox_returns_count() {
    let mut db = Db::open_memory(&config_with_retention(50)).expect("open db");
    let project = "prune-inbox-count";
    let sid = register_session(&mut db, project);
    handle_broadcast(&mut db, &sid, project, say("old msg")).expect("broadcast ok");
    spin_ms(100);
    let pruned = db.prune_old_inbox().expect("prune ok");
    assert_eq!(pruned, 1, "should have pruned exactly 1 old inbox message");
}

// Deterministic checks with explicit times.

fn post(db: &mut Db, from: &str, message: &str, now: i64) -> i64 {
    db.broadcast_at(
        BroadcastInput { project: "p".to_string(), from_session: from.to_string(), from_branch: None, message: message.to_string(), tags: None },
        now,
    )
    .unwrap()
    .id
}

fn read_at(db: &mut Db, who: &str, unread_only: bool, limit: Option<i64>, now: i64) -> sangha::db::ReadInboxResult {
    db.read_inbox_at(ReadInboxInput { project: "p".to_string(), session_id: who.to_string(), unread_only, limit }, now).unwrap()
}

#[test]
fn same_instant_messages_come_newest_id_first() {
    let mut db = test_db();
    let a = post(&mut db, "a", "one", 100);
    let b = post(&mut db, "a", "two", 100);
    assert!(b > a);
    let out = read_at(&mut db, "b", true, None, 100);
    assert_eq!(out.messages.len(), 2);
    assert_eq!(out.messages[0].id, b);
    assert_eq!(out.messages[1].id, a);
}

#[test]
fn message_ids_are_never_reused_after_pruning() {
    let mut db = Db::open_memory(&config_with_retention(10)).unwrap();
    let first = post(&mut db, "a", "x", 0);
    assert_eq!(db.prune_old_inbox_at(100), 1);
    let second = post(&mut db, "a", "y", 100);
    assert!(second > first);
    assert_eq!(db.next_message_id(), second + 1);
}

#[test]
fn read_marks_record_returned_messages_only() {
    let mut db = test_db();
    post(&mut db, "a", "one", 1);
    post(&mut db, "a", "two", 2);
    let out = read_at(&mut db, "b", true, Some(1), 3);
    assert_eq!(out.count, 1);
    assert_eq!(out.messages[0].message, "two");
    let marks = db.read_marks();
    assert_eq!(marks.len(), 1);
    assert_eq!(marks[0].session_id, "b");
    assert_eq!(marks[0].message_id, out.messages[0].id);
    assert_eq!(marks[0].read_at, 3);
}

#[test]
fn retention_boundary_is_inclusive() {
    let mut db = Db::open_memory(&config_with_retention(100)).unwrap();
    post(&mut db, "a", "x", 0);
    assert_eq!(db.prune_old_inbox_at(100), 0);
    assert_eq!(db.prune_old_inbox_at(101), 1);
}

#[test]
fn tags_are_stored_as_serde_json_text_and_read_back() {
    let mut db = test_db();
    let sid_a = register_session(&mut db, "p");
    let sid_b = register_session(&mut db, "p");
    let tags = vec!["a\"b".to_string(), "x\u{1}\n\\".to_string(), "é".to_string()];
    handle_broadcast(&mut db, &sid_a, "p", BroadcastArgs { message: "m".to_string(), tags: Some(tags.clone()), scope: None }).unwrap();
    handle_broadcast(&mut db, &sid_a, "p", BroadcastArgs { message: "n".to_string(), tags: Some(vec![]), scope: None }).unwrap();
    let rows = db.inbox_rows();
    assert_eq!(rows[0].tags.as_deref(), Some("[\"a\\\"b\",\"x\\u0001\\n\\\\\",\"é\"]"));
    assert_eq!(rows[1].tags.as_deref(), Some("[]"));
    let out = handle_read_inbox(&mut db, &sid_b, "p", read(false, None)).unwrap();
    let first = out.messages.iter().find(|m| m.message == "m").unwrap();
    assert_eq!(first.tags.as_ref(), Some(&tags));
    let second = out.messages.iter().find(|m| m.message == "n").unwrap();
    assert_eq!(second.tags.as_ref(), Some(&vec![]));
}

#[test]
fn broadcast_rejections_are_exact() {
    let mut db = test_db();
    let sid = register_session(&mut db, "p");
    match handle_broadcast(&mut db, &sid, "p", BroadcastArgs { message: "m".to_string(), tags: None, scope: Some("team".to_string()) }) {
        Err(sangha::error::SanghaError::InvalidArgument { tool, argument, constraint, received, next_action }) => {
            assert_eq!(tool, "inbox_broadcast");
            assert_eq!(argument, "scope");
            assert_eq!(constraint, "one of \"project\" or \"user\"");
            assert_eq!(received.as_deref(), Some("team"));
            assert_eq!(next_action, "Pass scope=\"project\" (default) or scope=\"user\".");
        }
        other => panic!("unexpected {:?}", other),
    }
}
