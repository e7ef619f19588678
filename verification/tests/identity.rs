use sangha::identity::Identity;

#[test]
fn test_bind_once() {
    let mut id = Identity::new();
    id.bind("sess-1".to_string(), "proj-a".to_string()).expect("first bind ok");
    assert!(id.is_bound());
    assert_eq!(id.session_id().unwrap(), "sess-1");
    assert_eq!(id.project().unwrap(), "proj-a");
}

#[test]
fn test_bind_twice_same_id() {
    let mut id = Identity::new();
    id.bind("sess-1".to_string(), "proj-a".to_string()).expect("first bind ok");
    // Same values — idempotent, should succeed
    id.bind("sess-1".to_string(), "proj-a".to_string()).expect("second bind ok");
    assert_eq!(id.session_id().unwrap(), "sess-1");
}

#[test]
fn test_bind_twice_different_id() {
    let mut id = Identity::new();
    id.bind("sess-1".to_string(), "proj-a".to_string()).expect("first bind ok");
    let err = id.bind("sess-2".to_string(), "proj-a".to_string());
    assert!(err.is_err(), "should reject different session_id");
    // The first binding is still intact
    assert_eq!(id.session_id().unwrap(), "sess-1");
}

#[test]
fn test_bind_twice_different_project() {
    let mut id = Identity::new();
    id.bind("sess-1".to_string(), "proj-a".to_string()).expect("first bind ok");
    let err = id.bind("sess-1".to_string(), "proj-b".to_string());
    assert!(err.is_err(), "should reject different project on same session_id");
    assert_eq!(id.project().unwrap(), "proj-a");
}

#[test]
fn test_get_before_bind() {
    let id = Identity::new();
    assert!(!id.is_bound());
    let err = id.session_id();
    assert!(err.is_err(), "should error before bind");
    let err = id.project();
    assert!(err.is_err(), "should error before bind");
}

#[test]
fn test_get_after_bind() {
    let mut id = Identity::new();
    id.bind("sess-abc".to_string(), "my-project".to_string()).expect("bind ok");
    assert_eq!(id.session_id().unwrap(), "sess-abc");
    assert_eq!(id.project().unwrap(), "my-project");
}

#[test]
fn identity_error_names_the_tool() {
    let id = Identity::new();
    match id.session_id() {
        Err(sangha::error::SanghaError::IdentityError { .. }) => {}
        other => panic!("unexpected {:?}", other),
    }
}

#[test]
fn default_identity_is_unbound() {
    let id = Identity::default();
    assert!(!id.is_bound());
}
