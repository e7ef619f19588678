use sangha::tools::validate::{max_len, non_empty, positive_i64, resolve_project, scope, ttl_in_range, Scope, USER_SCOPE_PROJECT};

#[test]
fn non_empty_ok() {
    assert!(non_empty("t", "name", "hello").is_ok());
}

#[test]
fn non_empty_err() {
    assert!(non_empty("t", "name", "").is_err());
}

#[test]
fn max_len_ok() {
    assert!(max_len("t", "x", "abc", 10).is_ok());
    assert!(max_len("t", "x", "abc", 3).is_ok());
}

#[test]
fn max_len_err() {
    assert!(max_len("t", "x", "abcd", 3).is_err());
}

#[test]
fn positive_i64_ok() {
    assert!(positive_i64("t", "n", 1).is_ok());
}

#[test]
fn positive_i64_err() {
    assert!(positive_i64("t", "n", 0).is_err());
    assert!(positive_i64("t", "n", -5).is_err());
}

#[test]
fn ttl_none_returns_zero() {
    assert_eq!(ttl_in_range("t", "ttl", None, 10_000).unwrap(), 0);
}

#[test]
fn ttl_valid() {
    assert_eq!(ttl_in_range("t", "ttl", Some(5000), 10_000).unwrap(), 5000);
}

#[test]
fn ttl_zero_err() {
    assert!(ttl_in_range("t", "ttl", Some(0), 10_000).is_err());
}

#[test]
fn ttl_negative_err() {
    assert!(ttl_in_range("t", "ttl", Some(-1), 10_000).is_err());
}

#[test]
fn ttl_over_max_err() {
    assert!(ttl_in_range("t", "ttl", Some(10_001), 10_000).is_err());
}

#[test]
fn ttl_at_max_ok() {
    assert_eq!(ttl_in_range("t", "ttl", Some(10_000), 10_000).unwrap(), 10_000);
}

#[test]
fn scope_defaults_to_project() {
    assert_eq!(scope("t", None).unwrap(), Scope::Project);
    assert_eq!(scope("t", Some("")).unwrap(), Scope::Project);
}

#[test]
fn scope_project_variants() {
    assert_eq!(scope("t", Some("project")).unwrap(), Scope::Project);
    assert_eq!(scope("t", Some("PROJECT")).unwrap(), Scope::Project);
    assert_eq!(scope("t", Some("Project")).unwrap(), Scope::Project);
}

#[test]
fn scope_user_variants() {
    assert_eq!(scope("t", Some("user")).unwrap(), Scope::User);
    assert_eq!(scope("t", Some("USER")).unwrap(), Scope::User);
}

#[test]
fn scope_invalid_err() {
    assert!(scope("t", Some("global")).is_err());
}

#[test]
fn resolve_project_project_scope() {
    assert_eq!(resolve_project(Scope::Project, "my-project"), "my-project");
}

#[test]
fn resolve_project_user_scope() {
    assert_eq!(resolve_project(Scope::User, "my-project"), USER_SCOPE_PROJECT);
}

// Further cases of the argument checks.

#[test]
fn max_len_counts_bytes_of_multibyte_text() {
    // "é" is two bytes in UTF-8.
    assert!(max_len("t", "x", "é", 2).is_ok());
    match max_len("t", "x", "é", 1) {
        Err(sangha::error::SanghaError::InvalidArgument { constraint, received, .. }) => {
            assert_eq!(constraint, "length <= 1 bytes");
            assert_eq!(received, Some("2".to_string()));
        }
        other => panic!("unexpected {:?}", other),
    }
}

#[test]
fn ttl_error_names_the_argument_and_bound() {
    match ttl_in_range("resource_claim", "ttl_sec", Some(10_001), 10_000) {
        Err(sangha::error::SanghaError::InvalidArgument { tool, argument, constraint, received, .. }) => {
            assert_eq!(tool, "resource_claim");
            assert_eq!(argument, "ttl_sec");
            assert_eq!(constraint, "<= 10000 ms");
            assert_eq!(received, Some("10001".to_string()));
        }
        other => panic!("unexpected {:?}", other),
    }
}

#[test]
fn scope_error_reports_received_value() {
    match scope("broadcast", Some("global")) {
        Err(sangha::error::SanghaError::InvalidArgument { argument, received, .. }) => {
            assert_eq!(argument, "scope");
            assert_eq!(received, Some("global".to_string()));
        }
        other => panic!("unexpected {:?}", other),
    }
}

#[test]
fn non_empty_error_has_next_action() {
    match non_empty("register_session", "project", "") {
        Err(sangha::error::SanghaError::InvalidArgument { constraint, next_action, .. }) => {
            assert_eq!(constraint, "must be non-empty");
            assert_eq!(next_action, "Pass a non-empty value for `project`.");
        }
        other => panic!("unexpected {:?}", other),
    }
}
