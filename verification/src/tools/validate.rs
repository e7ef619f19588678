//! Shared argument validation for all tools.
//!
//! Each function returns an `InvalidArgument` error with a populated
//! `constraint` and `next_action` on failure.

use vstd::prelude::*;
use vstd::string::StringExecFns;
use vstd::string::StringSliceAdditionalSpecFns;
use crate::error::{SanghaError, is_invalid_argument, invalid_argument, lit, cat};
use crate::text::{str_len, int_decimal, nat_digits, i64_to_decimal, u64_to_decimal};

verus! {

/// Longest accepted project path, in bytes.
pub const MAX_PROJECT: usize = 1024usize;
/// Longest accepted branch name, in bytes.
pub const MAX_BRANCH: usize = 256usize;
/// Longest accepted intent, in bytes.
pub const MAX_INTENT: usize = 1024usize;
/// Longest accepted serialised metadata, in bytes.
pub const MAX_METADATA: usize = 8192usize;
/// Longest accepted resource name, in bytes.
pub const MAX_RESOURCE: usize = 256usize;
/// Longest accepted lock reason, in bytes.
pub const MAX_REASON: usize = 1024usize;

/// Scope of a resource: tied to a project or to the current user across projects.
#[derive(Debug, Clone, Copy, PartialEq, Eq, Structural)]
pub enum Scope {
    Project,
    User,
}

/// Sentinel project identifier used when scope is `User`.
pub const USER_SCOPE_PROJECT: &'static str = "__user__";

/// The ASCII lower-case form of a character.
pub open spec fn ascii_lower(c: char) -> char {
    if 'A' <= c && c <= 'Z' {
        ((c as u32) + 32) as char
    } else {
        c
    }
}

/// `str::to_ascii_lowercase`: ASCII letters 'A'..='Z' become 'a'..='z', every
/// other character is unchanged.
#[verifier::external_body]
fn to_ascii_lowercase(s: &str) -> (r: String)
    ensures
        r@ == s@.map_values(|c: char| ascii_lower(c)),
{
    s.to_ascii_lowercase()
}

/// The scope a string names, case-insensitively, if it names one.
pub open spec fn scope_named(s: Seq<char>) -> Option<Scope> {
    let l = s.map_values(|c: char| ascii_lower(c));
    if l == "project"@ {
        Some(Scope::Project)
    } else if l == "user"@ {
        Some(Scope::User)
    } else {
        None
    }
}

/// The scope an optional string selects: none or empty means `Project`.
pub open spec fn spec_scope(val: Option<Seq<char>>) -> Option<Scope> {
    match val {
        None => Some(Scope::Project),
        Some(s) => if s.len() == 0 {
            Some(Scope::Project)
        } else {
            scope_named(s)
        },
    }
}

/// `e` is the error `non_empty` gives for an empty `arg` of `tool`.
pub open spec fn non_empty_error(e: SanghaError, tool: Seq<char>, arg: Seq<char>) -> bool {
    invalid_argument(e, tool, arg, "must be non-empty"@, Some(Seq::empty()),
        "Pass a non-empty value for `"@ + arg + "`."@)
}

/// `e` is the error `max_len` gives for a value `val` of `arg` longer than
/// `max` bytes.
pub open spec fn max_len_error(e: SanghaError, tool: Seq<char>, arg: Seq<char>, val: Seq<char>, max: usize) -> bool {
    invalid_argument(e, tool, arg, "length <= "@ + nat_digits(max as nat) + " bytes"@,
        Some(nat_digits(str_len(val) as nat)),
        "Shorten `"@ + arg + "` to at most "@ + nat_digits(max as nat) + " bytes."@)
}

/// `e` is the error `ttl_in_range` gives for an out-of-range `v` of `arg`.
pub open spec fn ttl_error(e: SanghaError, tool: Seq<char>, arg: Seq<char>, v: i64, max_ms: i64) -> bool {
    if v <= 0 {
        invalid_argument(e, tool, arg, "> 0"@, Some(int_decimal(v as int)),
            "Pass a positive value for `"@ + arg + "`, or omit to use the default."@)
    } else {
        invalid_argument(e, tool, arg, "<= "@ + int_decimal(max_ms as int) + " ms"@, Some(int_decimal(v as int)),
            "Pass `"@ + arg + "` <= "@ + int_decimal(max_ms as int) + " ms, or omit to use the default."@)
    }
}

/// `e` is the error `scope` gives for a string `s` that names no scope.
pub open spec fn scope_error(e: SanghaError, tool: Seq<char>, s: Seq<char>) -> bool {
    invalid_argument(e, tool, "scope"@, "one of \"project\" or \"user\""@, Some(s),
        "Pass scope=\"project\" (default) or scope=\"user\"."@)
}

/// Return `InvalidArgument` if `val` is empty.
pub fn non_empty(tool: &'static str, arg: &'static str, val: &str) -> (r: Result<(), SanghaError>)
    ensures
        r is Ok <==> val@.len() > 0,
        r matches Err(e) ==> non_empty_error(e, tool@, arg@),
{
    if val.is_empty() {
        let next = cat(cat(lit("Pass a non-empty value for `"), arg), "`.");
        let e = SanghaError::InvalidArgument {
            tool,
            argument: arg,
            constraint: lit("must be non-empty"),
            received: Some(String::new()),
            next_action: next,
        };
        return Err(e);
    }
    Ok(())
}

/// Return `InvalidArgument` if `val` is longer than `max` bytes.
pub fn max_len(tool: &'static str, arg: &'static str, val: &str, max: usize) -> (r: Result<(), SanghaError>)
    ensures
        r is Ok <==> str_len(val@) <= max,
        r matches Err(e) ==> max_len_error(e, tool@, arg@, val@, max),
{
    let n = val.len();
    if n > max {
        let m = u64_to_decimal(max as u64);
        let constraint = cat(cat(lit("length <= "), m.as_str()), " bytes");
        let next = cat(cat(cat(cat(lit("Shorten `"), arg), "` to at most "), m.as_str()), " bytes.");
        let e = SanghaError::InvalidArgument {
            tool,
            argument: arg,
            constraint,
            received: Some(u64_to_decimal(n as u64)),
            next_action: next,
        };
        assert(is_invalid_argument(
            e, tool, arg, "length <= "@ + nat_digits(max as nat) + " bytes"@,
            Some(nat_digits(str_len(val@) as nat)),
            "Shorten `"@ + arg@ + "` to at most "@ + nat_digits(max as nat) + " bytes."@,
        ));
        return Err(e);
    }
    Ok(())
}

/// Return `InvalidArgument` if `val <= 0`.
pub fn positive_i64(tool: &'static str, arg: &'static str, val: i64) -> (r: Result<(), SanghaError>)
    ensures
        r is Ok <==> val > 0,
        r matches Err(e) ==> is_invalid_argument(
            e, tool, arg, "> 0"@, Some(int_decimal(val as int)),
            "Pass a positive integer for `"@ + arg@ + "`."@,
        ),
{
    if val <= 0 {
        let next = cat(cat(lit("Pass a positive integer for `"), arg), "`.");
        let e = SanghaError::InvalidArgument {
            tool,
            argument: arg,
            constraint: lit("> 0"),
            received: Some(i64_to_decimal(val)),
            next_action: next,
        };
        return Err(e);
    }
    Ok(())
}

/// Validate an optional TTL (milliseconds).
///
/// - `None`  → `Ok(0)` (caller should use its own default)
/// - `Some(v)` where v <= 0 → `InvalidArgument`
/// - `Some(v)` where v > max_ms → `InvalidArgument`
/// - otherwise → `Ok(v)`
pub fn ttl_in_range(tool: &'static str, arg: &'static str, val: Option<i64>, max_ms: i64) -> (r: Result<i64, SanghaError>)
    ensures
        match val {
            None => r == Ok::<i64, SanghaError>(0),
            Some(v) => {
                &&& (r is Ok <==> 0 < v <= max_ms)
                &&& r is Ok ==> r == Ok::<i64, SanghaError>(v)
                &&& !(0 < v <= max_ms) ==> (r matches Err(e) && ttl_error(e, tool@, arg@, v, max_ms))
            },
        },
{
    match val {
        None => Ok(0),
        Some(v) => {
            if v <= 0 {
                let next = cat(cat(lit("Pass a positive value for `"), arg), "`, or omit to use the default.");
                let e = SanghaError::InvalidArgument {
                    tool,
                    argument: arg,
                    constraint: lit("> 0"),
                    received: Some(i64_to_decimal(v)),
                    next_action: next,
                };
                return Err(e);
            }
            if v > max_ms {
                let m = i64_to_decimal(max_ms);
                let constraint = cat(cat(lit("<= "), m.as_str()), " ms");
                let next = cat(cat(cat(cat(lit("Pass `"), arg), "` <= "), m.as_str()), " ms, or omit to use the default.");
                let e = SanghaError::InvalidArgument {
                    tool,
                    argument: arg,
                    constraint,
                    received: Some(i64_to_decimal(v)),
                    next_action: next,
                };
                assert(is_invalid_argument(
                    e, tool, arg, "<= "@ + int_decimal(max_ms as int) + " ms"@, Some(int_decimal(v as int)),
                    "Pass `"@ + arg@ + "` <= "@ + int_decimal(max_ms as int)
                        + " ms, or omit to use the default."@,
                ));
                return Err(e);
            }
            Ok(v)
        },
    }
}

/// Parse an optional scope string (`"project"` | `"user"`, case-insensitive).
/// `None` and the empty string default to `Project`.
pub fn scope(tool: &'static str, val: Option<&str>) -> (r: Result<Scope, SanghaError>)
    ensures
        match spec_scope(match val {
            Some(s) => Some(s@),
            None => None,
        }) {
            Some(sc) => r == Ok::<Scope, SanghaError>(sc),
            None => r matches Err(e) && (val matches Some(s) && scope_error(e, tool@, s@)),
        },
        match val {
            None => r == Ok::<Scope, SanghaError>(Scope::Project),
            Some(s) => if s@.len() == 0 {
                r == Ok::<Scope, SanghaError>(Scope::Project)
            } else {
                match scope_named(s@) {
                    Some(sc) => r == Ok::<Scope, SanghaError>(sc),
                    None => r matches Err(e) && scope_error(e, tool@, s@),
                }
            },
        },
{
    match val {
        None => Ok(Scope::Project),
        Some(s) => {
            if s.is_empty() {
                return Ok(Scope::Project);
            }
            let lower = to_ascii_lowercase(s);
            if lower == lit("project") {
                Ok(Scope::Project)
            } else if lower == lit("user") {
                Ok(Scope::User)
            } else {
                Err(SanghaError::InvalidArgument {
                    tool,
                    argument: "scope",
                    constraint: lit("one of \"project\" or \"user\""),
                    received: Some(lit(s)),
                    next_action: lit("Pass scope=\"project\" (default) or scope=\"user\"."),
                })
            }
        },
    }
}

/// The project key a scope resolves to: the session's own project, or the
/// user-scope sentinel.
pub open spec fn spec_resolve_project(scope: Scope, session_project: Seq<char>) -> Seq<char> {
    match scope {
        Scope::Project => session_project,
        Scope::User => "__user__"@,
    }
}

/// Return the effective project key for a given scope.
///
/// - `Project` → `session_project` (whatever project this session belongs to)
/// - `User`    → [`USER_SCOPE_PROJECT`] sentinel
pub fn resolve_project<'a>(scope: Scope, session_project: &'a str) -> (r: &'a str)
    ensures
        r@ == spec_resolve_project(scope, session_project@),
{
    match scope {
        Scope::Project => session_project,
        Scope::User => USER_SCOPE_PROJECT,
    }
}

} // verus!
