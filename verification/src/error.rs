//! Actionable errors.
//!
//! Every [`SanghaError`] variant carries enough context to build a JSON-RPC
//! error `data` object that names the tool, the violated constraint, and a
//! next action the caller can take.

pub mod codes;

use vstd::prelude::*;
use vstd::string::StringExecFns;

verus! {

/// What the wire shows under `received`: a JSON string, or a JSON object
/// `{"message": ...}`.
#[derive(Debug)]
pub enum Received {
    Text(String),
    Message(String),
}

/// Canonical JSON-RPC `data` payload for every error returned to the wire.
/// Three fields are always populated: `tool`, `constraint`, `next_action`.
#[derive(Debug)]
pub struct ErrorData {
    pub tool: &'static str,
    pub argument: Option<String>,
    pub constraint: String,
    pub received: Option<Received>,
    pub next_action: String,
}

/// The kind of a storage failure.
#[derive(Debug, PartialEq, Eq, Structural)]
pub enum DbErrorKind {
    /// The storage engine rejected the statement.
    SqliteFailure,
    /// An expected row was absent.
    QueryReturnedNoRows,
    /// Any other storage failure.
    Other,
}

/// A storage failure, with the engine's own description of it.
#[derive(Debug)]
pub struct DbError {
    pub kind: DbErrorKind,
    pub message: String,
}

#[derive(Debug)]
#[allow(inconsistent_fields)]
pub enum SanghaError {
    MissingConfig { name: &'static str, next_action: &'static str },
    InvalidArgument {
        tool: &'static str,
        argument: &'static str,
        constraint: String,
        received: Option<String>,
        next_action: String,
    },
    NotFound { tool: &'static str, kind: String, next_action: String },
    IdentityError { tool: &'static str, message: String, next_action: String },
    Db(DbError),
    Internal(String),
}

pub open spec fn opt_view(o: Option<String>) -> Option<Seq<char>> {
    match o {
        Some(s) => Some(s@),
        None => None,
    }
}

pub open spec fn opt_str_view(o: Option<&str>) -> Option<Seq<char>> {
    match o {
        Some(s) => Some(s@),
        None => None,
    }
}

/// `e` is an `InvalidArgument` error with exactly these fields, the tool and
/// argument given by their text.
pub open spec fn invalid_argument(
    e: SanghaError,
    tool: Seq<char>,
    argument: Seq<char>,
    constraint: Seq<char>,
    received: Option<Seq<char>>,
    next_action: Seq<char>,
) -> bool {
    match e {
        SanghaError::InvalidArgument { tool: t, argument: a, constraint: c, received: r, next_action: n } => {
            &&& t@ == tool
            &&& a@ == argument
            &&& c@ == constraint
            &&& opt_view(r) == received
            &&& n@ == next_action
        },
        _ => false,
    }
}

/// `e` is an `InvalidArgument` error with exactly these fields.
pub open spec fn is_invalid_argument(
    e: SanghaError,
    tool: &str,
    argument: &str,
    constraint: Seq<char>,
    received: Option<Seq<char>>,
    next_action: Seq<char>,
) -> bool {
    match e {
        SanghaError::InvalidArgument { tool: t, argument: a, constraint: c, received: r, next_action: n } => {
            &&& t@ == tool@
            &&& a@ == argument@
            &&& c@ == constraint
            &&& opt_view(r) == received
            &&& n@ == next_action
        },
        _ => false,
    }
}

/// `e` is an `IdentityError` with exactly these fields.
pub open spec fn is_identity_error(e: SanghaError, tool: &str, message: Seq<char>, next_action: Seq<char>) -> bool {
    match e {
        SanghaError::IdentityError { tool: t, message: m, next_action: n } => {
            &&& t@ == tool@
            &&& m@ == message
            &&& n@ == next_action
        },
        _ => false,
    }
}

/// The JSON-RPC code of an error: caller mistakes are invalid parameters,
/// storage and server faults are internal errors.
pub open spec fn spec_code(e: SanghaError) -> i32 {
    match e {
        SanghaError::Db(_) => codes::INTERNAL_ERROR,
        SanghaError::Internal(_) => codes::INTERNAL_ERROR,
        _ => codes::INVALID_PARAMS,
    }
}


pub enum ReceivedView {
    Text(Seq<char>),
    Message(Seq<char>),
}

impl View for Received {
    type V = ReceivedView;

    open spec fn view(&self) -> ReceivedView {
        match self {
            Received::Text(s) => ReceivedView::Text(s@),
            Received::Message(s) => ReceivedView::Message(s@),
        }
    }
}

pub struct ErrorDataView {
    pub tool: Seq<char>,
    pub argument: Option<Seq<char>>,
    pub constraint: Seq<char>,
    pub received: Option<ReceivedView>,
    pub next_action: Seq<char>,
}

impl View for ErrorData {
    type V = ErrorDataView;

    open spec fn view(&self) -> ErrorDataView {
        ErrorDataView {
            tool: self.tool@,
            argument: opt_view(self.argument),
            constraint: self.constraint@,
            received: match self.received {
                Some(r) => Some(r@),
                None => None,
            },
            next_action: self.next_action@,
        }
    }
}

/// The next action suggested for a storage failure.
pub open spec fn spec_db_next_action(kind: DbErrorKind) -> Seq<char> {
    match kind {
        DbErrorKind::SqliteFailure => "The database rejected the query (constraint, permission, or schema issue). Inspect the message, correct the input or schema, and retry."@,
        DbErrorKind::QueryReturnedNoRows => "The expected row was absent. If the caller passed an id, verify it; otherwise report as a bug."@,
        DbErrorKind::Other => "Retry the request. If the error repeats, check server logs for detail and report as a bug if the cause is unclear."@,
    }
}

/// The structured `data` payload of an error.
pub open spec fn spec_data(e: SanghaError) -> ErrorDataView {
    match e {
        SanghaError::MissingConfig { name, next_action } => ErrorDataView {
            tool: "startup"@,
            argument: Some(name@),
            constraint: "environment variable `"@ + name@ + "` must be set"@,
            received: None,
            next_action: next_action@,
        },
        SanghaError::InvalidArgument { tool, argument, constraint, received, next_action } => ErrorDataView {
            tool: tool@,
            argument: Some(argument@),
            constraint: constraint@,
            received: match received {
                Some(r) => Some(ReceivedView::Text(r@)),
                None => None,
            },
            next_action: next_action@,
        },
        SanghaError::NotFound { tool, kind, next_action } => ErrorDataView {
            tool: tool@,
            argument: None,
            constraint: kind@ + " exists"@,
            received: None,
            next_action: next_action@,
        },
        SanghaError::IdentityError { tool, message, next_action } => ErrorDataView {
            tool: tool@,
            argument: None,
            constraint: "caller identity is resolvable"@,
            received: Some(ReceivedView::Message(message@)),
            next_action: next_action@,
        },
        SanghaError::Db(d) => ErrorDataView {
            tool: "database"@,
            argument: None,
            constraint: "database query succeeds"@,
            received: Some(ReceivedView::Message(d.message@)),
            next_action: spec_db_next_action(d.kind),
        },
        SanghaError::Internal(msg) => ErrorDataView {
            tool: "server"@,
            argument: None,
            constraint: "server completes the request without an internal fault"@,
            received: Some(ReceivedView::Message(msg@)),
            next_action: "Report this as a bug; include server logs."@,
        },
    }
}

/// The short human-readable message of an error.
pub open spec fn spec_message(e: SanghaError) -> Seq<char> {
    match e {
        SanghaError::MissingConfig { name, .. } => "missing config: "@ + name@,
        SanghaError::InvalidArgument { tool, argument, constraint, .. } =>
            "["@ + tool@ + "] invalid argument `"@ + argument@ + "`: "@ + constraint@,
        SanghaError::NotFound { tool, kind, .. } => "["@ + tool@ + "] not found: "@ + kind@,
        SanghaError::IdentityError { tool, message, .. } =>
            "["@ + tool@ + "] identity error: "@ + message@,
        SanghaError::Db(d) => "database error: "@ + d.message@,
        SanghaError::Internal(msg) => "internal error: "@ + msg@,
    }
}

/// A new string holding a literal.
pub(crate) fn lit(s: &str) -> (r: String)
    ensures
        r@ == s@,
{
    s.to_owned()
}

/// `a` followed by `b`.
pub(crate) fn cat(a: String, b: &str) -> (r: String)
    ensures
        r@ == a@ + b@,
{
    let mut a = a;
    a.append(b);
    a
}

fn db_next_action(kind: &DbErrorKind) -> (r: String)
    ensures
        r@ == spec_db_next_action(*kind),
{
    match kind {
        DbErrorKind::SqliteFailure => lit("The database rejected the query (constraint, permission, or schema issue). Inspect the message, correct the input or schema, and retry."),
        DbErrorKind::QueryReturnedNoRows => lit("The expected row was absent. If the caller passed an id, verify it; otherwise report as a bug."),
        DbErrorKind::Other => lit("Retry the request. If the error repeats, check server logs for detail and report as a bug if the cause is unclear."),
    }
}

impl SanghaError {
    /// JSON-RPC error code to use on the wire.
    pub fn code(&self) -> (c: i32)
        ensures
            c == spec_code(*self),
    {
        match self {
            SanghaError::Db(_) => codes::INTERNAL_ERROR,
            SanghaError::Internal(_) => codes::INTERNAL_ERROR,
            _ => codes::INVALID_PARAMS,
        }
    }

    /// Short human-readable message for the JSON-RPC `message` field.
    pub fn message(&self) -> (m: String)
        ensures
            m@ == spec_message(*self),
    {
        match self {
            SanghaError::MissingConfig { name, .. } => cat(lit("missing config: "), name),
            SanghaError::InvalidArgument { tool, argument, constraint, .. } => {
                let m = cat(cat(cat(cat(lit("["), tool), "] invalid argument `"), argument), "`: ");
                let r = cat(m, constraint.as_str());
                assert(r@ =~= spec_message(*self));
                r
            },
            SanghaError::NotFound { tool, kind, .. } => {
                let r = cat(cat(cat(lit("["), tool), "] not found: "), kind.as_str());
                assert(r@ =~= spec_message(*self));
                r
            },
            SanghaError::IdentityError { tool, message, .. } => {
                let r = cat(cat(cat(lit("["), tool), "] identity error: "), message.as_str());
                assert(r@ =~= spec_message(*self));
                r
            },
            SanghaError::Db(d) => cat(lit("database error: "), d.message.as_str()),
            SanghaError::Internal(msg) => cat(lit("internal error: "), msg.as_str()),
        }
    }

    /// Structured payload for the JSON-RPC `data` field. Every variant
    /// populates `tool`, `constraint`, `next_action`.
    pub fn data(&self) -> (d: ErrorData)
        ensures
            d@ == spec_data(*self),
    {
        match self {
            SanghaError::MissingConfig { name, next_action } => {
                let d = ErrorData {
                    tool: "startup",
                    argument: Some(lit(name)),
                    constraint: cat(cat(lit("environment variable `"), name), "` must be set"),
                    received: None,
                    next_action: lit(next_action),
                };
                assert(d@.constraint =~= spec_data(*self).constraint);
                d
            },
            SanghaError::InvalidArgument { tool, argument, constraint, received, next_action } => {
                let rec = match received {
                    Some(r) => Some(Received::Text(r.clone())),
                    None => None,
                };
                ErrorData {
                    tool,
                    argument: Some(lit(argument)),
                    constraint: constraint.clone(),
                    received: rec,
                    next_action: next_action.clone(),
                }
            },
            SanghaError::NotFound { tool, kind, next_action } => ErrorData {
                tool,
                argument: None,
                constraint: cat(kind.clone(), " exists"),
                received: None,
                next_action: next_action.clone(),
            },
            SanghaError::IdentityError { tool, message, next_action } => ErrorData {
                tool,
                argument: None,
                constraint: lit("caller identity is resolvable"),
                received: Some(Received::Message(message.clone())),
                next_action: next_action.clone(),
            },
            SanghaError::Db(e) => ErrorData {
                tool: "database",
                argument: None,
                constraint: lit("database query succeeds"),
                received: Some(Received::Message(e.message.clone())),
                next_action: db_next_action(&e.kind),
            },
            SanghaError::Internal(msg) => ErrorData {
                tool: "server",
                argument: None,
                constraint: lit("server completes the request without an internal fault"),
                received: Some(Received::Message(msg.clone())),
                next_action: lit("Report this as a bug; include server logs."),
            },
        }
    }
}

} // verus!
