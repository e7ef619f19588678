//! Handlers of the session presence tools: validate the arguments, apply
//! them to the store, and shape the output.

use vstd::prelude::*;
use crate::clock::now_rfc3339;
use crate::db::{Db, RegisterInput, RegisterRequest, SessionRow, SessionView, DbView, session_views, sessions_listed,
    spec_register, registered_id, spec_prune_dead_sessions, spec_heartbeat, spec_auto_extend, spec_unregister,
    has_session, session_in, other_than, copy_opt};
use crate::error::{SanghaError, opt_view, opt_str_view, lit};
use crate::text::str_len;
use crate::tools::validate;
use crate::tools::validate::{Scope, spec_scope, non_empty_error, max_len_error, scope_error, MAX_PROJECT, MAX_BRANCH, MAX_INTENT, MAX_METADATA};
use crate::ttl::{ms_to_secs, thousandths_toward_zero};
use crate::util::{format_ms, spec_format_ms, rfc3339_of_millis};

verus! {

// ---------------------------------------------------------------------------
// Args types
// ---------------------------------------------------------------------------

#[derive(Debug)]
pub struct RegisterArgs {
    /// Project path (required — the service has no working directory).
    pub project: String,
    pub branch: Option<String>,
    pub intent: Option<String>,
    /// The metadata object, as JSON text.
    pub metadata: Option<String>,
}

#[derive(Debug)]
pub struct ListArgs {
    pub project: Option<String>,
    pub scope: Option<String>,
}

// ---------------------------------------------------------------------------
// Output types
// ---------------------------------------------------------------------------

#[derive(Debug)]
pub struct SessionSummary {
    pub session_id: String,
    pub project: String,
    pub branch: Option<String>,
    pub intent: Option<String>,
    pub started_at: i64,
}

#[derive(Debug)]
pub struct RegisterOutput {
    pub session_id: String,
    pub others: Vec<SessionSummary>,
}

#[derive(Debug)]
pub struct HeartbeatOutput {
    pub session_id: String,
    pub ttl_remaining_sec: i64,
}

#[derive(Debug)]
pub struct UnregisterOutput {
    pub ok: bool,
}

#[derive(Debug)]
pub struct FormattedSession {
    pub session_id: String,
    pub project: String,
    pub branch: Option<String>,
    pub intent: Option<String>,
    pub pid: Option<i64>,
    pub hostname: Option<String>,
    /// ISO 8601 / RFC 3339 string.
    pub started_at: String,
    /// ISO 8601 / RFC 3339 string.
    pub last_heartbeat: String,
    /// The metadata object, as JSON text.
    pub metadata: Option<String>,
}

#[derive(Debug)]
pub struct ListOutput {
    pub sessions: Vec<FormattedSession>,
    /// ISO 8601 timestamp of when the list was assembled.
    pub as_of: String,
}

pub struct SummaryView {
    pub session_id: Seq<char>,
    pub project: Seq<char>,
    pub branch: Option<Seq<char>>,
    pub intent: Option<Seq<char>>,
    pub started_at: i64,
}

impl View for SessionSummary {
    type V = SummaryView;

    open spec fn view(&self) -> SummaryView {
        SummaryView {
            session_id: self.session_id@,
            project: self.project@,
            branch: opt_view(self.branch),
            intent: opt_view(self.intent),
            started_at: self.started_at,
        }
    }
}

pub struct FormattedSessionView {
    pub session_id: Seq<char>,
    pub project: Seq<char>,
    pub branch: Option<Seq<char>>,
    pub intent: Option<Seq<char>>,
    pub pid: Option<i64>,
    pub hostname: Option<Seq<char>>,
    pub started_at: Seq<char>,
    pub last_heartbeat: Seq<char>,
    pub metadata: Option<Seq<char>>,
}

impl View for FormattedSession {
    type V = FormattedSessionView;

    open spec fn view(&self) -> FormattedSessionView {
        FormattedSessionView {
            session_id: self.session_id@,
            project: self.project@,
            branch: opt_view(self.branch),
            intent: opt_view(self.intent),
            pid: self.pid,
            hostname: opt_view(self.hostname),
            started_at: self.started_at@,
            last_heartbeat: self.last_heartbeat@,
            metadata: opt_view(self.metadata),
        }
    }
}

/// The summary of a session that registration reports.
pub open spec fn summary_of() -> spec_fn(SessionView) -> SummaryView {
    |s: SessionView| SummaryView {
        session_id: s.id,
        project: s.project,
        branch: s.branch,
        intent: s.intent,
        started_at: s.started_at,
    }
}

/// A timestamp as listings show it.
pub open spec fn shown_time(ms: i64) -> Seq<char> {
    spec_format_ms(rfc3339_of_millis(ms), ms)
}

/// A session as listings show it.
pub open spec fn formatted_session() -> spec_fn(SessionView) -> FormattedSessionView {
    |s: SessionView| FormattedSessionView {
        session_id: s.id,
        project: s.project,
        branch: s.branch,
        intent: s.intent,
        pid: s.pid,
        hostname: s.hostname,
        started_at: shown_time(s.started_at),
        last_heartbeat: shown_time(s.last_heartbeat),
        metadata: s.metadata,
    }
}

pub open spec fn summary_views(v: Seq<SessionSummary>) -> Seq<SummaryView> {
    v.map_values(|x: SessionSummary| x@)
}

pub open spec fn formatted_views(v: Seq<FormattedSession>) -> Seq<FormattedSessionView> {
    v.map_values(|x: FormattedSession| x@)
}

/// Whether an optional text is longer than `max` bytes.
pub open spec fn too_long(o: Option<String>, max: usize) -> bool {
    match o {
        Some(s) => str_len(s@) > max,
        None => false,
    }
}

/// The first argument of a registration that fails validation, if any.
pub open spec fn register_rejection(args: RegisterArgs) -> Option<Seq<char>> {
    if args.project@.len() == 0 || str_len(args.project@) > MAX_PROJECT {
        Some("project"@)
    } else if too_long(args.branch, MAX_BRANCH) {
        Some("branch"@)
    } else if too_long(args.intent, MAX_INTENT) {
        Some("intent"@)
    } else if too_long(args.metadata, MAX_METADATA) {
        Some("metadata"@)
    } else {
        None
    }
}

/// The error a registration that fails validation gets: that of its first
/// failing check.
pub open spec fn register_error(args: RegisterArgs, e: SanghaError) -> bool {
    let t = "session_register"@;
    if args.project@.len() == 0 {
        non_empty_error(e, t, "project"@)
    } else if str_len(args.project@) > MAX_PROJECT {
        max_len_error(e, t, "project"@, args.project@, MAX_PROJECT)
    } else if too_long(args.branch, MAX_BRANCH) {
        max_len_error(e, t, "branch"@, args.branch->Some_0@, MAX_BRANCH)
    } else if too_long(args.intent, MAX_INTENT) {
        max_len_error(e, t, "intent"@, args.intent->Some_0@, MAX_INTENT)
    } else {
        max_len_error(e, t, "metadata"@, args.metadata->Some_0@, MAX_METADATA)
    }
}

/// The registration a valid `session_register` call makes.
pub open spec fn register_request(session_id: Option<Seq<char>>, args: RegisterArgs) -> RegisterRequest {
    RegisterRequest {
        session_id,
        project: args.project@,
        branch: opt_view(args.branch),
        intent: opt_view(args.intent),
        pid: None,
        hostname: None,
        metadata: opt_view(args.metadata),
    }
}

/// The project filter a listing uses for a scope.
pub open spec fn listed_project(sc: Scope, project: Option<String>) -> Option<Seq<char>> {
    match sc {
        Scope::User => Some("__user__"@),
        Scope::Project => opt_view(project),
    }
}

fn check_optional_len(tool: &'static str, arg: &'static str, val: &Option<String>, max: usize) -> (r: Result<(), SanghaError>)
    ensures
        r is Ok <==> !too_long(*val, max),
        r matches Err(e) ==> (*val matches Some(v) && max_len_error(e, tool@, arg@, v@, max)),
{
    match val {
        Some(v) => {
            validate::max_len(tool, arg, v.as_str(), max)
        },
        None => Ok(()),
    }
}

/// A session row shaped for listings, with RFC 3339 timestamps.
pub fn session_to_formatted(row: SessionRow) -> (f: FormattedSession)
    ensures
        f@ == formatted_session()(row@),
{
    let started_at = format_ms(row.started_at);
    let last_heartbeat = format_ms(row.last_heartbeat);
    FormattedSession {
        session_id: row.id,
        project: row.project,
        branch: row.branch,
        intent: row.intent,
        pid: row.pid,
        hostname: row.hostname,
        started_at,
        last_heartbeat,
        metadata: row.metadata,
    }
}

/// Register (or re-register) a session.
///
/// Validates that `project` is non-empty and every text within its length
/// limit, registers, and returns the session id plus the *other* live
/// sessions on the same project.
pub fn handle_register(db: &mut Db, session_id: Option<&str>, args: RegisterArgs) -> (r: Result<RegisterOutput, SanghaError>)
    requires
        old(db).wf(),
    ensures
        final(db).wf(),
        match register_rejection(args) {
            Some(_) => final(db)@ == old(db)@ && (r matches Err(e) && register_error(args, e)),
            None => r matches Ok(out) && exists|generated: Seq<char>, t1: i64, t2: i64|
                #![trigger spec_prune_dead_sessions(spec_register(old(db)@, register_request(opt_str_view(session_id), args), generated, t1), t2)]
            {
                let req = register_request(opt_str_view(session_id), args);
                &&& final(db)@ == spec_prune_dead_sessions(spec_register(old(db)@, req, generated, t1), t2)
                &&& out.session_id@ == registered_id(req, generated)
                &&& session_id is None ==> generated.len() == 36
                &&& summary_views(out.others@) == final(db)@.sessions.filter(session_in(args.project@))
                    .filter(other_than(out.session_id@)).map_values(summary_of())
            },
        },
{
    let tool = "session_register";
    if let Err(e) = validate::non_empty(tool, "project", args.project.as_str()) {
        return Err(e);
    }
    if let Err(e) = validate::max_len(tool, "project", args.project.as_str(), MAX_PROJECT) {
        return Err(e);
    }
    if let Err(e) = check_optional_len(tool, "branch", &args.branch, MAX_BRANCH) {
        return Err(e);
    }
    if let Err(e) = check_optional_len(tool, "intent", &args.intent, MAX_INTENT) {
        return Err(e);
    }
    if let Err(e) = check_optional_len(tool, "metadata", &args.metadata, MAX_METADATA) {
        return Err(e);
    }
    let ghost req = register_request(opt_str_view(session_id), args);
    let project = args.project.clone();
    let input = RegisterInput {
        session_id: match session_id {
            Some(s) => Some(lit(s)),
            None => None,
        },
        project: args.project,
        branch: args.branch,
        intent: args.intent,
        pid: None,
        hostname: None,
        metadata: args.metadata,
    };
    assert(input@ == req);
    let row = match db.register_session(input) {
        Ok(row) => row,
        Err(e) => return Err(e),
    };
    let registered_id_text = row.id;
    let all = match db.list_sessions(Some(project.as_str())) {
        Ok(rows) => rows,
        Err(e) => return Err(e),
    };
    let ghost listed = session_views(all@);
    let ghost keep = other_than(registered_id_text@);
    let mut others: Vec<SessionSummary> = Vec::new();
    let n = all.len();
    let mut i: usize = 0;
    while i < n
        invariant
            n == all@.len(),
            listed == session_views(all@),
            keep == other_than(registered_id_text@),
            i <= n,
            summary_views(others@) == listed.take(i as int).filter(keep).map_values(summary_of()),
        decreases n - i,
    {
        proof { crate::order::lemma_filter_step(listed, i as int, keep); }
        assert(listed[i as int] == all@[i as int]@);
        if all[i].id != registered_id_text {
            let s = &all[i];
            let summary = SessionSummary {
                session_id: s.id.clone(),
                project: s.project.clone(),
                branch: copy_opt(&s.branch),
                intent: copy_opt(&s.intent),
                started_at: s.started_at,
            };
            let ghost before = others@;
            others.push(summary);
            assert(summary_views(others@) =~= summary_views(before).push(summary@));
            assert(listed.take(i + 1).filter(keep).map_values(summary_of()) =~=
                listed.take(i as int).filter(keep).map_values(summary_of()).push(summary_of()(listed[i as int])));
        }
        i = i + 1;
    }
    assert(listed.take(n as int) =~= listed);
    Ok(RegisterOutput { session_id: registered_id_text, others })
}

/// Bump the heartbeat of a session, then auto-extend any of its locks past
/// half-life. Returns the session id and the remaining TTL in whole seconds.
pub fn handle_heartbeat(db: &mut Db, session_id: &str) -> (r: Result<HeartbeatOutput, SanghaError>)
    requires
        old(db).wf(),
    ensures
        final(db).wf(),
        exists|t1: i64, t2: i64| final(db)@ == spec_auto_extend(spec_heartbeat(old(db)@, session_id@, t1), session_id@, t2),
        r matches Ok(out) && out.session_id@ == session_id@ && out.ttl_remaining_sec == if has_session(old(db)@.sessions, session_id@) {
            thousandths_toward_zero(old(db)@.session_ttl_ms as int)
        } else {
            0
        },
{
    let result = match db.heartbeat(session_id) {
        Ok(h) => h,
        Err(e) => return Err(e),
    };
    if let Err(e) = db.auto_extend_locks(session_id) {
        return Err(e);
    }
    Ok(HeartbeatOutput { session_id: result.session_id, ttl_remaining_sec: ms_to_secs(result.ttl_remaining_ms) })
}

/// Unregister a session. Its locks are removed with it.
pub fn handle_unregister(db: &mut Db, session_id: &str) -> (r: Result<UnregisterOutput, SanghaError>)
    requires
        old(db).wf(),
    ensures
        final(db).wf(),
        final(db)@ == spec_unregister(old(db)@, session_id@),
        r matches Ok(out) && out.ok == has_session(old(db)@.sessions, session_id@),
{
    match db.unregister_session(session_id) {
        Ok(u) => Ok(UnregisterOutput { ok: u.ok }),
        Err(e) => Err(e),
    }
}

/// List active sessions.
///
/// The `scope` argument selects the user-scope sentinel project, or the
/// `project` argument (all projects when it is absent).
pub fn handle_list(db: &mut Db, args: ListArgs) -> (r: Result<ListOutput, SanghaError>)
    requires
        old(db).wf(),
    ensures
        final(db).wf(),
        match spec_scope(opt_view(args.scope)) {
            None => final(db)@ == old(db)@ && (r matches Err(e) && scope_error(e, "session_list"@, args.scope->Some_0@)),
            Some(sc) => exists|t: i64| final(db)@ == spec_prune_dead_sessions(old(db)@, t)
                && (r matches Ok(out) && formatted_views(out.sessions@)
                    == sessions_listed(final(db)@.sessions, listed_project(sc, args.project)).map_values(formatted_session())),
        },
{
    let parsed = match validate::scope("session_list", match &args.scope {
        Some(s) => Some(s.as_str()),
        None => None,
    }) {
        Ok(sc) => sc,
        Err(e) => return Err(e),
    };
    let effective: Option<String> = match parsed {
        Scope::User => Some(lit(validate::USER_SCOPE_PROJECT)),
        Scope::Project => args.project,
    };
    let rows = match db.list_sessions(match &effective {
        Some(p) => Some(p.as_str()),
        None => None,
    }) {
        Ok(rows) => rows,
        Err(e) => return Err(e),
    };
    let ghost rv = session_views(rows@);
    let mut sessions: Vec<FormattedSession> = Vec::new();
    let mut rows = rows;
    let n = rows.len();
    let mut i: usize = 0;
    while i < n
        invariant
            n == rows@.len(),
            rv == session_views(rows@),
            i <= n,
            formatted_views(sessions@) == rv.take(i as int).map_values(formatted_session()),
        decreases n - i,
    {
        let row = rows[i].duplicate();
        let f = session_to_formatted(row);
        let ghost before = sessions@;
        sessions.push(f);
        assert(formatted_views(sessions@) =~= formatted_views(before).push(f@));
        assert(rv.take(i + 1) =~= rv.take(i as int).push(rv[i as int]));
        i = i + 1;
    }
    assert(rv.take(n as int) =~= rv);
    Ok(ListOutput { sessions, as_of: now_rfc3339() })
}

} // verus!
