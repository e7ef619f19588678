//! Handlers of the resource lock tools.

use vstd::prelude::*;
use crate::clock::{now_ms, now_rfc3339};
use crate::config::Config;
use crate::db::{Db, ClaimInput, ClaimRequest, ReleaseInput, ReleaseRequest, LockRow, LockView, DbView, lock_views,
    locks_listed, spec_claim, claim_outcome, ClaimOutcome, spec_release, release_removes, release_status,
    spec_prune_expired_locks, has_session, session_index, clamp_i64, copy_opt};
use crate::error::{SanghaError, opt_view, lit};
use crate::text::str_len;
use crate::tools::presence::{shown_time, too_long, listed_project};
use crate::tools::validate;
use crate::tools::validate::{Scope, spec_scope, spec_resolve_project, non_empty_error, max_len_error, scope_error, ttl_error,
    MAX_RESOURCE, MAX_REASON};
use crate::ttl::{resolve_ttl, spec_resolve_ttl};
use crate::util::format_ms;

verus! {

// ---------------------------------------------------------------------------
// Args types
// ---------------------------------------------------------------------------

#[derive(Debug)]
pub struct ClaimArgs {
    pub resource: String,
    pub scope: Option<String>,
    pub reason: Option<String>,
    pub long_op: Option<bool>,
    /// TTL in seconds (converted to ms internally).
    pub ttl_sec: Option<i64>,
}

#[derive(Debug)]
pub struct ReleaseArgs {
    pub resource: String,
    pub scope: Option<String>,
    pub force: Option<bool>,
}

#[derive(Debug)]
pub struct LockListArgs {
    pub project: Option<String>,
    pub scope: Option<String>,
}

// ---------------------------------------------------------------------------
// Output types
// ---------------------------------------------------------------------------

#[derive(Debug)]
pub struct HolderInfo {
    pub session_id: String,
    pub branch: Option<String>,
    pub reason: Option<String>,
    /// ISO 8601 / RFC 3339 string.
    pub expires_at: String,
}

#[derive(Debug)]
pub struct FormattedLock {
    pub resource: String,
    pub project: String,
    pub session_id: String,
    pub branch: Option<String>,
    pub reason: Option<String>,
    pub long_op: bool,
    /// ISO 8601 / RFC 3339 string.
    pub acquired_at: String,
    /// ISO 8601 / RFC 3339 string.
    pub expires_at: String,
}

#[derive(Debug)]
pub struct ClaimOutput {
    pub ok: bool,
    pub held_by: Option<HolderInfo>,
    pub lock: Option<FormattedLock>,
    /// When the claim is granted, the lock's expiry (RFC 3339).
    pub expires_at: Option<String>,
}

#[derive(Debug)]
pub struct ReleaseOutput {
    pub ok: bool,
    pub status: String,
}

#[derive(Debug)]
pub struct LockListOutput {
    pub locks: Vec<FormattedLock>,
    pub as_of: String,
}

pub struct FormattedLockView {
    pub resource: Seq<char>,
    pub project: Seq<char>,
    pub session_id: Seq<char>,
    pub branch: Option<Seq<char>>,
    pub reason: Option<Seq<char>>,
    pub long_op: bool,
    pub acquired_at: Seq<char>,
    pub expires_at: Seq<char>,
}

impl View for FormattedLock {
    type V = FormattedLockView;

    open spec fn view(&self) -> FormattedLockView {
        FormattedLockView {
            resource: self.resource@,
            project: self.project@,
            session_id: self.session_id@,
            branch: opt_view(self.branch),
            reason: opt_view(self.reason),
            long_op: self.long_op,
            acquired_at: self.acquired_at@,
            expires_at: self.expires_at@,
        }
    }
}

/// A lock as listings show it.
pub open spec fn formatted_lock() -> spec_fn(LockView) -> FormattedLockView {
    |l: LockView| FormattedLockView {
        resource: l.resource,
        project: l.project,
        session_id: l.session_id,
        branch: l.branch,
        reason: l.reason,
        long_op: l.long_op,
        acquired_at: shown_time(l.acquired_at),
        expires_at: shown_time(l.expires_at),
    }
}

pub open spec fn formatted_lock_views(v: Seq<FormattedLock>) -> Seq<FormattedLockView> {
    v.map_values(|x: FormattedLock| x@)
}

/// The holder of a lock as a refused claim reports it.
pub open spec fn holder_shown(h: HolderInfo, l: LockView) -> bool {
    &&& h.session_id@ == l.session_id
    &&& opt_view(h.branch) == l.branch
    &&& opt_view(h.reason) == l.reason
    &&& h.expires_at@ == shown_time(l.expires_at)
}

/// What a claim answers for its outcome.
pub open spec fn claim_output_matches(out: ClaimOutput, o: ClaimOutcome) -> bool {
    match o {
        ClaimOutcome::NoSession => !out.ok && out.held_by is None && out.lock is None && out.expires_at is None,
        ClaimOutcome::Held(l) => !out.ok && (out.held_by matches Some(h) && holder_shown(h, l))
            && (out.lock matches Some(x) && x@ == formatted_lock()(l)) && out.expires_at is None,
        ClaimOutcome::Granted(l) => out.ok && out.held_by is None && (out.lock matches Some(x) && x@ == formatted_lock()(l))
            && (out.expires_at matches Some(t) && t@ == shown_time(l.expires_at)),
    }
}

/// Whether a requested TTL in seconds converts to milliseconds without
/// overflow.
pub open spec fn ttl_sec_fits(ttl_sec: Option<i64>) -> bool {
    match ttl_sec {
        Some(s) => i64::MIN <= s * 1000 <= i64::MAX,
        None => true,
    }
}

/// The requested TTL in milliseconds.
pub open spec fn requested_ttl_ms(ttl_sec: Option<i64>) -> Option<i64> {
    match ttl_sec {
        Some(s) => Some((s * 1000) as i64),
        None => None,
    }
}

/// The first argument of a claim that fails validation, if any.
pub open spec fn claim_rejection(args: ClaimArgs, max_ttl_ms: i64) -> Option<Seq<char>> {
    if args.resource@.len() == 0 || str_len(args.resource@) > MAX_RESOURCE {
        Some("resource"@)
    } else if too_long(args.reason, MAX_REASON) {
        Some("reason"@)
    } else if spec_scope(opt_view(args.scope)) is None {
        Some("scope"@)
    } else if (requested_ttl_ms(args.ttl_sec) matches Some(v) && (v <= 0 || v > max_ttl_ms)) {
        Some("ttl_sec"@)
    } else {
        None
    }
}

/// The error a claim that fails validation gets: that of its first failing
/// check.
pub open spec fn claim_error(args: ClaimArgs, max_ttl_ms: i64, e: SanghaError) -> bool {
    let t = "resource_claim"@;
    if args.resource@.len() == 0 {
        non_empty_error(e, t, "resource"@)
    } else if str_len(args.resource@) > MAX_RESOURCE {
        max_len_error(e, t, "resource"@, args.resource@, MAX_RESOURCE)
    } else if too_long(args.reason, MAX_REASON) {
        max_len_error(e, t, "reason"@, args.reason->Some_0@, MAX_REASON)
    } else if spec_scope(opt_view(args.scope)) is None {
        scope_error(e, t, args.scope->Some_0@)
    } else {
        ttl_error(e, t, "ttl_sec"@, requested_ttl_ms(args.ttl_sec)->Some_0, max_ttl_ms)
    }
}

/// The error a release that fails validation gets: that of its first
/// failing check.
pub open spec fn release_error(args: ReleaseArgs, e: SanghaError) -> bool {
    let t = "resource_release"@;
    if args.resource@.len() == 0 {
        non_empty_error(e, t, "resource"@)
    } else if str_len(args.resource@) > MAX_RESOURCE {
        max_len_error(e, t, "resource"@, args.resource@, MAX_RESOURCE)
    } else {
        scope_error(e, t, args.scope->Some_0@)
    }
}

/// The TTL a valid claim uses: the requested one, else the default for its kind.
pub open spec fn claim_ttl(args: ClaimArgs, config: Config) -> i64 {
    let long_op = match args.long_op {
        Some(b) => b,
        None => false,
    };
    spec_resolve_ttl(requested_ttl_ms(args.ttl_sec), long_op, config)
}

/// The branch recorded for a session, if it exists and has one.
pub open spec fn session_branch(v: DbView, id: Seq<char>) -> Option<Seq<char>> {
    if has_session(v.sessions, id) {
        v.sessions[session_index(v.sessions, id)].branch
    } else {
        None
    }
}

/// The lock claim a valid `resource_claim` call makes at `now`.
pub open spec fn claim_request(v: DbView, args: ClaimArgs, config: Config, session_id: Seq<char>, session_project: Seq<char>, now: i64) -> ClaimRequest {
    let ttl = claim_ttl(args, config);
    ClaimRequest {
        resource: args.resource@,
        project: spec_resolve_project(spec_scope(opt_view(args.scope))->Some_0, session_project),
        session_id,
        branch: session_branch(v, session_id),
        reason: opt_view(args.reason),
        long_op: match args.long_op {
            Some(b) => b,
            None => false,
        },
        ttl_ms: ttl,
        expires_at: clamp_i64(now + ttl),
    }
}

/// The first argument of a release that fails validation, if any.
pub open spec fn release_rejection(args: ReleaseArgs) -> Option<Seq<char>> {
    if args.resource@.len() == 0 || str_len(args.resource@) > MAX_RESOURCE {
        Some("resource"@)
    } else if spec_scope(opt_view(args.scope)) is None {
        Some("scope"@)
    } else {
        None
    }
}

/// The release a valid `resource_release` call makes.
pub open spec fn release_request(args: ReleaseArgs, session_id: Seq<char>, session_project: Seq<char>) -> ReleaseRequest {
    ReleaseRequest {
        resource: args.resource@,
        project: spec_resolve_project(spec_scope(opt_view(args.scope))->Some_0, session_project),
        session_id,
        force: match args.force {
            Some(b) => b,
            None => false,
        },
    }
}

/// A lock row shaped for listings, with RFC 3339 timestamps.
pub fn lock_to_formatted(row: LockRow) -> (f: FormattedLock)
    ensures
        f@ == formatted_lock()(row@),
{
    let acquired_at = format_ms(row.acquired_at);
    let expires_at = format_ms(row.expires_at);
    FormattedLock {
        resource: row.resource,
        project: row.project,
        session_id: row.session_id,
        branch: row.branch,
        reason: row.reason,
        long_op: row.long_op,
        acquired_at,
        expires_at,
    }
}

fn opt_as_str(o: &Option<String>) -> (r: Option<&str>)
    ensures
        crate::error::opt_str_view(r) == opt_view(*o),
{
    match o {
        Some(s) => Some(s.as_str()),
        None => None,
    }
}

/// Sum of two `i64` values, saturating at the bounds of `i64`.
fn add_saturating(a: i64, b: i64) -> (s: i64)
    ensures
        s == clamp_i64(a + b),
{
    let m: i128 = (a as i128) + (b as i128);
    if m > (i64::MAX as i128) {
        i64::MAX
    } else if m < (i64::MIN as i128) {
        i64::MIN
    } else {
        m as i64
    }
}

/// Attempt to claim (or renew) an advisory resource lock for the session at
/// the current time.
pub fn handle_claim(db: &mut Db, config: &Config, session_id: &str, session_project: &str, args: ClaimArgs) -> (r: Result<ClaimOutput, SanghaError>)
    requires
        old(db).wf(),
        ttl_sec_fits(args.ttl_sec),
    ensures
        final(db).wf(),
        match claim_rejection(args, config.lock_max_ttl_ms) {
            Some(_) => final(db)@ == old(db)@ && (r matches Err(e) && claim_error(args, config.lock_max_ttl_ms, e)),
            None => exists|now: i64|
                #![trigger spec_claim(old(db)@, claim_request(old(db)@, args, *config, session_id@, session_project@, now), now)]
            {
                let req = claim_request(old(db)@, args, *config, session_id@, session_project@, now);
                &&& final(db)@ == spec_claim(old(db)@, req, now)
                &&& r matches Ok(out) && claim_output_matches(out, claim_outcome(old(db)@, req, now))
            },
        },
{
    let tool = "resource_claim";
    if let Err(e) = validate::non_empty(tool, "resource", args.resource.as_str()) {
        return Err(e);
    }
    if let Err(e) = validate::max_len(tool, "resource", args.resource.as_str(), MAX_RESOURCE) {
        return Err(e);
    }
    if let Some(reason) = &args.reason {
        if let Err(e) = validate::max_len(tool, "reason", reason.as_str(), MAX_REASON) {
            return Err(e);
        }
    }
    let parsed = match validate::scope(tool, opt_as_str(&args.scope)) {
        Ok(sc) => sc,
        Err(e) => return Err(e),
    };
    let long_op = match args.long_op {
        Some(b) => b,
        None => false,
    };
    let ttl_ms_opt: Option<i64> = match args.ttl_sec {
        Some(s) => Some(s * 1000),
        None => None,
    };
    let validated = match validate::ttl_in_range(tool, "ttl_sec", ttl_ms_opt, config.lock_max_ttl_ms) {
        Ok(v) => v,
        Err(e) => return Err(e),
    };
    let requested = if validated > 0 { Some(validated) } else { None };
    assert(requested == requested_ttl_ms(args.ttl_sec));
    let effective_ttl = resolve_ttl(requested, long_op, config);
    let now = now_ms();
    let expires_at = add_saturating(now, effective_ttl);
    let branch = match db.get_session(session_id) {
        Ok(Some(s)) => s.branch,
        Ok(None) => None,
        Err(e) => return Err(e),
    };
    let project = lit(validate::resolve_project(parsed, session_project));
    let input = ClaimInput {
        resource: args.resource,
        project,
        session_id: lit(session_id),
        branch,
        reason: args.reason,
        long_op,
        ttl_ms: effective_ttl,
        expires_at,
    };
    let ghost req = claim_request(old(db)@, args, *config, session_id@, session_project@, now);
    assert(input@ == req);
    let result = match db.claim_resource_at(input, now) {
        Ok(res) => res,
        Err(e) => return Err(e),
    };
    let held_by = match result.held_by {
        Some(h) => Some(HolderInfo {
            session_id: h.session_id,
            branch: h.branch,
            reason: h.reason,
            expires_at: format_ms(h.expires_at),
        }),
        None => None,
    };
    let expires_at = if result.ok {
        match &result.lock {
            Some(l) => Some(format_ms(l.expires_at)),
            None => None,
        }
    } else {
        None
    };
    let lock = match result.lock {
        Some(l) => Some(lock_to_formatted(l)),
        None => None,
    };
    Ok(ClaimOutput { ok: result.ok, held_by, lock, expires_at })
}

/// Release an advisory resource lock held by the session (or any holder's,
/// with `force`).
pub fn handle_release(db: &mut Db, session_id: &str, session_project: &str, args: ReleaseArgs) -> (r: Result<ReleaseOutput, SanghaError>)
    requires
        old(db).wf(),
    ensures
        final(db).wf(),
        match release_rejection(args) {
            Some(_) => final(db)@ == old(db)@ && (r matches Err(e) && release_error(args, e)),
            None => {
                let req = release_request(args, session_id@, session_project@);
                &&& final(db)@ == spec_release(old(db)@, req)
                &&& r matches Ok(out) && out.ok == release_removes(old(db)@, req)
                    && out.status@ == release_status(old(db)@, req)
            },
        },
{
    let tool = "resource_release";
    if let Err(e) = validate::non_empty(tool, "resource", args.resource.as_str()) {
        return Err(e);
    }
    if let Err(e) = validate::max_len(tool, "resource", args.resource.as_str(), MAX_RESOURCE) {
        return Err(e);
    }
    let parsed = match validate::scope(tool, opt_as_str(&args.scope)) {
        Ok(sc) => sc,
        Err(e) => return Err(e),
    };
    let ghost req = release_request(args, session_id@, session_project@);
    let input = ReleaseInput {
        resource: args.resource,
        project: lit(validate::resolve_project(parsed, session_project)),
        session_id: lit(session_id),
        force: match args.force {
            Some(b) => b,
            None => false,
        },
    };
    assert(input@ == req);
    match db.release_resource(input) {
        Ok(res) => Ok(ReleaseOutput { ok: res.ok, status: res.status }),
        Err(e) => Err(e),
    }
}

/// List active resource locks.
pub fn handle_list(db: &mut Db, args: LockListArgs) -> (r: Result<LockListOutput, SanghaError>)
    requires
        old(db).wf(),
    ensures
        final(db).wf(),
        match spec_scope(opt_view(args.scope)) {
            None => final(db)@ == old(db)@ && (r matches Err(e) && scope_error(e, "resource_list"@, args.scope->Some_0@)),
            Some(sc) => exists|t: i64| final(db)@ == spec_prune_expired_locks(old(db)@, t)
                && (r matches Ok(out) && formatted_lock_views(out.locks@)
                    == locks_listed(final(db)@.locks, listed_project(sc, args.project)).map_values(formatted_lock())),
        },
{
    let parsed = match validate::scope("resource_list", opt_as_str(&args.scope)) {
        Ok(sc) => sc,
        Err(e) => return Err(e),
    };
    let effective: Option<String> = match parsed {
        Scope::User => Some(lit(validate::USER_SCOPE_PROJECT)),
        Scope::Project => args.project,
    };
    let rows = match db.list_locks(opt_as_str(&effective)) {
        Ok(rows) => rows,
        Err(e) => return Err(e),
    };
    let ghost rv = lock_views(rows@);
    let mut locks: Vec<FormattedLock> = Vec::new();
    let n = rows.len();
    let mut i: usize = 0;
    while i < n
        invariant
            n == rows@.len(),
            rv == lock_views(rows@),
            i <= n,
            formatted_lock_views(locks@) == rv.take(i as int).map_values(formatted_lock()),
        decreases n - i,
    {
        let row = rows[i].duplicate();
        let f = lock_to_formatted(row);
        let ghost before = locks@;
        locks.push(f);
        assert(formatted_lock_views(locks@) =~= formatted_lock_views(before).push(f@));
        assert(rv.take(i + 1) =~= rv.take(i as int).push(rv[i as int]));
        i = i + 1;
    }
    assert(rv.take(n as int) =~= rv);
    Ok(LockListOutput { locks, as_of: now_rfc3339() })
}

} // verus!
