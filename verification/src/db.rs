//! The coordination store: sessions with heartbeat expiry, advisory locks
//! keyed by (project, resource), and a per-project inbox with read marks.
//!
//! All timestamps are Unix milliseconds (i64). Every operation is stated
//! over [`DbView`], the store as plain values, and keeps [`model_wf`]:
//! session ids and lock keys are unique, every lock belongs to a live
//! session, message ids are unique and below the next id, and rows are kept
//! in the order listings return them.

use vstd::prelude::*;
use crate::config::Config;
use crate::clock::{now_ms, new_session_id};
use crate::error::{opt_view, SanghaError, DbError, DbErrorKind, lit};
use crate::ttl::{half_expired, past_half_life};
use crate::order::{lemma_newest_first_pairwise, lemma_filter_shrinks, lemma_filter_step, lemma_filter_all, pairwise, lemma_pairwise_filter, lemma_pairwise_insert, lemma_pairwise_update, sorted_pos, key_sorted, lemma_sorted_pos, newest_first, lemma_newest_first};

verus! {

broadcast use vstd::seq_lib::group_seq_properties;

// ---------------------------------------------------------------------------
// Row types
// ---------------------------------------------------------------------------

#[derive(Debug, Clone)]
pub struct SessionRow {
    pub id: String,
    pub project: String,
    pub branch: Option<String>,
    pub intent: Option<String>,
    pub pid: Option<i64>,
    pub hostname: Option<String>,
    pub started_at: i64,
    pub last_heartbeat: i64,
    pub metadata: Option<String>,
}

#[derive(Debug, Clone)]
pub struct LockRow {
    pub resource: String,
    pub project: String,
    pub session_id: String,
    pub branch: Option<String>,
    pub reason: Option<String>,
    pub long_op: bool,
    pub ttl_ms: i64,
    pub acquired_at: i64,
    pub expires_at: i64,
}

#[derive(Debug, Clone)]
pub struct InboxRow {
    pub id: i64,
    pub project: String,
    pub from_session: String,
    pub from_branch: Option<String>,
    pub message: String,
    pub tags: Option<String>,
    pub created_at: i64,
}

/// A record that `session_id` has read message `message_id`.
#[derive(Debug, Clone)]
pub struct ReadMark {
    pub session_id: String,
    pub message_id: i64,
    pub read_at: i64,
}

// ---------------------------------------------------------------------------
// Input types
// ---------------------------------------------------------------------------

#[derive(Debug)]
pub struct RegisterInput {
    /// `None` = generate a new UUIDv7.
    pub session_id: Option<String>,
    pub project: String,
    pub branch: Option<String>,
    pub intent: Option<String>,
    pub pid: Option<i64>,
    pub hostname: Option<String>,
    pub metadata: Option<String>,
}

#[derive(Debug)]
pub struct ClaimInput {
    pub resource: String,
    pub project: String,
    pub session_id: String,
    pub branch: Option<String>,
    pub reason: Option<String>,
    pub long_op: bool,
    pub ttl_ms: i64,
    pub expires_at: i64,
}

#[derive(Debug)]
pub struct ReleaseInput {
    pub resource: String,
    pub project: String,
    pub session_id: String,
    pub force: bool,
}

#[derive(Debug)]
pub struct BroadcastInput {
    pub project: String,
    pub from_session: String,
    pub from_branch: Option<String>,
    pub message: String,
    pub tags: Option<String>,
}

#[derive(Debug)]
pub struct ReadInboxInput {
    pub project: String,
    pub session_id: String,
    pub unread_only: bool,
    pub limit: Option<i64>,
}

/// A registration as plain values.
pub struct RegisterRequest {
    pub session_id: Option<Seq<char>>,
    pub project: Seq<char>,
    pub branch: Option<Seq<char>>,
    pub intent: Option<Seq<char>>,
    pub pid: Option<i64>,
    pub hostname: Option<Seq<char>>,
    pub metadata: Option<Seq<char>>,
}

/// A claim as plain values.
pub struct ClaimRequest {
    pub resource: Seq<char>,
    pub project: Seq<char>,
    pub session_id: Seq<char>,
    pub branch: Option<Seq<char>>,
    pub reason: Option<Seq<char>>,
    pub long_op: bool,
    pub ttl_ms: i64,
    pub expires_at: i64,
}

/// A release as plain values.
pub struct ReleaseRequest {
    pub resource: Seq<char>,
    pub project: Seq<char>,
    pub session_id: Seq<char>,
    pub force: bool,
}

/// A broadcast as plain values.
pub struct BroadcastRequest {
    pub project: Seq<char>,
    pub from_session: Seq<char>,
    pub from_branch: Option<Seq<char>>,
    pub message: Seq<char>,
    pub tags: Option<Seq<char>>,
}

/// An inbox read as plain values.
pub struct ReadRequest {
    pub project: Seq<char>,
    pub session_id: Seq<char>,
    pub unread_only: bool,
    pub limit: Option<i64>,
}

impl View for RegisterInput {
    type V = RegisterRequest;

    open spec fn view(&self) -> RegisterRequest {
        RegisterRequest {
            session_id: opt_view(self.session_id),
            project: self.project@,
            branch: opt_view(self.branch),
            intent: opt_view(self.intent),
            pid: self.pid,
            hostname: opt_view(self.hostname),
            metadata: opt_view(self.metadata),
        }
    }
}

impl View for ClaimInput {
    type V = ClaimRequest;

    open spec fn view(&self) -> ClaimRequest {
        ClaimRequest {
            resource: self.resource@,
            project: self.project@,
            session_id: self.session_id@,
            branch: opt_view(self.branch),
            reason: opt_view(self.reason),
            long_op: self.long_op,
            ttl_ms: self.ttl_ms,
            expires_at: self.expires_at,
        }
    }
}

impl View for ReleaseInput {
    type V = ReleaseRequest;

    open spec fn view(&self) -> ReleaseRequest {
        ReleaseRequest {
            resource: self.resource@,
            project: self.project@,
            session_id: self.session_id@,
            force: self.force,
        }
    }
}

impl View for BroadcastInput {
    type V = BroadcastRequest;

    open spec fn view(&self) -> BroadcastRequest {
        BroadcastRequest {
            project: self.project@,
            from_session: self.from_session@,
            from_branch: opt_view(self.from_branch),
            message: self.message@,
            tags: opt_view(self.tags),
        }
    }
}

impl View for ReadInboxInput {
    type V = ReadRequest;

    open spec fn view(&self) -> ReadRequest {
        ReadRequest {
            project: self.project@,
            session_id: self.session_id@,
            unread_only: self.unread_only,
            limit: self.limit,
        }
    }
}

// ---------------------------------------------------------------------------
// Result types
// ---------------------------------------------------------------------------

#[derive(Debug)]
pub struct HeartbeatResult {
    pub ok: bool,
    pub session_id: String,
    pub ttl_remaining_ms: i64,
    pub reason: Option<String>,
}

#[derive(Debug)]
pub struct UnregisterResult {
    pub ok: bool,
    pub locks_released: usize,
}

#[derive(Debug)]
pub struct ClaimResult {
    pub ok: bool,
    pub held_by: Option<HolderInfo>,
    pub lock: Option<LockRow>,
}

#[derive(Debug)]
pub struct HolderInfo {
    pub session_id: String,
    pub branch: Option<String>,
    pub reason: Option<String>,
    pub expires_at: i64,
}

#[derive(Debug)]
pub struct ReleaseResult {
    pub ok: bool,
    pub status: String,
}

#[derive(Debug)]
pub struct ReadInboxResult {
    pub count: i64,
    pub unread_total: i64,
    pub total: i64,
    pub messages: Vec<InboxRow>,
}

// ---------------------------------------------------------------------------
// Views
// ---------------------------------------------------------------------------

pub struct SessionView {
    pub id: Seq<char>,
    pub project: Seq<char>,
    pub branch: Option<Seq<char>>,
    pub intent: Option<Seq<char>>,
    pub pid: Option<i64>,
    pub hostname: Option<Seq<char>>,
    pub started_at: i64,
    pub last_heartbeat: i64,
    pub metadata: Option<Seq<char>>,
}

pub struct LockView {
    pub resource: Seq<char>,
    pub project: Seq<char>,
    pub session_id: Seq<char>,
    pub branch: Option<Seq<char>>,
    pub reason: Option<Seq<char>>,
    pub long_op: bool,
    pub ttl_ms: i64,
    pub acquired_at: i64,
    pub expires_at: i64,
}

pub struct InboxView {
    pub id: i64,
    pub project: Seq<char>,
    pub from_session: Seq<char>,
    pub from_branch: Option<Seq<char>>,
    pub message: Seq<char>,
    pub tags: Option<Seq<char>>,
    pub created_at: i64,
}

pub struct ReadView {
    pub session_id: Seq<char>,
    pub message_id: i64,
    pub read_at: i64,
}

impl View for SessionRow {
    type V = SessionView;

    open spec fn view(&self) -> SessionView {
        SessionView {
            id: self.id@,
            project: self.project@,
            branch: opt_view(self.branch),
            intent: opt_view(self.intent),
            pid: self.pid,
            hostname: opt_view(self.hostname),
            started_at: self.started_at,
            last_heartbeat: self.last_heartbeat,
            metadata: opt_view(self.metadata),
        }
    }
}

impl View for LockRow {
    type V = LockView;

    open spec fn view(&self) -> LockView {
        LockView {
            resource: self.resource@,
            project: self.project@,
            session_id: self.session_id@,
            branch: opt_view(self.branch),
            reason: opt_view(self.reason),
            long_op: self.long_op,
            ttl_ms: self.ttl_ms,
            acquired_at: self.acquired_at,
            expires_at: self.expires_at,
        }
    }
}

impl View for InboxRow {
    type V = InboxView;

    open spec fn view(&self) -> InboxView {
        InboxView {
            id: self.id,
            project: self.project@,
            from_session: self.from_session@,
            from_branch: opt_view(self.from_branch),
            message: self.message@,
            tags: opt_view(self.tags),
            created_at: self.created_at,
        }
    }
}

impl View for ReadMark {
    type V = ReadView;

    open spec fn view(&self) -> ReadView {
        ReadView { session_id: self.session_id@, message_id: self.message_id, read_at: self.read_at }
    }
}

pub open spec fn session_views(v: Seq<SessionRow>) -> Seq<SessionView> {
    v.map_values(|r: SessionRow| r@)
}

pub open spec fn lock_views(v: Seq<LockRow>) -> Seq<LockView> {
    v.map_values(|r: LockRow| r@)
}

pub open spec fn inbox_views(v: Seq<InboxRow>) -> Seq<InboxView> {
    v.map_values(|r: InboxRow| r@)
}

pub open spec fn read_views(v: Seq<ReadMark>) -> Seq<ReadView> {
    v.map_values(|r: ReadMark| r@)
}

/// A copy of an optional string.
pub fn copy_opt(o: &Option<String>) -> (r: Option<String>)
    ensures
        opt_view(r) == opt_view(*o),
{
    match o {
        Some(s) => Some(s.clone()),
        None => None,
    }
}

impl SessionRow {
    /// A copy of the row.
    pub fn duplicate(&self) -> (r: SessionRow)
        ensures
            r@ == self@,
    {
        SessionRow {
            id: self.id.clone(),
            project: self.project.clone(),
            branch: copy_opt(&self.branch),
            intent: copy_opt(&self.intent),
            pid: self.pid,
            hostname: copy_opt(&self.hostname),
            started_at: self.started_at,
            last_heartbeat: self.last_heartbeat,
            metadata: copy_opt(&self.metadata),
        }
    }
}

impl LockRow {
    /// A copy of the row.
    pub fn duplicate(&self) -> (r: LockRow)
        ensures
            r@ == self@,
    {
        LockRow {
            resource: self.resource.clone(),
            project: self.project.clone(),
            session_id: self.session_id.clone(),
            branch: copy_opt(&self.branch),
            reason: copy_opt(&self.reason),
            long_op: self.long_op,
            ttl_ms: self.ttl_ms,
            acquired_at: self.acquired_at,
            expires_at: self.expires_at,
        }
    }
}

impl InboxRow {
    /// A copy of the row.
    pub fn duplicate(&self) -> (r: InboxRow)
        ensures
            r@ == self@,
    {
        InboxRow {
            id: self.id,
            project: self.project.clone(),
            from_session: self.from_session.clone(),
            from_branch: copy_opt(&self.from_branch),
            message: self.message.clone(),
            tags: copy_opt(&self.tags),
            created_at: self.created_at,
        }
    }
}

impl ReadMark {
    /// A copy of the mark.
    pub fn duplicate(&self) -> (r: ReadMark)
        ensures
            r@ == self@,
    {
        ReadMark { session_id: self.session_id.clone(), message_id: self.message_id, read_at: self.read_at }
    }
}

// ---------------------------------------------------------------------------
// The model
// ---------------------------------------------------------------------------

/// The store as plain values.
pub struct DbView {
    pub sessions: Seq<SessionView>,
    pub locks: Seq<LockView>,
    pub inbox: Seq<InboxView>,
    pub reads: Seq<ReadView>,
    pub next_message_id: i64,
    pub session_ttl_ms: i64,
    pub inbox_retention_ms: i64,
}

/// Sessions are listed by start time, and no two share an id.
pub open spec fn session_order(a: SessionView, b: SessionView) -> bool {
    a.started_at <= b.started_at && a.id != b.id
}

/// Locks are listed by acquisition time, and no two share a (project, resource) key.
pub open spec fn lock_order(a: LockView, b: LockView) -> bool {
    a.acquired_at <= b.acquired_at && !(a.project == b.project && a.resource == b.resource)
}

/// Messages are kept oldest first, by creation time and then by id.
pub open spec fn inbox_order(a: InboxView, b: InboxView) -> bool {
    &&& a.created_at < b.created_at || (a.created_at == b.created_at && a.id < b.id)
    &&& a.id != b.id
}

/// No session has read the same message twice.
pub open spec fn read_order(a: ReadView, b: ReadView) -> bool {
    !(a.session_id == b.session_id && a.message_id == b.message_id)
}

pub open spec fn session_rel() -> spec_fn(SessionView, SessionView) -> bool {
    |a: SessionView, b: SessionView| session_order(a, b)
}

pub open spec fn lock_rel() -> spec_fn(LockView, LockView) -> bool {
    |a: LockView, b: LockView| lock_order(a, b)
}

pub open spec fn inbox_rel() -> spec_fn(InboxView, InboxView) -> bool {
    |a: InboxView, b: InboxView| inbox_order(a, b)
}

pub open spec fn read_rel() -> spec_fn(ReadView, ReadView) -> bool {
    |a: ReadView, b: ReadView| read_order(a, b)
}

pub open spec fn has_session(s: Seq<SessionView>, id: Seq<char>) -> bool {
    exists|i: int| 0 <= i < s.len() && (#[trigger] s[i]).id == id
}

pub open spec fn session_index(s: Seq<SessionView>, id: Seq<char>) -> int {
    choose|i: int| 0 <= i < s.len() && (#[trigger] s[i]).id == id
}

pub open spec fn has_lock(l: Seq<LockView>, project: Seq<char>, resource: Seq<char>) -> bool {
    exists|i: int| 0 <= i < l.len() && (#[trigger] l[i]).project == project && l[i].resource == resource
}

pub open spec fn lock_index(l: Seq<LockView>, project: Seq<char>, resource: Seq<char>) -> int {
    choose|i: int| 0 <= i < l.len() && (#[trigger] l[i]).project == project && l[i].resource == resource
}

pub open spec fn has_read(r: Seq<ReadView>, session_id: Seq<char>, message_id: i64) -> bool {
    exists|i: int| 0 <= i < r.len() && (#[trigger] r[i]).session_id == session_id && r[i].message_id == message_id
}

/// The invariant of the store.
pub open spec fn model_wf(v: DbView) -> bool {
    &&& pairwise(v.sessions, session_rel())
    &&& pairwise(v.locks, lock_rel())
    &&& forall|i: int| 0 <= i < v.locks.len() ==> has_session(v.sessions, (#[trigger] v.locks[i]).session_id)
    &&& pairwise(v.inbox, inbox_rel())
    &&& forall|i: int| 0 <= i < v.inbox.len() ==> (#[trigger] v.inbox[i]).id < v.next_message_id
    &&& pairwise(v.reads, read_rel())
    &&& forall|i: int| 0 <= i < v.reads.len() ==> (#[trigger] v.reads[i]).message_id < v.next_message_id
    &&& v.next_message_id >= 1
    &&& v.inbox.len() < v.next_message_id
}

/// Sessions whose last heartbeat is not older than `cutoff`.
pub open spec fn alive_since(cutoff: int) -> spec_fn(SessionView) -> bool {
    |s: SessionView| s.last_heartbeat >= cutoff
}

/// Locks that belong to one of `sessions`.
pub open spec fn owned_within(sessions: Seq<SessionView>) -> spec_fn(LockView) -> bool {
    |l: LockView| has_session(sessions, l.session_id)
}

/// Locks that have not expired at `now`.
pub open spec fn unexpired_at(now: int) -> spec_fn(LockView) -> bool {
    |l: LockView| l.expires_at >= now
}

/// Messages created no earlier than `cutoff`.
pub open spec fn created_since(cutoff: int) -> spec_fn(InboxView) -> bool {
    |m: InboxView| m.created_at >= cutoff
}

/// The locks that still belong to one of `sessions`.
pub open spec fn cascade(locks: Seq<LockView>, sessions: Seq<SessionView>) -> Seq<LockView> {
    locks.filter(owned_within(sessions))
}

/// Pruning dead sessions: those whose last heartbeat is older than the
/// session TTL go, and their locks with them.
pub open spec fn spec_prune_dead_sessions(v: DbView, now: i64) -> DbView {
    let sessions = v.sessions.filter(alive_since(now - v.session_ttl_ms));
    DbView { sessions, locks: cascade(v.locks, sessions), ..v }
}

/// Pruning expired locks: those whose expiry lies before `now` go.
pub open spec fn spec_prune_expired_locks(v: DbView, now: i64) -> DbView {
    DbView { locks: v.locks.filter(unexpired_at(now as int)), ..v }
}

/// Pruning old messages: those created before the retention window go.
pub open spec fn spec_prune_old_inbox(v: DbView, now: i64) -> DbView {
    DbView { inbox: v.inbox.filter(created_since(now - v.inbox_retention_ms)), ..v }
}

pub open spec fn started_key() -> spec_fn(SessionView) -> int {
    |s: SessionView| s.started_at as int
}

pub open spec fn acquired_key() -> spec_fn(LockView) -> int {
    |l: LockView| l.acquired_at as int
}

pub open spec fn created_key() -> spec_fn(InboxView) -> int {
    |m: InboxView| m.created_at as int
}

/// The id a registration uses: the one asked for, or the generated one.
pub open spec fn registered_id(input: RegisterRequest, generated_id: Seq<char>) -> Seq<char> {
    match input.session_id {
        Some(s) => s,
        None => generated_id,
    }
}

/// The row a registration writes.
pub open spec fn registered_row(input: RegisterRequest, id: Seq<char>, started_at: i64, now: i64) -> SessionView {
    SessionView {
        id,
        project: input.project,
        branch: input.branch,
        intent: input.intent,
        pid: input.pid,
        hostname: input.hostname,
        started_at,
        last_heartbeat: now,
        metadata: input.metadata,
    }
}

/// Registering: a known id has its row rewritten in place, keeping
/// `started_at`; a new id gets a row started `now`, placed by start time.
pub open spec fn spec_register(v: DbView, input: RegisterRequest, generated_id: Seq<char>, now: i64) -> DbView {
    let id = registered_id(input, generated_id);
    if has_session(v.sessions, id) {
        let i = session_index(v.sessions, id);
        DbView {
            sessions: v.sessions.update(i, registered_row(input, id, v.sessions[i].started_at, now)),
            ..v
        }
    } else {
        DbView {
            sessions: v.sessions.insert(
                sorted_pos(v.sessions, started_key(), now as int),
                registered_row(input, id, now, now),
            ),
            ..v
        }
    }
}

/// The row a registration returns.
pub open spec fn spec_registered(v: DbView, input: RegisterRequest, generated_id: Seq<char>, now: i64) -> SessionView {
    let id = registered_id(input, generated_id);
    if has_session(v.sessions, id) {
        registered_row(input, id, v.sessions[session_index(v.sessions, id)].started_at, now)
    } else {
        registered_row(input, id, now, now)
    }
}

/// A heartbeat sets `last_heartbeat` of a known session to `now`.
pub open spec fn spec_heartbeat(v: DbView, id: Seq<char>, now: i64) -> DbView {
    if has_session(v.sessions, id) {
        let i = session_index(v.sessions, id);
        DbView { sessions: v.sessions.update(i, SessionView { last_heartbeat: now, ..v.sessions[i] }), ..v }
    } else {
        v
    }
}

/// Sessions other than `id`.
pub open spec fn other_than(id: Seq<char>) -> spec_fn(SessionView) -> bool {
    |s: SessionView| s.id != id
}

/// Locks not held by `id`.
pub open spec fn not_held_by(id: Seq<char>) -> spec_fn(LockView) -> bool {
    |l: LockView| l.session_id != id
}

/// Locks held by `id`.
pub open spec fn held_by(id: Seq<char>) -> spec_fn(LockView) -> bool {
    |l: LockView| l.session_id == id
}

/// Unregistering removes the session and, by cascade, its locks.
pub open spec fn spec_unregister(v: DbView, id: Seq<char>) -> DbView {
    DbView {
        sessions: v.sessions.filter(other_than(id)),
        locks: v.locks.filter(not_held_by(id)),
        ..v
    }
}

/// Sessions of one project.
pub open spec fn session_in(project: Seq<char>) -> spec_fn(SessionView) -> bool {
    |s: SessionView| s.project == project
}

/// The sessions a listing returns, optionally of one project.
pub open spec fn sessions_listed(sessions: Seq<SessionView>, project: Option<Seq<char>>) -> Seq<SessionView> {
    match project {
        Some(p) => sessions.filter(session_in(p)),
        None => sessions,
    }
}

/// The row a successful claim writes.
pub open spec fn claimed_row(input: ClaimRequest, acquired_at: i64) -> LockView {
    LockView {
        resource: input.resource,
        project: input.project,
        session_id: input.session_id,
        branch: input.branch,
        reason: input.reason,
        long_op: input.long_op,
        ttl_ms: input.ttl_ms,
        acquired_at,
        expires_at: input.expires_at,
    }
}

/// How a claim ends.
pub enum ClaimOutcome {
    /// The claiming session does not exist.
    NoSession,
    /// Another session holds the lock.
    Held(LockView),
    /// The lock was written, as this row.
    Granted(LockView),
}

/// The outcome of a claim at `now`, after expired locks are pruned.
pub open spec fn claim_outcome(v: DbView, input: ClaimRequest, now: i64) -> ClaimOutcome {
    let v1 = spec_prune_expired_locks(v, now);
    if !has_session(v1.sessions, input.session_id) {
        ClaimOutcome::NoSession
    } else if has_lock(v1.locks, input.project, input.resource) {
        let held = v1.locks[lock_index(v1.locks, input.project, input.resource)];
        if held.session_id != input.session_id {
            ClaimOutcome::Held(held)
        } else {
            ClaimOutcome::Granted(claimed_row(input, held.acquired_at))
        }
    } else {
        ClaimOutcome::Granted(claimed_row(input, now))
    }
}

/// Claiming: expired locks are pruned; then a lock held by another session,
/// or a claim from an unknown session, changes nothing more; a renewal by the
/// holder rewrites the lock in place keeping `acquired_at`; a free resource
/// gets a new lock acquired `now`, placed by acquisition time.
pub open spec fn spec_claim(v: DbView, input: ClaimRequest, now: i64) -> DbView {
    let v1 = spec_prune_expired_locks(v, now);
    match claim_outcome(v, input, now) {
        ClaimOutcome::Granted(row) => if has_lock(v1.locks, input.project, input.resource) {
            DbView { locks: v1.locks.update(lock_index(v1.locks, input.project, input.resource), row), ..v1 }
        } else {
            DbView { locks: v1.locks.insert(sorted_pos(v1.locks, acquired_key(), now as int), row), ..v1 }
        },
        _ => v1,
    }
}

/// The holder details of a lock.
pub open spec fn holder_matches(h: HolderInfo, l: LockView) -> bool {
    &&& h.session_id@ == l.session_id
    &&& opt_view(h.branch) == l.branch
    &&& opt_view(h.reason) == l.reason
    &&& h.expires_at == l.expires_at
}

/// What a claim returns for its outcome.
pub open spec fn claim_result_matches(r: ClaimResult, o: ClaimOutcome) -> bool {
    match o {
        ClaimOutcome::NoSession => !r.ok && r.held_by is None && r.lock is None,
        ClaimOutcome::Held(l) => !r.ok && (r.held_by matches Some(h) && holder_matches(h, l))
            && (r.lock matches Some(x) && x@ == l),
        ClaimOutcome::Granted(l) => r.ok && r.held_by is None && (r.lock matches Some(x) && x@ == l),
    }
}

/// Locks other than the one at (project, resource).
pub open spec fn not_keyed(project: Seq<char>, resource: Seq<char>) -> spec_fn(LockView) -> bool {
    |l: LockView| !(l.project == project && l.resource == resource)
}

/// Locks other than the one at (project, resource) held by `session_id`.
pub open spec fn not_keyed_for(project: Seq<char>, resource: Seq<char>, session_id: Seq<char>) -> spec_fn(LockView) -> bool {
    |l: LockView| !(l.project == project && l.resource == resource && l.session_id == session_id)
}

/// The predicate a release keeps locks by.
pub open spec fn release_keeps(input: ReleaseRequest) -> spec_fn(LockView) -> bool {
    if input.force {
        not_keyed(input.project, input.resource)
    } else {
        not_keyed_for(input.project, input.resource, input.session_id)
    }
}

/// Releasing removes the lock at (project, resource): always when forced,
/// else only when `session_id` holds it.
pub open spec fn spec_release(v: DbView, input: ReleaseRequest) -> DbView {
    DbView { locks: v.locks.filter(release_keeps(input)), ..v }
}

/// Whether a release removes a lock.
pub open spec fn release_removes(v: DbView, input: ReleaseRequest) -> bool {
    has_lock(v.locks, input.project, input.resource) && (input.force
        || v.locks[lock_index(v.locks, input.project, input.resource)].session_id == input.session_id)
}

/// The status a release reports.
pub open spec fn release_status(v: DbView, input: ReleaseRequest) -> Seq<char> {
    if release_removes(v, input) {
        "released"@
    } else if has_lock(v.locks, input.project, input.resource) {
        "not_owner"@
    } else {
        "not_found"@
    }
}

/// Locks of one project.
pub open spec fn lock_in(project: Seq<char>) -> spec_fn(LockView) -> bool {
    |l: LockView| l.project == project
}

/// The locks a listing returns, optionally of one project.
pub open spec fn locks_listed(locks: Seq<LockView>, project: Option<Seq<char>>) -> Seq<LockView> {
    match project {
        Some(p) => locks.filter(lock_in(p)),
        None => locks,
    }
}

/// An integer brought into the range of `i64`.
pub open spec fn clamp_i64(x: int) -> i64 {
    if x > i64::MAX {
        i64::MAX
    } else if x < i64::MIN {
        i64::MIN
    } else {
        x as i64
    }
}

/// The locks of `session_id` past half-life at `now`.
pub open spec fn extendable(session_id: Seq<char>, now: i64) -> spec_fn(LockView) -> bool {
    |l: LockView| l.session_id == session_id && half_expired(l.expires_at as int, l.ttl_ms as int, now as int)
}

/// A lock after auto-extension: past half-life, its expiry moves to a full
/// TTL from `now`.
pub open spec fn extended(l: LockView, session_id: Seq<char>, now: i64) -> LockView {
    if extendable(session_id, now)(l) {
        LockView { expires_at: clamp_i64(now + l.ttl_ms), ..l }
    } else {
        l
    }
}

/// Auto-extending the locks of `session_id` at `now`.
pub open spec fn spec_auto_extend(v: DbView, session_id: Seq<char>, now: i64) -> DbView {
    DbView { locks: v.locks.map_values(|l: LockView| extended(l, session_id, now)), ..v }
}

/// The row a broadcast writes.
pub open spec fn broadcast_row(input: BroadcastRequest, id: i64, now: i64) -> InboxView {
    InboxView {
        id,
        project: input.project,
        from_session: input.from_session,
        from_branch: input.from_branch,
        message: input.message,
        tags: input.tags,
        created_at: now,
    }
}

/// Broadcasting at `now`: old messages are pruned, then the message is
/// stored under the next id, placed by creation time.
pub open spec fn spec_broadcast(v: DbView, input: BroadcastRequest, now: i64) -> DbView {
    let v1 = spec_prune_old_inbox(v, now);
    DbView {
        inbox: v1.inbox.insert(
            sorted_pos(v1.inbox, created_key(), now as int),
            broadcast_row(input, v1.next_message_id, now),
        ),
        next_message_id: (v1.next_message_id + 1) as i64,
        ..v1
    }
}

/// How many messages a read returns at most: 100 by default, else the
/// requested number brought into 1..=1000.
pub open spec fn effective_limit(limit: Option<i64>) -> int {
    match limit {
        Some(n) => if n < 1 {
            1
        } else if n > 1000 {
            1000
        } else {
            n as int
        },
        None => 100,
    }
}

/// Messages of `project` not sent by `session_id`.
pub open spec fn visible_to(project: Seq<char>, session_id: Seq<char>) -> spec_fn(InboxView) -> bool {
    |m: InboxView| m.project == project && m.from_session != session_id
}

/// Visible messages that `session_id` has not read.
pub open spec fn unread_by(project: Seq<char>, session_id: Seq<char>, reads: Seq<ReadView>) -> spec_fn(InboxView) -> bool {
    |m: InboxView| m.project == project && m.from_session != session_id && !has_read(reads, session_id, m.id)
}

/// Messages that `session_id` has not read.
pub open spec fn not_read_by(session_id: Seq<char>, reads: Seq<ReadView>) -> spec_fn(InboxView) -> bool {
    |m: InboxView| !has_read(reads, session_id, m.id)
}

/// The read mark for a message.
pub open spec fn mark_of(session_id: Seq<char>, now: i64) -> spec_fn(InboxView) -> ReadView {
    |m: InboxView| ReadView { session_id, message_id: m.id, read_at: now }
}

/// The messages a read returns: the newest visible ones (only the unread
/// ones when asked), newest first, at most the effective limit.
pub open spec fn inbox_selection(v: DbView, input: ReadRequest) -> Seq<InboxView> {
    let p = if input.unread_only {
        unread_by(input.project, input.session_id, v.reads)
    } else {
        visible_to(input.project, input.session_id)
    };
    newest_first(v.inbox, p, effective_limit(input.limit) as nat)
}

/// Reading marks every returned message read, once.
pub open spec fn spec_read_inbox(v: DbView, input: ReadRequest, now: i64) -> DbView {
    let sel = inbox_selection(v, input);
    DbView {
        reads: v.reads + sel.filter(not_read_by(input.session_id, v.reads)).map_values(mark_of(input.session_id, now)),
        ..v
    }
}

/// Two messages with different ids.
pub open spec fn distinct_ids() -> spec_fn(InboxView, InboxView) -> bool {
    |a: InboxView, b: InboxView| a.id != b.id
}

/// Locks of any project under another resource name.
pub open spec fn not_named(resource: Seq<char>) -> spec_fn(LockView) -> bool {
    |l: LockView| l.resource != resource
}

/// Locks of any project under this resource name.
pub open spec fn named(resource: Seq<char>) -> spec_fn(LockView) -> bool {
    |l: LockView| l.resource == resource
}

/// Force-releasing a resource name everywhere at `now`: expired locks are
/// pruned, then every lock under that name, in any project, goes.
pub open spec fn spec_force_release_everywhere(v: DbView, resource: Seq<char>, now: i64) -> DbView {
    let v1 = spec_prune_expired_locks(v, now);
    DbView { locks: v1.locks.filter(not_named(resource)), ..v1 }
}

/// Clearing at `now`: dead sessions are pruned, then every session and every
/// lock goes.
pub open spec fn spec_clear_sessions(v: DbView, now: i64) -> DbView {
    let v1 = spec_prune_dead_sessions(v, now);
    DbView { sessions: Seq::empty(), locks: Seq::empty(), ..v1 }
}

/// Running all three pruners in sequence.
pub open spec fn spec_prune_all(v: DbView, now: i64) -> DbView {
    spec_prune_old_inbox(spec_prune_expired_locks(spec_prune_dead_sessions(v, now), now), now)
}

// ---------------------------------------------------------------------------
// Db
// ---------------------------------------------------------------------------

#[derive(Debug)]
pub struct Db {
    sessions: Vec<SessionRow>,
    locks: Vec<LockRow>,
    inbox: Vec<InboxRow>,
    reads: Vec<ReadMark>,
    next_message_id: i64,
    session_ttl_ms: i64,
    inbox_retention_ms: i64,
}

impl View for Db {
    type V = DbView;

    closed spec fn view(&self) -> DbView {
        DbView {
            sessions: session_views(self.sessions@),
            locks: lock_views(self.locks@),
            inbox: inbox_views(self.inbox@),
            reads: read_views(self.reads@),
            next_message_id: self.next_message_id,
            session_ttl_ms: self.session_ttl_ms,
            inbox_retention_ms: self.inbox_retention_ms,
        }
    }
}

impl Db {
    /// The store keeps its invariant.
    pub closed spec fn wf(&self) -> bool {
        model_wf(self@)
    }

    /// What the invariant is: the store's model satisfies `model_wf` (every
    /// table ordered and keyed, every lock held by a registered session,
    /// every message id and read mark below the next id to hand out).
    pub proof fn lemma_wf(&self)
        requires
            self.wf(),
        ensures
            model_wf(self@),
    {
    }

    /// An empty in-memory store with the TTLs of `config`.
    pub fn open_memory(config: &Config) -> (r: Result<Db, SanghaError>)
        ensures
            r matches Ok(db) && db.wf() && db@ == (DbView {
                sessions: Seq::empty(),
                locks: Seq::empty(),
                inbox: Seq::empty(),
                reads: Seq::empty(),
                next_message_id: 1,
                session_ttl_ms: config.session_ttl_ms,
                inbox_retention_ms: config.inbox_retention_ms,
            }),
    {
        let db = Db {
            sessions: Vec::new(),
            locks: Vec::new(),
            inbox: Vec::new(),
            reads: Vec::new(),
            next_message_id: 1,
            session_ttl_ms: config.session_ttl_ms,
            inbox_retention_ms: config.inbox_retention_ms,
        };
        assert(db@.sessions =~= Seq::empty());
        assert(db@.locks =~= Seq::empty());
        assert(db@.inbox =~= Seq::empty());
        assert(db@.reads =~= Seq::empty());
        Ok(db)
    }

    /// The index of the session with id `id`, if there is one.
    fn find_session(&self, id: &String) -> (r: Option<usize>)
        requires
            self.wf(),
        ensures
            match r {
                Some(i) => i < self.sessions@.len() && self@.sessions[i as int].id == id@
                    && has_session(self@.sessions, id@) && i == session_index(self@.sessions, id@),
                None => !has_session(self@.sessions, id@),
            },
    {
        let ghost v = self@;
        let n = self.sessions.len();
        let mut i: usize = 0;
        while i < n
            invariant
                self.wf(),
                v == self@,
                n == self.sessions@.len(),
                i <= n,
                forall|j: int| 0 <= j < i ==> (#[trigger] v.sessions[j]).id != id@,
            decreases n - i,
        {
            assert(v.sessions[i as int] == self.sessions@[i as int]@);
            if self.sessions[i].id == *id {
                proof {
                    let k = session_index(v.sessions, id@);
                    assert(has_session(v.sessions, id@));
                    if k != i {
                        if k < i {
                            assert(session_rel()(v.sessions[k], v.sessions[i as int]));
                        } else {
                            assert(session_rel()(v.sessions[i as int], v.sessions[k]));
                        }
                    }
                }
                return Some(i);
            }
            i = i + 1;
        }
        None
    }

    /// Delete sessions whose `last_heartbeat` is older than the session TTL
    /// (and, by cascade, their locks) at time `now`. Returns the number of
    /// sessions deleted.
    pub fn prune_dead_sessions_at(&mut self, now: i64) -> (n: usize)
        requires
            old(self).wf(),
        ensures
            final(self).wf(),
            final(self)@ == spec_prune_dead_sessions(old(self)@, now),
            n == old(self)@.sessions.len() - final(self)@.sessions.len(),
    {
        let ghost v = self@;
        let ghost p = alive_since(now - v.session_ttl_ms);
        let cutoff: i128 = (now as i128) - (self.session_ttl_ms as i128);
        let mut kept: Vec<SessionRow> = Vec::new();
        let n = self.sessions.len();
        let mut i: usize = 0;
        while i < n
            invariant
                v == self@,
                n == self.sessions@.len(),
                i <= n,
                cutoff == now - v.session_ttl_ms,
                p == alive_since(now - v.session_ttl_ms),
                session_views(kept@) == v.sessions.take(i as int).filter(p),
            decreases n - i,
        {
            proof { lemma_filter_step(v.sessions, i as int, p); }
            assert(v.sessions[i as int] == self.sessions@[i as int]@);
            if (self.sessions[i].last_heartbeat as i128) >= cutoff {
                let r = self.sessions[i].duplicate();
                let ghost before = kept@;
                kept.push(r);
                assert(session_views(kept@) =~= session_views(before).push(r@));
            }
            i = i + 1;
        }
        assert(v.sessions.take(n as int) =~= v.sessions);
        let locks = Self::locks_owned_within(&self.locks, &kept);
        let removed = n - kept.len();
        self.sessions = kept;
        self.locks = locks;
        proof {
            lemma_pairwise_filter(v.sessions, session_rel(), p);
            lemma_pairwise_filter(v.locks, lock_rel(), owned_within(self@.sessions));
            lemma_filter_all(v.locks, owned_within(self@.sessions), |l: LockView| true);
        }
        removed
    }

    /// The locks of `locks` whose session is one of `sessions`, in order.
    fn locks_owned_within(locks: &Vec<LockRow>, sessions: &Vec<SessionRow>) -> (r: Vec<LockRow>)
        ensures
            lock_views(r@) == cascade(lock_views(locks@), session_views(sessions@)),
    {
        let ghost lv = lock_views(locks@);
        let ghost p = owned_within(session_views(sessions@));
        let mut kept: Vec<LockRow> = Vec::new();
        let n = locks.len();
        let mut i: usize = 0;
        while i < n
            invariant
                n == locks@.len(),
                lv == lock_views(locks@),
                p == owned_within(session_views(sessions@)),
                i <= n,
                lock_views(kept@) == lv.take(i as int).filter(p),
            decreases n - i,
        {
            proof { lemma_filter_step(lv, i as int, p); }
            assert(lv[i as int] == locks@[i as int]@);
            if Self::contains_session(sessions, &locks[i].session_id) {
                let r = locks[i].duplicate();
                let ghost before = kept@;
                kept.push(r);
                assert(lock_views(kept@) =~= lock_views(before).push(r@));
            }
            i = i + 1;
        }
        assert(lv.take(n as int) =~= lv);
        kept
    }

    /// Whether one of `sessions` has id `id`.
    fn contains_session(sessions: &Vec<SessionRow>, id: &String) -> (b: bool)
        ensures
            b == has_session(session_views(sessions@), id@),
    {
        let ghost sv = session_views(sessions@);
        let n = sessions.len();
        let mut i: usize = 0;
        while i < n
            invariant
                n == sessions@.len(),
                sv == session_views(sessions@),
                i <= n,
                forall|j: int| 0 <= j < i ==> (#[trigger] sv[j]).id != id@,
            decreases n - i,
        {
            assert(sv[i as int] == sessions@[i as int]@);
            if sessions[i].id == *id {
                return true;
            }
            i = i + 1;
        }
        false
    }

    /// Delete resource locks whose `expires_at` lies before `now`.
    /// Returns the number of locks deleted.
    pub fn prune_expired_locks_at(&mut self, now: i64) -> (n: usize)
        requires
            old(self).wf(),
        ensures
            final(self).wf(),
            final(self)@ == spec_prune_expired_locks(old(self)@, now),
            n == old(self)@.locks.len() - final(self)@.locks.len(),
    {
        let ghost v = self@;
        let ghost p = unexpired_at(now as int);
        let mut kept: Vec<LockRow> = Vec::new();
        let n = self.locks.len();
        let mut i: usize = 0;
        while i < n
            invariant
                v == self@,
                n == self.locks@.len(),
                i <= n,
                p == unexpired_at(now as int),
                lock_views(kept@) == v.locks.take(i as int).filter(p),
            decreases n - i,
        {
            proof { lemma_filter_step(v.locks, i as int, p); }
            assert(v.locks[i as int] == self.locks@[i as int]@);
            if self.locks[i].expires_at >= now {
                let r = self.locks[i].duplicate();
                let ghost before = kept@;
                kept.push(r);
                assert(lock_views(kept@) =~= lock_views(before).push(r@));
            }
            i = i + 1;
        }
        assert(v.locks.take(n as int) =~= v.locks);
        let removed = n - kept.len();
        self.locks = kept;
        proof {
            lemma_pairwise_filter(v.locks, lock_rel(), p);
            lemma_filter_all(v.locks, p, |l: LockView| has_session(v.sessions, l.session_id));
        }
        removed
    }

    /// Delete inbox messages created before the retention window at `now`.
    /// Returns the number of messages deleted.
    pub fn prune_old_inbox_at(&mut self, now: i64) -> (n: usize)
        requires
            old(self).wf(),
        ensures
            final(self).wf(),
            final(self)@ == spec_prune_old_inbox(old(self)@, now),
            n == old(self)@.inbox.len() - final(self)@.inbox.len(),
    {
        let ghost v = self@;
        let ghost p = created_since(now - v.inbox_retention_ms);
        let cutoff: i128 = (now as i128) - (self.inbox_retention_ms as i128);
        let mut kept: Vec<InboxRow> = Vec::new();
        let n = self.inbox.len();
        let mut i: usize = 0;
        while i < n
            invariant
                v == self@,
                n == self.inbox@.len(),
                i <= n,
                cutoff == now - v.inbox_retention_ms,
                p == created_since(now - v.inbox_retention_ms),
                inbox_views(kept@) == v.inbox.take(i as int).filter(p),
            decreases n - i,
        {
            proof { lemma_filter_step(v.inbox, i as int, p); }
            assert(v.inbox[i as int] == self.inbox@[i as int]@);
            if (self.inbox[i].created_at as i128) >= cutoff {
                let r = self.inbox[i].duplicate();
                let ghost before = kept@;
                kept.push(r);
                assert(inbox_views(kept@) =~= inbox_views(before).push(r@));
            }
            i = i + 1;
        }
        assert(v.inbox.take(n as int) =~= v.inbox);
        let removed = n - kept.len();
        self.inbox = kept;
        proof {
            lemma_pairwise_filter(v.inbox, inbox_rel(), p);
            lemma_filter_all(v.inbox, p, |m: InboxView| m.id < v.next_message_id);
        }
        removed
    }

    /// Run all three pruners in sequence at `now`.
    pub fn prune_all_at(&mut self, now: i64)
        requires
            old(self).wf(),
        ensures
            final(self).wf(),
            final(self)@ == spec_prune_all(old(self)@, now),
    {
        self.prune_dead_sessions_at(now);
        self.prune_expired_locks_at(now);
        self.prune_old_inbox_at(now);
    }

    /// Where a session started at `k` goes in the listing order.
    fn session_insert_pos(&self, k: i64) -> (pos: usize)
        ensures
            pos == sorted_pos(self@.sessions, started_key(), k as int),
            pos <= self.sessions@.len(),
    {
        let ghost sv = self@.sessions;
        let mut i = self.sessions.len();
        while i > 0 && self.sessions[i - 1].started_at > k
            invariant
                sv == self@.sessions,
                i <= self.sessions@.len(),
                sorted_pos(sv, started_key(), k as int) == sorted_pos(sv.take(i as int), started_key(), k as int),
            decreases i,
        {
            assert(sv[i - 1] == self.sessions@[i - 1]@);
            assert(sv.take(i as int).drop_last() =~= sv.take(i - 1));
            i = i - 1;
        }
        proof {
            if i > 0 {
                assert(sv[i - 1] == self.sessions@[i - 1]@);
            }
            assert(sv.take(self.sessions@.len() as int) =~= sv);
        }
        i
    }

    /// Register (or re-register) a session at time `now`. The id is
    /// `input.session_id` when given, else `generated_id`. A known id has its
    /// row updated in place while `started_at` is preserved.
    pub fn register_session_at(&mut self, input: RegisterInput, generated_id: String, now: i64) -> (r: Result<SessionRow, SanghaError>)
        requires
            old(self).wf(),
        ensures
            final(self).wf(),
            final(self)@ == spec_register(old(self)@, input@, generated_id@, now),
            r matches Ok(row) && row@ == spec_registered(old(self)@, input@, generated_id@, now),
    {
        let ghost v = self@;
        let ghost inp = input;
        let RegisterInput { session_id, project, branch, intent, pid, hostname, metadata } = input;
        let id = match session_id {
            Some(s) => s,
            None => generated_id,
        };
        assert(id@ == registered_id(inp@, generated_id@));
        match self.find_session(&id) {
            Some(i) => {
                let started_at = self.sessions[i].started_at;
                let row = SessionRow { id, project, branch, intent, pid, hostname, started_at, last_heartbeat: now, metadata };
                let out = row.duplicate();
                let ghost rv = row@;
                assert(rv == registered_row(inp@, rv.id, v.sessions[i as int].started_at, now));
                self.sessions.set(i, row);
                proof {
                    assert(self@.sessions =~= v.sessions.update(i as int, rv));
                    assert forall|j: int| 0 <= j < i implies #[trigger] session_rel()(v.sessions[j], rv) by {
                        assert(session_rel()(v.sessions[j], v.sessions[i as int]));
                    }
                    assert forall|j: int| i < j < v.sessions.len() implies #[trigger] session_rel()(rv, v.sessions[j]) by {
                        assert(session_rel()(v.sessions[i as int], v.sessions[j]));
                    }
                    lemma_pairwise_update(v.sessions, session_rel(), i as int, rv);
                    assert forall|j: int| 0 <= j < v.locks.len() implies has_session(self@.sessions, (#[trigger] v.locks[j]).session_id) by {
                        let sid = v.locks[j].session_id;
                        let k = choose|k: int| 0 <= k < v.sessions.len() && (#[trigger] v.sessions[k]).id == sid;
                        assert(self@.sessions[k].id == sid);
                    }
                }
                Ok(out)
            },
            None => {
                let pos = self.session_insert_pos(now);
                let row = SessionRow { id, project, branch, intent, pid, hostname, started_at: now, last_heartbeat: now, metadata };
                let out = row.duplicate();
                let ghost rv = row@;
                self.sessions.insert(pos, row);
                proof {
                    assert(self@.sessions =~= v.sessions.insert(pos as int, rv));
                    assert(key_sorted(v.sessions, started_key())) by {
                        assert forall|a: int, b: int| 0 <= a < b < v.sessions.len() implies
                            started_key()(#[trigger] v.sessions[a]) <= started_key()(#[trigger] v.sessions[b]) by {
                            assert(session_rel()(v.sessions[a], v.sessions[b]));
                        }
                    }
                    lemma_sorted_pos(v.sessions, started_key(), now as int);
                    assert forall|j: int| 0 <= j < pos implies #[trigger] session_rel()(v.sessions[j], rv) by {
                        assert(started_key()(v.sessions[j]) <= now);
                    }
                    assert forall|j: int| pos <= j < v.sessions.len() implies #[trigger] session_rel()(rv, v.sessions[j]) by {
                        assert(started_key()(v.sessions[j]) > now);
                    }
                    lemma_pairwise_insert(v.sessions, session_rel(), pos as int, rv);
                    v.sessions.insert_ensures(pos as int, rv);
                    assert forall|j: int| 0 <= j < v.locks.len() implies has_session(self@.sessions, (#[trigger] v.locks[j]).session_id) by {
                        let sid = v.locks[j].session_id;
                        let k = choose|k: int| 0 <= k < v.sessions.len() && (#[trigger] v.sessions[k]).id == sid;
                        if k < pos {
                            assert(self@.sessions[k].id == sid);
                        } else {
                            assert(self@.sessions[k + 1].id == sid);
                        }
                    }
                }
                Ok(out)
            },
        }
    }

    /// Update `last_heartbeat` of the session `session_id` to `now`.
    pub fn heartbeat_at(&mut self, session_id: &str, now: i64) -> (r: Result<HeartbeatResult, SanghaError>)
        requires
            old(self).wf(),
        ensures
            final(self).wf(),
            final(self)@ == spec_heartbeat(old(self)@, session_id@, now),
            r matches Ok(h) && {
                &&& h.session_id@ == session_id@
                &&& h.ok == has_session(old(self)@.sessions, session_id@)
                &&& h.ok ==> h.ttl_remaining_ms == old(self)@.session_ttl_ms && h.reason is None
                &&& !h.ok ==> h.ttl_remaining_ms == 0 && opt_view(h.reason) == Some("session not found"@)
            },
    {
        let ghost v = self@;
        let id = lit(session_id);
        match self.find_session(&id) {
            None => Ok(HeartbeatResult {
                ok: false,
                session_id: id,
                ttl_remaining_ms: 0,
                reason: Some(lit("session not found")),
            }),
            Some(i) => {
                let mut row = self.sessions[i].duplicate();
                row.last_heartbeat = now;
                let ghost rv = row@;
                assert(rv == SessionView { last_heartbeat: now, ..v.sessions[i as int] });
                self.sessions.set(i, row);
                proof {
                    assert(self@.sessions =~= v.sessions.update(i as int, rv));
                    assert forall|j: int| 0 <= j < i implies #[trigger] session_rel()(v.sessions[j], rv) by {
                        assert(session_rel()(v.sessions[j], v.sessions[i as int]));
                    }
                    assert forall|j: int| i < j < v.sessions.len() implies #[trigger] session_rel()(rv, v.sessions[j]) by {
                        assert(session_rel()(v.sessions[i as int], v.sessions[j]));
                    }
                    lemma_pairwise_update(v.sessions, session_rel(), i as int, rv);
                    assert forall|j: int| 0 <= j < v.locks.len() implies has_session(self@.sessions, (#[trigger] v.locks[j]).session_id) by {
                        let sid = v.locks[j].session_id;
                        let k = choose|k: int| 0 <= k < v.sessions.len() && (#[trigger] v.sessions[k]).id == sid;
                        assert(self@.sessions[k].id == sid);
                    }
                }
                Ok(HeartbeatResult { ok: true, session_id: id, ttl_remaining_ms: self.session_ttl_ms, reason: None })
            },
        }
    }

    /// Remove a session row and, by cascade, its locks; the number of locks
    /// released is counted first.
    pub fn unregister_session(&mut self, session_id: &str) -> (r: Result<UnregisterResult, SanghaError>)
        requires
            old(self).wf(),
        ensures
            final(self).wf(),
            final(self)@ == spec_unregister(old(self)@, session_id@),
            r matches Ok(u) && {
                &&& u.ok == has_session(old(self)@.sessions, session_id@)
                &&& u.locks_released == old(self)@.locks.filter(held_by(session_id@)).len()
            },
    {
        let ghost v = self@;
        let id = lit(session_id);
        let existed = self.find_session(&id).is_some();
        let ghost ps = other_than(id@);
        let ghost pl = not_held_by(id@);
        let ghost ph = held_by(id@);
        let mut kept: Vec<SessionRow> = Vec::new();
        let n = self.sessions.len();
        let mut i: usize = 0;
        while i < n
            invariant
                v == self@,
                n == self.sessions@.len(),
                i <= n,
                ps == other_than(id@),
                session_views(kept@) == v.sessions.take(i as int).filter(ps),
            decreases n - i,
        {
            proof { lemma_filter_step(v.sessions, i as int, ps); }
            assert(v.sessions[i as int] == self.sessions@[i as int]@);
            if self.sessions[i].id != id {
                let r = self.sessions[i].duplicate();
                let ghost before = kept@;
                kept.push(r);
                assert(session_views(kept@) =~= session_views(before).push(r@));
            }
            i = i + 1;
        }
        assert(v.sessions.take(n as int) =~= v.sessions);
        let mut kept_locks: Vec<LockRow> = Vec::new();
        let mut released: usize = 0;
        let m = self.locks.len();
        let mut j: usize = 0;
        while j < m
            invariant
                v == self@,
                m == self.locks@.len(),
                j <= m,
                pl == not_held_by(id@),
                ph == held_by(id@),
                lock_views(kept_locks@) == v.locks.take(j as int).filter(pl),
                released == v.locks.take(j as int).filter(ph).len(),
                released <= j,
            decreases m - j,
        {
            proof {
                lemma_filter_step(v.locks, j as int, pl);
                lemma_filter_step(v.locks, j as int, ph);
            }
            assert(v.locks[j as int] == self.locks@[j as int]@);
            if self.locks[j].session_id != id {
                let r = self.locks[j].duplicate();
                let ghost before = kept_locks@;
                kept_locks.push(r);
                assert(lock_views(kept_locks@) =~= lock_views(before).push(r@));
            } else {
                released = released + 1;
            }
            j = j + 1;
        }
        assert(v.locks.take(m as int) =~= v.locks);
        self.sessions = kept;
        self.locks = kept_locks;
        proof {
            lemma_pairwise_filter(v.sessions, session_rel(), ps);
            lemma_pairwise_filter(v.locks, lock_rel(), pl);
            lemma_filter_all(v.locks, pl, |l: LockView| has_session(v.sessions, l.session_id));
            assert forall|k: int| 0 <= k < self@.locks.len() implies has_session(self@.sessions, (#[trigger] self@.locks[k]).session_id) by {
                let l = self@.locks[k];
                assert(has_session(v.sessions, l.session_id) && pl(l));
                let q = choose|q: int| 0 <= q < v.sessions.len() && (#[trigger] v.sessions[q]).id == l.session_id;
                v.sessions.lemma_filter_contains(ps, q);
            }
        }
        Ok(UnregisterResult { ok: existed, locks_released: released })
    }

    /// Fetch a single session by id.
    pub fn get_session(&self, session_id: &str) -> (r: Result<Option<SessionRow>, SanghaError>)
        requires
            self.wf(),
        ensures
            r matches Ok(found) && match found {
                Some(row) => has_session(self@.sessions, session_id@)
                    && row@ == self@.sessions[session_index(self@.sessions, session_id@)],
                None => !has_session(self@.sessions, session_id@),
            },
    {
        let id = lit(session_id);
        match self.find_session(&id) {
            Some(i) => {
                let row = self.sessions[i].duplicate();
                assert(row@ == self@.sessions[i as int]);
                Ok(Some(row))
            },
            None => Ok(None),
        }
    }

    /// The sessions, optionally of one project, in listing order.
    fn sessions_of(&self, project: Option<&str>) -> (r: Vec<SessionRow>)
        ensures
            session_views(r@) == sessions_listed(self@.sessions, match project {
                Some(p) => Some(p@),
                None => None,
            }),
    {
        let ghost v = self@;
        let n = self.sessions.len();
        match project {
            None => {
                let mut out: Vec<SessionRow> = Vec::new();
                let mut i: usize = 0;
                while i < n
                    invariant
                        v == self@,
                        n == self.sessions@.len(),
                        i <= n,
                        session_views(out@) == v.sessions.take(i as int),
                    decreases n - i,
                {
                    let r = self.sessions[i].duplicate();
                    let ghost before = out@;
                    out.push(r);
                    assert(session_views(out@) =~= session_views(before).push(r@));
                    assert(v.sessions.take(i + 1) =~= v.sessions.take(i as int).push(v.sessions[i as int]));
                    i = i + 1;
                }
                assert(v.sessions.take(n as int) =~= v.sessions);
                out
            },
            Some(p) => {
                let ps = lit(p);
                let ghost pr = session_in(p@);
                let mut out: Vec<SessionRow> = Vec::new();
                let mut i: usize = 0;
                while i < n
                    invariant
                        v == self@,
                        n == self.sessions@.len(),
                        i <= n,
                        ps@ == p@,
                        pr == session_in(p@),
                        session_views(out@) == v.sessions.take(i as int).filter(pr),
                    decreases n - i,
                {
                    proof { lemma_filter_step(v.sessions, i as int, pr); }
                    assert(v.sessions[i as int] == self.sessions@[i as int]@);
                    if self.sessions[i].project == ps {
                        let r = self.sessions[i].duplicate();
                        let ghost before = out@;
                        out.push(r);
                        assert(session_views(out@) =~= session_views(before).push(r@));
                    }
                    i = i + 1;
                }
                assert(v.sessions.take(n as int) =~= v.sessions);
                out
            },
        }
    }

    /// List sessions at time `now`, optionally filtered by project, in order
    /// of start time. Dead sessions are pruned first.
    pub fn list_sessions_at(&mut self, project: Option<&str>, now: i64) -> (r: Result<Vec<SessionRow>, SanghaError>)
        requires
            old(self).wf(),
        ensures
            final(self).wf(),
            final(self)@ == spec_prune_dead_sessions(old(self)@, now),
            r matches Ok(rows) && session_views(rows@) == sessions_listed(final(self)@.sessions, match project {
                Some(p) => Some(p@),
                None => None,
            }),
    {
        self.prune_dead_sessions_at(now);
        Ok(self.sessions_of(project))
    }

    /// The index of the lock at (project, resource), if there is one.
    fn find_lock(&self, project: &String, resource: &String) -> (r: Option<usize>)
        requires
            self.wf(),
        ensures
            match r {
                Some(i) => i < self.locks@.len() && self@.locks[i as int].project == project@
                    && self@.locks[i as int].resource == resource@
                    && has_lock(self@.locks, project@, resource@)
                    && i == lock_index(self@.locks, project@, resource@),
                None => !has_lock(self@.locks, project@, resource@),
            },
    {
        let ghost v = self@;
        let n = self.locks.len();
        let mut i: usize = 0;
        while i < n
            invariant
                self.wf(),
                v == self@,
                n == self.locks@.len(),
                i <= n,
                forall|j: int| 0 <= j < i ==> !((#[trigger] v.locks[j]).project == project@ && v.locks[j].resource == resource@),
            decreases n - i,
        {
            assert(v.locks[i as int] == self.locks@[i as int]@);
            if self.locks[i].project == *project && self.locks[i].resource == *resource {
                proof {
                    let k = lock_index(v.locks, project@, resource@);
                    assert(has_lock(v.locks, project@, resource@));
                    if k != i {
                        if k < i {
                            assert(lock_rel()(v.locks[k], v.locks[i as int]));
                        } else {
                            assert(lock_rel()(v.locks[i as int], v.locks[k]));
                        }
                    }
                }
                return Some(i);
            }
            i = i + 1;
        }
        None
    }

    /// Where a lock acquired at `k` goes in the listing order.
    fn lock_insert_pos(&self, k: i64) -> (pos: usize)
        ensures
            pos == sorted_pos(self@.locks, acquired_key(), k as int),
            pos <= self.locks@.len(),
    {
        let ghost lv = self@.locks;
        let mut i = self.locks.len();
        while i > 0 && self.locks[i - 1].acquired_at > k
            invariant
                lv == self@.locks,
                i <= self.locks@.len(),
                sorted_pos(lv, acquired_key(), k as int) == sorted_pos(lv.take(i as int), acquired_key(), k as int),
            decreases i,
        {
            assert(lv[i - 1] == self.locks@[i - 1]@);
            assert(lv.take(i as int).drop_last() =~= lv.take(i - 1));
            i = i - 1;
        }
        proof {
            if i > 0 {
                assert(lv[i - 1] == self.locks@[i - 1]@);
            }
            assert(lv.take(self.locks@.len() as int) =~= lv);
        }
        i
    }

    /// Attempt to acquire (or renew) a resource lock at time `now`.
    ///
    /// Expired locks are pruned first. A claim from an unknown session is
    /// refused; a lock held by another session is reported in `held_by`; a
    /// renewal by the holder keeps `acquired_at`.
    pub fn claim_resource_at(&mut self, input: ClaimInput, now: i64) -> (r: Result<ClaimResult, SanghaError>)
        requires
            old(self).wf(),
        ensures
            final(self).wf(),
            final(self)@ == spec_claim(old(self)@, input@, now),
            r matches Ok(res) && claim_result_matches(res, claim_outcome(old(self)@, input@, now)),
    {
        let ghost v0 = self@;
        let ghost inp = input;
        self.prune_expired_locks_at(now);
        let ghost v = self@;
        if self.find_session(&input.session_id).is_none() {
            return Ok(ClaimResult { ok: false, held_by: None, lock: None });
        }
        match self.find_lock(&input.project, &input.resource) {
            Some(i) => {
                if self.locks[i].session_id != input.session_id {
                    let held = self.locks[i].duplicate();
                    let holder = HolderInfo {
                        session_id: held.session_id.clone(),
                        branch: copy_opt(&held.branch),
                        reason: copy_opt(&held.reason),
                        expires_at: held.expires_at,
                    };
                    return Ok(ClaimResult { ok: false, held_by: Some(holder), lock: Some(held) });
                }
                let acquired_at = self.locks[i].acquired_at;
                let ClaimInput { resource, project, session_id, branch, reason, long_op, ttl_ms, expires_at } = input;
                let row = LockRow { resource, project, session_id, branch, reason, long_op, ttl_ms, acquired_at, expires_at };
                let out = row.duplicate();
                let ghost rv = row@;
                assert(rv == claimed_row(inp@, v.locks[i as int].acquired_at));
                self.locks.set(i, row);
                proof {
                    assert(self@.locks =~= v.locks.update(i as int, rv));
                    assert forall|j: int| 0 <= j < i implies #[trigger] lock_rel()(v.locks[j], rv) by {
                        assert(lock_rel()(v.locks[j], v.locks[i as int]));
                    }
                    assert forall|j: int| i < j < v.locks.len() implies #[trigger] lock_rel()(rv, v.locks[j]) by {
                        assert(lock_rel()(v.locks[i as int], v.locks[j]));
                    }
                    lemma_pairwise_update(v.locks, lock_rel(), i as int, rv);
                    assert forall|j: int| 0 <= j < self@.locks.len() implies has_session(self@.sessions, (#[trigger] self@.locks[j]).session_id) by {
                        if j != i {
                            assert(self@.locks[j] == v.locks[j]);
                        } else {
                            assert(self@.locks[j].session_id == v.locks[i as int].session_id);
                        }
                    }
                }
                Ok(ClaimResult { ok: true, held_by: None, lock: Some(out) })
            },
            None => {
                let pos = self.lock_insert_pos(now);
                let ClaimInput { resource, project, session_id, branch, reason, long_op, ttl_ms, expires_at } = input;
                let row = LockRow { resource, project, session_id, branch, reason, long_op, ttl_ms, acquired_at: now, expires_at };
                let out = row.duplicate();
                let ghost rv = row@;
                assert(rv == claimed_row(inp@, now));
                self.locks.insert(pos, row);
                proof {
                    assert(self@.locks =~= v.locks.insert(pos as int, rv));
                    assert(key_sorted(v.locks, acquired_key())) by {
                        assert forall|a: int, b: int| 0 <= a < b < v.locks.len() implies
                            acquired_key()(#[trigger] v.locks[a]) <= acquired_key()(#[trigger] v.locks[b]) by {
                            assert(lock_rel()(v.locks[a], v.locks[b]));
                        }
                    }
                    lemma_sorted_pos(v.locks, acquired_key(), now as int);
                    assert forall|j: int| 0 <= j < pos implies #[trigger] lock_rel()(v.locks[j], rv) by {
                        assert(acquired_key()(v.locks[j]) <= now);
                    }
                    assert forall|j: int| pos <= j < v.locks.len() implies #[trigger] lock_rel()(rv, v.locks[j]) by {
                        assert(acquired_key()(v.locks[j]) > now);
                    }
                    lemma_pairwise_insert(v.locks, lock_rel(), pos as int, rv);
                    v.locks.insert_ensures(pos as int, rv);
                    assert forall|j: int| 0 <= j < self@.locks.len() implies has_session(self@.sessions, (#[trigger] self@.locks[j]).session_id) by {
                        if j < pos {
                            assert(self@.locks[j] == v.locks[j]);
                        } else if j > pos {
                            assert(self@.locks[j] == v.locks[j - 1]);
                        }
                    }
                }
                Ok(ClaimResult { ok: true, held_by: None, lock: Some(out) })
            },
        }
    }

    /// Release a resource lock. With `force` the owner check is skipped.
    /// The status tells "released", "not_owner" (held by someone else) and
    /// "not_found" apart.
    pub fn release_resource(&mut self, input: ReleaseInput) -> (r: Result<ReleaseResult, SanghaError>)
        requires
            old(self).wf(),
        ensures
            final(self).wf(),
            final(self)@ == spec_release(old(self)@, input@),
            r matches Ok(res) && res.ok == release_removes(old(self)@, input@)
                && res.status@ == release_status(old(self)@, input@),
    {
        let ghost v = self@;
        let ghost p = release_keeps(input@);
        let mut kept: Vec<LockRow> = Vec::new();
        let n = self.locks.len();
        let mut i: usize = 0;
        while i < n
            invariant
                v == self@,
                n == self.locks@.len(),
                i <= n,
                p == release_keeps(input@),
                lock_views(kept@) == v.locks.take(i as int).filter(p),
            decreases n - i,
        {
            proof { lemma_filter_step(v.locks, i as int, p); }
            assert(v.locks[i as int] == self.locks@[i as int]@);
            let l = &self.locks[i];
            let matches_key = l.project == input.project && l.resource == input.resource;
            let remove = matches_key && (input.force || l.session_id == input.session_id);
            if !remove {
                let r = self.locks[i].duplicate();
                let ghost before = kept@;
                kept.push(r);
                assert(lock_views(kept@) =~= lock_views(before).push(r@));
            }
            i = i + 1;
        }
        assert(v.locks.take(n as int) =~= v.locks);
        let removed = kept.len() < n;
        proof {
            lemma_filter_shrinks(v.locks, p);
            if has_lock(v.locks, input.project@, input.resource@) {
                let k = lock_index(v.locks, input.project@, input.resource@);
                assert forall|j: int| 0 <= j < v.locks.len() && j != k implies
                    !((#[trigger] v.locks[j]).project == input.project@ && v.locks[j].resource == input.resource@) by {
                    if j < k {
                        assert(lock_rel()(v.locks[j], v.locks[k]));
                    } else {
                        assert(lock_rel()(v.locks[k], v.locks[j]));
                    }
                }
                assert(removed == !p(v.locks[k]));
            }
        }
        let exists = self.find_lock(&input.project, &input.resource).is_some();
        self.locks = kept;
        proof {
            lemma_pairwise_filter(v.locks, lock_rel(), p);
            lemma_filter_all(v.locks, p, |l: LockView| has_session(v.sessions, l.session_id));
        }
        if removed {
            Ok(ReleaseResult { ok: true, status: lit("released") })
        } else if exists {
            Ok(ReleaseResult { ok: false, status: lit("not_owner") })
        } else {
            Ok(ReleaseResult { ok: false, status: lit("not_found") })
        }
    }

    /// The locks, optionally of one project, in listing order.
    fn locks_of(&self, project: Option<&str>) -> (r: Vec<LockRow>)
        ensures
            lock_views(r@) == locks_listed(self@.locks, match project {
                Some(p) => Some(p@),
                None => None,
            }),
    {
        let ghost v = self@;
        let n = self.locks.len();
        match project {
            None => {
                let mut out: Vec<LockRow> = Vec::new();
                let mut i: usize = 0;
                while i < n
                    invariant
                        v == self@,
                        n == self.locks@.len(),
                        i <= n,
                        lock_views(out@) == v.locks.take(i as int),
                    decreases n - i,
                {
                    let r = self.locks[i].duplicate();
                    let ghost before = out@;
                    out.push(r);
                    assert(lock_views(out@) =~= lock_views(before).push(r@));
                    assert(v.locks.take(i + 1) =~= v.locks.take(i as int).push(v.locks[i as int]));
                    i = i + 1;
                }
                assert(v.locks.take(n as int) =~= v.locks);
                out
            },
            Some(p) => {
                let ps = lit(p);
                let ghost pr = lock_in(p@);
                let mut out: Vec<LockRow> = Vec::new();
                let mut i: usize = 0;
                while i < n
                    invariant
                        v == self@,
                        n == self.locks@.len(),
                        i <= n,
                        ps@ == p@,
                        pr == lock_in(p@),
                        lock_views(out@) == v.locks.take(i as int).filter(pr),
                    decreases n - i,
                {
                    proof { lemma_filter_step(v.locks, i as int, pr); }
                    assert(v.locks[i as int] == self.locks@[i as int]@);
                    if self.locks[i].project == ps {
                        let r = self.locks[i].duplicate();
                        let ghost before = out@;
                        out.push(r);
                        assert(lock_views(out@) =~= lock_views(before).push(r@));
                    }
                    i = i + 1;
                }
                assert(v.locks.take(n as int) =~= v.locks);
                out
            },
        }
    }

    /// List locks at time `now`, optionally filtered by project, in order of
    /// acquisition. Expired locks are pruned first.
    pub fn list_locks_at(&mut self, project: Option<&str>, now: i64) -> (r: Result<Vec<LockRow>, SanghaError>)
        requires
            old(self).wf(),
        ensures
            final(self).wf(),
            final(self)@ == spec_prune_expired_locks(old(self)@, now),
            r matches Ok(rows) && lock_views(rows@) == locks_listed(final(self)@.locks, match project {
                Some(p) => Some(p@),
                None => None,
            }),
    {
        self.prune_expired_locks_at(now);
        Ok(self.locks_of(project))
    }

    /// Extend, at time `now`, the expiry of every lock owned by `session_id`
    /// whose remaining TTL is less than half its total TTL, to a full TTL
    /// from `now`. Returns the number of locks extended.
    pub fn auto_extend_locks_at(&mut self, session_id: &str, now: i64) -> (r: Result<usize, SanghaError>)
        requires
            old(self).wf(),
        ensures
            final(self).wf(),
            final(self)@ == spec_auto_extend(old(self)@, session_id@, now),
            r matches Ok(n) && n == old(self)@.locks.filter(extendable(session_id@, now)).len(),
    {
        let ghost v = self@;
        let ghost p = extendable(session_id@, now);
        let id = lit(session_id);
        let mut out: Vec<LockRow> = Vec::new();
        let mut count: usize = 0;
        let n = self.locks.len();
        let mut i: usize = 0;
        while i < n
            invariant
                v == self@,
                n == self.locks@.len(),
                i <= n,
                id@ == session_id@,
                p == extendable(session_id@, now),
                lock_views(out@) == v.locks.take(i as int).map_values(|l: LockView| extended(l, session_id@, now)),
                count == v.locks.take(i as int).filter(p).len(),
                count <= i,
            decreases n - i,
        {
            proof { lemma_filter_step(v.locks, i as int, p); }
            assert(v.locks[i as int] == self.locks@[i as int]@);
            let mut row = self.locks[i].duplicate();
            if row.session_id == id && past_half_life(row.expires_at, row.ttl_ms, now) {
                let e: i128 = (now as i128) + (row.ttl_ms as i128);
                row.expires_at = if e > (i64::MAX as i128) {
                    i64::MAX
                } else if e < (i64::MIN as i128) {
                    i64::MIN
                } else {
                    e as i64
                };
                count = count + 1;
            }
            let ghost before = out@;
            out.push(row);
            assert(lock_views(out@) =~= lock_views(before).push(row@));
            assert(v.locks.take(i + 1) =~= v.locks.take(i as int).push(v.locks[i as int]));
            i = i + 1;
        }
        assert(v.locks.take(n as int) =~= v.locks);
        self.locks = out;
        proof {
            let m = self@.locks;
            assert forall|a: int, b: int| 0 <= a < b < m.len() implies #[trigger] lock_rel()(m[a], m[b]) by {
                assert(lock_rel()(v.locks[a], v.locks[b]));
            }
            assert forall|j: int| 0 <= j < m.len() implies has_session(self@.sessions, (#[trigger] m[j]).session_id) by {
                assert(m[j].session_id == v.locks[j].session_id);
            }
        }
        Ok(count)
    }

    /// Where a message created at `k` goes in the inbox order.
    fn inbox_insert_pos(&self, k: i64) -> (pos: usize)
        ensures
            pos == sorted_pos(self@.inbox, created_key(), k as int),
            pos <= self.inbox@.len(),
    {
        let ghost iv = self@.inbox;
        let mut i = self.inbox.len();
        while i > 0 && self.inbox[i - 1].created_at > k
            invariant
                iv == self@.inbox,
                i <= self.inbox@.len(),
                sorted_pos(iv, created_key(), k as int) == sorted_pos(iv.take(i as int), created_key(), k as int),
            decreases i,
        {
            assert(iv[i - 1] == self.inbox@[i - 1]@);
            assert(iv.take(i as int).drop_last() =~= iv.take(i - 1));
            i = i - 1;
        }
        proof {
            if i > 0 {
                assert(iv[i - 1] == self.inbox@[i - 1]@);
            }
            assert(iv.take(self.inbox@.len() as int) =~= iv);
        }
        i
    }

    /// Post a message to the inbox at time `now`, after pruning old
    /// messages. Ids are never reused; when they run out the store reports
    /// that it is full.
    pub fn broadcast_at(&mut self, input: BroadcastInput, now: i64) -> (r: Result<InboxRow, SanghaError>)
        requires
            old(self).wf(),
        ensures
            final(self).wf(),
            old(self)@.next_message_id < i64::MAX ==> {
                &&& final(self)@ == spec_broadcast(old(self)@, input@, now)
                &&& r matches Ok(row) && row@ == broadcast_row(input@, old(self)@.next_message_id, now)
            },
            old(self)@.next_message_id == i64::MAX ==> {
                &&& final(self)@ == spec_prune_old_inbox(old(self)@, now)
                &&& r matches Err(SanghaError::Db(e)) && e.kind == DbErrorKind::SqliteFailure
                    && e.message@ == "database or disk is full"@
            },
    {
        let ghost inp = input;
        self.prune_old_inbox_at(now);
        let ghost v = self@;
        if self.next_message_id == i64::MAX {
            return Err(SanghaError::Db(DbError { kind: DbErrorKind::SqliteFailure, message: lit("database or disk is full") }));
        }
        let id = self.next_message_id;
        let pos = self.inbox_insert_pos(now);
        let BroadcastInput { project, from_session, from_branch, message, tags } = input;
        let row = InboxRow { id, project, from_session, from_branch, message, tags, created_at: now };
        let out = row.duplicate();
        let ghost rv = row@;
        assert(rv == broadcast_row(inp@, v.next_message_id, now));
        self.inbox.insert(pos, row);
        self.next_message_id = id + 1;
        proof {
            assert(self@.inbox =~= v.inbox.insert(pos as int, rv));
            assert(key_sorted(v.inbox, created_key())) by {
                assert forall|a: int, b: int| 0 <= a < b < v.inbox.len() implies
                    created_key()(#[trigger] v.inbox[a]) <= created_key()(#[trigger] v.inbox[b]) by {
                    assert(inbox_rel()(v.inbox[a], v.inbox[b]));
                }
            }
            lemma_sorted_pos(v.inbox, created_key(), now as int);
            assert forall|j: int| 0 <= j < pos implies #[trigger] inbox_rel()(v.inbox[j], rv) by {
                assert(created_key()(v.inbox[j]) <= now);
                assert(v.inbox[j].id < id);
            }
            assert forall|j: int| pos <= j < v.inbox.len() implies #[trigger] inbox_rel()(rv, v.inbox[j]) by {
                assert(created_key()(v.inbox[j]) > now);
            }
            lemma_pairwise_insert(v.inbox, inbox_rel(), pos as int, rv);
            v.inbox.insert_ensures(pos as int, rv);
            assert forall|j: int| 0 <= j < self@.inbox.len() implies (#[trigger] self@.inbox[j]).id < self@.next_message_id by {
                if j < pos {
                    assert(self@.inbox[j] == v.inbox[j]);
                } else if j > pos {
                    assert(self@.inbox[j] == v.inbox[j - 1]);
                }
            }
        }
        Ok(out)
    }

    /// Whether `session_id` has read message `message_id`.
    fn has_read_mark(&self, session_id: &String, message_id: i64) -> (b: bool)
        ensures
            b == has_read(self@.reads, session_id@, message_id),
    {
        let ghost rv = self@.reads;
        let n = self.reads.len();
        let mut i: usize = 0;
        while i < n
            invariant
                rv == self@.reads,
                n == self.reads@.len(),
                i <= n,
                forall|j: int| 0 <= j < i ==> !((#[trigger] rv[j]).session_id == session_id@ && rv[j].message_id == message_id),
            decreases n - i,
        {
            assert(rv[i as int] == self.reads@[i as int]@);
            if self.reads[i].message_id == message_id && self.reads[i].session_id == *session_id {
                return true;
            }
            i = i + 1;
        }
        false
    }

    /// Read inbox messages for a project on behalf of `session_id` at time `now`.
    ///
    /// - Excludes messages sent by `session_id` itself.
    /// - If `unread_only`, excludes messages already marked read.
    /// - Returns the newest messages first, at most the effective limit.
    /// - Counts total and unread **before** marking the returned messages read.
    /// - Records a read mark for every returned message not yet marked.
    pub fn read_inbox_at(&mut self, input: ReadInboxInput, now: i64) -> (r: Result<ReadInboxResult, SanghaError>)
        requires
            old(self).wf(),
        ensures
            final(self).wf(),
            final(self)@ == spec_read_inbox(old(self)@, input@, now),
            r matches Ok(res) && {
                &&& inbox_views(res.messages@) == inbox_selection(old(self)@, input@)
                &&& res.count == res.messages@.len()
                &&& res.total == old(self)@.inbox.filter(visible_to(input.project@, input.session_id@)).len()
                &&& res.unread_total == old(self)@.inbox.filter(
                    unread_by(input.project@, input.session_id@, old(self)@.reads)).len()
            },
    {
        let ghost v = self@;
        let limit: usize = match input.limit {
            Some(n) => if n < 1 {
                1
            } else if n > 1000 {
                1000
            } else {
                n as usize
            },
            None => 100,
        };
        let ghost pv = visible_to(input.project@, input.session_id@);
        let ghost pu = unread_by(input.project@, input.session_id@, v.reads);
        let ghost psel = if input.unread_only { pu } else { pv };
        // Count visible and unread messages.
        let mut total: usize = 0;
        let mut unread: usize = 0;
        let n = self.inbox.len();
        let mut i: usize = 0;
        while i < n
            invariant
                v == self@,
                n == self.inbox@.len(),
                i <= n,
                pv == visible_to(input.project@, input.session_id@),
                pu == unread_by(input.project@, input.session_id@, v.reads),
                total == v.inbox.take(i as int).filter(pv).len(),
                unread == v.inbox.take(i as int).filter(pu).len(),
                total <= i,
                unread <= i,
            decreases n - i,
        {
            proof {
                lemma_filter_step(v.inbox, i as int, pv);
                lemma_filter_step(v.inbox, i as int, pu);
            }
            assert(v.inbox[i as int] == self.inbox@[i as int]@);
            let m = &self.inbox[i];
            if m.project == input.project && m.from_session != input.session_id {
                total = total + 1;
                if !self.has_read_mark(&input.session_id, m.id) {
                    unread = unread + 1;
                }
            }
            i = i + 1;
        }
        assert(v.inbox.take(n as int) =~= v.inbox);
        // Select the newest matching messages.
        let mut messages: Vec<InboxRow> = Vec::new();
        let mut j: usize = n;
        while j > 0 && messages.len() < limit
            invariant
                v == self@,
                n == self.inbox@.len(),
                j <= n,
                limit == effective_limit(input.limit),
                messages@.len() <= limit,
                pv == visible_to(input.project@, input.session_id@),
                pu == unread_by(input.project@, input.session_id@, v.reads),
                psel == if input.unread_only { pu } else { pv },
                inbox_views(messages@) + newest_first(v.inbox.take(j as int), psel, (limit - messages@.len()) as nat)
                    == newest_first(v.inbox, psel, limit as nat),
            decreases j,
        {
            let ghost t = v.inbox.take(j as int);
            assert(t.drop_last() =~= v.inbox.take(j - 1));
            assert(t.last() == self.inbox@[j - 1]@);
            let m = &self.inbox[j - 1];
            let take = m.project == input.project && m.from_session != input.session_id
                && (!input.unread_only || !self.has_read_mark(&input.session_id, m.id));
            if take {
                let row = self.inbox[j - 1].duplicate();
                let ghost before = messages@;
                messages.push(row);
                assert(inbox_views(messages@) =~= inbox_views(before).push(row@));
                assert(inbox_views(messages@) + newest_first(v.inbox.take(j - 1), psel, (limit - messages@.len()) as nat)
                    =~= inbox_views(before) + newest_first(t, psel, (limit - before.len()) as nat));
            }
            j = j - 1;
        }
        proof {
            if j == 0 {
                assert(v.inbox.take(0) =~= Seq::<InboxView>::empty());
            }
            assert(newest_first(v.inbox.take(j as int), psel, (limit - messages@.len()) as nat) =~= Seq::<InboxView>::empty());
            assert(inbox_views(messages@) =~= inbox_selection(v, input@));
        }
        // Mark the returned messages read.
        let ghost sel = inbox_selection(v, input@);
        let ghost q = not_read_by(input.session_id@, v.reads);
        let ghost f = mark_of(input.session_id@, now);
        let mut marks: Vec<ReadMark> = Vec::new();
        let c = messages.len();
        let mut k: usize = 0;
        while k < c
            invariant
                v == self@,
                c == messages@.len(),
                sel == inbox_views(messages@),
                k <= c,
                q == not_read_by(input.session_id@, v.reads),
                f == mark_of(input.session_id@, now),
                read_views(marks@) == sel.take(k as int).filter(q).map_values(f),
            decreases c - k,
        {
            proof { lemma_filter_step(sel, k as int, q); }
            assert(sel[k as int] == messages@[k as int]@);
            if !self.has_read_mark(&input.session_id, messages[k].id) {
                let mark = ReadMark { session_id: input.session_id.clone(), message_id: messages[k].id, read_at: now };
                let ghost before = marks@;
                marks.push(mark);
                assert(read_views(marks@) =~= read_views(before).push(mark@));
                assert(sel.take(k + 1).filter(q).map_values(f) =~= sel.take(k as int).filter(q).map_values(f).push(f(sel[k as int])));
            }
            k = k + 1;
        }
        assert(sel.take(c as int) =~= sel);
        let ghost added = read_views(marks@);
        let ghost old_reads = self.reads@;
        self.reads.append(&mut marks);
        proof {
            assert(read_views(self.reads@) =~= v.reads + added);
            // Pairwise distinct read marks.
            lemma_newest_first_pairwise(v.inbox, psel, limit as nat, inbox_rel());
            let sq = sel.filter(q);
            assert(sel == newest_first(v.inbox, psel, limit as nat));
            assert(pairwise(sel, distinct_ids())) by {
                assert forall|a: int, b: int| 0 <= a < b < sel.len() implies
                    #[trigger] distinct_ids()(sel[a], sel[b]) by {
                    assert(inbox_rel()(sel[b], sel[a]));
                }
            }
            lemma_pairwise_filter(sel, distinct_ids(), q);
            lemma_filter_all(sel, q, |m: InboxView| true);
            let all = self@.reads;
            assert forall|a: int, b: int| 0 <= a < b < all.len() implies #[trigger] read_rel()(all[a], all[b]) by {
                if b < v.reads.len() {
                    assert(read_rel()(v.reads[a], v.reads[b]));
                } else if a < v.reads.len() {
                    let m = sq[b - v.reads.len()];
                    assert(q(m));
                    assert(all[b] == f(m));
                    assert(all[a] == v.reads[a]);
                } else {
                    let x = sq[a - v.reads.len()];
                    let y = sq[b - v.reads.len()];
                    assert(distinct_ids()(x, y));
                }
            }
            lemma_newest_first(v.inbox, psel, limit as nat);
            assert forall|a: int| 0 <= a < all.len() implies (#[trigger] all[a]).message_id < v.next_message_id by {
                if a >= v.reads.len() {
                    let m = sq[a - v.reads.len()];
                    assert(sq.contains(m));
                    sel.lemma_filter_contains_rev(q, m);
                    let b = choose|b: int| 0 <= b < sel.len() && sel[b] == m;
                    assert(v.inbox.contains(sel[b]));
                }
            }
        }
        Ok(ReadInboxResult { count: c as i64, unread_total: unread as i64, total: total as i64, messages })
    }

    // -----------------------------------------------------------------------
    // The same operations at the current time
    // -----------------------------------------------------------------------

    /// Delete sessions whose `last_heartbeat` is older than the session TTL.
    /// Returns the number of rows deleted.
    pub fn prune_dead_sessions(&mut self) -> (r: Result<usize, SanghaError>)
        requires
            old(self).wf(),
        ensures
            final(self).wf(),
            r matches Ok(n) && exists|now: i64| final(self)@ == spec_prune_dead_sessions(old(self)@, now)
                && n == old(self)@.sessions.len() - final(self)@.sessions.len(),
    {
        let now = now_ms();
        Ok(self.prune_dead_sessions_at(now))
    }

    /// Delete resource locks whose `expires_at` is in the past.
    /// Returns the number of rows deleted.
    pub fn prune_expired_locks(&mut self) -> (r: Result<usize, SanghaError>)
        requires
            old(self).wf(),
        ensures
            final(self).wf(),
            r matches Ok(n) && exists|now: i64| final(self)@ == spec_prune_expired_locks(old(self)@, now)
                && n == old(self)@.locks.len() - final(self)@.locks.len(),
    {
        let now = now_ms();
        Ok(self.prune_expired_locks_at(now))
    }

    /// Delete inbox messages older than the retention window.
    /// Returns the number of rows deleted.
    pub fn prune_old_inbox(&mut self) -> (r: Result<usize, SanghaError>)
        requires
            old(self).wf(),
        ensures
            final(self).wf(),
            r matches Ok(n) && exists|now: i64| final(self)@ == spec_prune_old_inbox(old(self)@, now)
                && n == old(self)@.inbox.len() - final(self)@.inbox.len(),
    {
        let now = now_ms();
        Ok(self.prune_old_inbox_at(now))
    }

    /// Run all three pruners in sequence.
    pub fn prune_all(&mut self) -> (r: Result<(), SanghaError>)
        requires
            old(self).wf(),
        ensures
            final(self).wf(),
            r is Ok,
            exists|now: i64| final(self)@ == spec_prune_all(old(self)@, now),
    {
        let now = now_ms();
        self.prune_all_at(now);
        Ok(())
    }

    /// Register (or re-register) a session. If `input.session_id` is `None` a
    /// new UUIDv7 is generated. On conflict the row is updated in place while
    /// `started_at` is preserved.
    pub fn register_session(&mut self, input: RegisterInput) -> (r: Result<SessionRow, SanghaError>)
        requires
            old(self).wf(),
        ensures
            final(self).wf(),
            r matches Ok(row) && exists|generated: Seq<char>|
                #![trigger spec_registered(old(self)@, input@, generated, row.last_heartbeat)]
                final(self)@ == spec_register(old(self)@, input@, generated, row.last_heartbeat)
                && row@ == spec_registered(old(self)@, input@, generated, row.last_heartbeat)
                && (input.session_id is None ==> generated.len() == 36),
    {
        let now = now_ms();
        let generated = if input.session_id.is_none() {
            new_session_id()
        } else {
            String::new()
        };
        let ghost g = generated@;
        assert(input.session_id is None ==> g.len() == 36);
        self.register_session_at(input, generated, now)
    }

    /// Update `last_heartbeat` for the given session.
    pub fn heartbeat(&mut self, session_id: &str) -> (r: Result<HeartbeatResult, SanghaError>)
        requires
            old(self).wf(),
        ensures
            final(self).wf(),
            exists|now: i64| final(self)@ == spec_heartbeat(old(self)@, session_id@, now),
            r matches Ok(h) && {
                &&& h.session_id@ == session_id@
                &&& h.ok == has_session(old(self)@.sessions, session_id@)
                &&& h.ok ==> h.ttl_remaining_ms == old(self)@.session_ttl_ms && h.reason is None
                &&& !h.ok ==> h.ttl_remaining_ms == 0 && opt_view(h.reason) == Some("session not found"@)
            },
    {
        let now = now_ms();
        self.heartbeat_at(session_id, now)
    }

    /// List sessions, optionally filtered by project. Prunes dead sessions
    /// first so the caller always gets a fresh view.
    pub fn list_sessions(&mut self, project: Option<&str>) -> (r: Result<Vec<SessionRow>, SanghaError>)
        requires
            old(self).wf(),
        ensures
            final(self).wf(),
            exists|now: i64| final(self)@ == spec_prune_dead_sessions(old(self)@, now),
            r matches Ok(rows) && session_views(rows@) == sessions_listed(final(self)@.sessions, match project {
                Some(p) => Some(p@),
                None => None,
            }),
    {
        let now = now_ms();
        self.list_sessions_at(project, now)
    }

    /// Attempt to acquire (or renew) a resource lock at the current time.
    pub fn claim_resource(&mut self, input: ClaimInput) -> (r: Result<ClaimResult, SanghaError>)
        requires
            old(self).wf(),
        ensures
            final(self).wf(),
            exists|now: i64| final(self)@ == spec_claim(old(self)@, input@, now)
                && (r matches Ok(res) && claim_result_matches(res, claim_outcome(old(self)@, input@, now))),
    {
        let now = now_ms();
        self.claim_resource_at(input, now)
    }

    /// List locks, optionally filtered by project. Prunes expired locks first.
    pub fn list_locks(&mut self, project: Option<&str>) -> (r: Result<Vec<LockRow>, SanghaError>)
        requires
            old(self).wf(),
        ensures
            final(self).wf(),
            exists|now: i64| final(self)@ == spec_prune_expired_locks(old(self)@, now),
            r matches Ok(rows) && lock_views(rows@) == locks_listed(final(self)@.locks, match project {
                Some(p) => Some(p@),
                None => None,
            }),
    {
        let now = now_ms();
        self.list_locks_at(project, now)
    }

    /// Extend expiry of all locks owned by `session_id` whose remaining TTL
    /// is less than half their total TTL. Returns the count of rows updated.
    pub fn auto_extend_locks(&mut self, session_id: &str) -> (r: Result<usize, SanghaError>)
        requires
            old(self).wf(),
        ensures
            final(self).wf(),
            exists|now: i64| final(self)@ == spec_auto_extend(old(self)@, session_id@, now)
                && (r matches Ok(n) && n == old(self)@.locks.filter(extendable(session_id@, now)).len()),
    {
        let now = now_ms();
        self.auto_extend_locks_at(session_id, now)
    }

    /// Post a message to the inbox. Prunes old messages first.
    pub fn broadcast(&mut self, input: BroadcastInput) -> (r: Result<InboxRow, SanghaError>)
        requires
            old(self).wf(),
        ensures
            final(self).wf(),
            old(self)@.next_message_id < i64::MAX ==> exists|now: i64| {
                &&& final(self)@ == spec_broadcast(old(self)@, input@, now)
                &&& r matches Ok(row) && row@ == broadcast_row(input@, old(self)@.next_message_id, now)
            },
            old(self)@.next_message_id == i64::MAX ==> (exists|now: i64|
                #[trigger] spec_prune_old_inbox(old(self)@, now) == final(self)@)
                && (r matches Err(SanghaError::Db(e)) && e.kind == DbErrorKind::SqliteFailure
                    && e.message@ == "database or disk is full"@),
    {
        let now = now_ms();
        self.broadcast_at(input, now)
    }

    /// Read inbox messages for a project on behalf of `session_id`, marking
    /// the returned ones read.
    pub fn read_inbox(&mut self, input: ReadInboxInput) -> (r: Result<ReadInboxResult, SanghaError>)
        requires
            old(self).wf(),
        ensures
            final(self).wf(),
            exists|now: i64| final(self)@ == spec_read_inbox(old(self)@, input@, now),
            r matches Ok(res) && {
                &&& inbox_views(res.messages@) == inbox_selection(old(self)@, input@)
                &&& res.count == res.messages@.len()
                &&& res.total == old(self)@.inbox.filter(visible_to(input.project@, input.session_id@)).len()
                &&& res.unread_total == old(self)@.inbox.filter(
                    unread_by(input.project@, input.session_id@, old(self)@.reads)).len()
            },
    {
        let now = now_ms();
        self.read_inbox_at(input, now)
    }

    /// Force-release, at time `now`, every lock named `resource` in any
    /// project (after pruning expired locks). Returns how many were released.
    pub fn force_release_everywhere_at(&mut self, resource: &str, now: i64) -> (r: Result<usize, SanghaError>)
        requires
            old(self).wf(),
        ensures
            final(self).wf(),
            final(self)@ == spec_force_release_everywhere(old(self)@, resource@, now),
            r matches Ok(n) && n == spec_prune_expired_locks(old(self)@, now).locks.filter(named(resource@)).len(),
    {
        self.prune_expired_locks_at(now);
        let ghost v = self@;
        let name = lit(resource);
        let ghost p = not_named(resource@);
        let ghost q = named(resource@);
        let mut kept: Vec<LockRow> = Vec::new();
        let mut released: usize = 0;
        let n = self.locks.len();
        let mut i: usize = 0;
        while i < n
            invariant
                v == self@,
                n == self.locks@.len(),
                i <= n,
                name@ == resource@,
                p == not_named(resource@),
                q == named(resource@),
                lock_views(kept@) == v.locks.take(i as int).filter(p),
                released == v.locks.take(i as int).filter(q).len(),
                released <= i,
            decreases n - i,
        {
            proof {
                lemma_filter_step(v.locks, i as int, p);
                lemma_filter_step(v.locks, i as int, q);
            }
            assert(v.locks[i as int] == self.locks@[i as int]@);
            if self.locks[i].resource != name {
                let r = self.locks[i].duplicate();
                let ghost before = kept@;
                kept.push(r);
                assert(lock_views(kept@) =~= lock_views(before).push(r@));
            } else {
                released = released + 1;
            }
            i = i + 1;
        }
        assert(v.locks.take(n as int) =~= v.locks);
        self.locks = kept;
        proof {
            lemma_pairwise_filter(v.locks, lock_rel(), p);
            lemma_filter_all(v.locks, p, |l: LockView| has_session(v.sessions, l.session_id));
        }
        Ok(released)
    }

    /// Force-release every lock named `resource` in any project, at the
    /// current time. Returns how many were released.
    pub fn force_release_everywhere(&mut self, resource: &str) -> (r: Result<usize, SanghaError>)
        requires
            old(self).wf(),
        ensures
            final(self).wf(),
            exists|now: i64| final(self)@ == spec_force_release_everywhere(old(self)@, resource@, now)
                && (r matches Ok(n) && n == spec_prune_expired_locks(old(self)@, now).locks.filter(named(resource@)).len()),
    {
        let now = now_ms();
        self.force_release_everywhere_at(resource, now)
    }

    /// Unregister, at time `now`, every live session (dead ones are pruned
    /// first), and with them all locks. Returns how many live sessions there were.
    pub fn clear_sessions_at(&mut self, now: i64) -> (r: Result<usize, SanghaError>)
        requires
            old(self).wf(),
        ensures
            final(self).wf(),
            final(self)@ == spec_clear_sessions(old(self)@, now),
            r matches Ok(n) && n == spec_prune_dead_sessions(old(self)@, now).sessions.len(),
    {
        self.prune_dead_sessions_at(now);
        let n = self.sessions.len();
        self.sessions = Vec::new();
        self.locks = Vec::new();
        assert(self@.sessions =~= Seq::<SessionView>::empty());
        assert(self@.locks =~= Seq::<LockView>::empty());
        Ok(n)
    }

    /// Unregister every live session, and with them all locks, at the current
    /// time. Returns how many live sessions there were.
    pub fn clear_sessions(&mut self) -> (r: Result<usize, SanghaError>)
        requires
            old(self).wf(),
        ensures
            final(self).wf(),
            exists|now: i64| final(self)@ == spec_clear_sessions(old(self)@, now)
                && (r matches Ok(n) && n == spec_prune_dead_sessions(old(self)@, now).sessions.len()),
    {
        let now = now_ms();
        self.clear_sessions_at(now)
    }

    // -----------------------------------------------------------------------
    // Restoring from and saving to storage
    // -----------------------------------------------------------------------

    fn sessions_ordered(rows: &Vec<SessionRow>) -> (b: bool)
        ensures
            b == pairwise(session_views(rows@), session_rel()),
    {
        let ghost sv = session_views(rows@);
        let n = rows.len();
        let mut i: usize = 0;
        while i < n
            invariant
                n == rows@.len(),
                sv == session_views(rows@),
                i <= n,
                forall|a: int, b: int| 0 <= a < b < n && a < i ==> #[trigger] session_rel()(sv[a], sv[b]),
            decreases n - i,
        {
            let mut j: usize = i + 1;
            while j < n
                invariant
                    n == rows@.len(),
                    sv == session_views(rows@),
                    i < n,
                    i < j <= n,
                    forall|a: int, b: int| 0 <= a < b < n && a < i ==> #[trigger] session_rel()(sv[a], sv[b]),
                    forall|b: int| i < b < j ==> #[trigger] session_rel()(sv[i as int], sv[b]),
                decreases n - j,
            {
                assert(sv[i as int] == rows@[i as int]@ && sv[j as int] == rows@[j as int]@);
                if !(rows[i].started_at <= rows[j].started_at && rows[i].id != rows[j].id) {
                    assert(!session_rel()(sv[i as int], sv[j as int]));
                    return false;
                }
                j = j + 1;
            }
            i = i + 1;
        }
        true
    }

    fn locks_ordered(rows: &Vec<LockRow>) -> (b: bool)
        ensures
            b == pairwise(lock_views(rows@), lock_rel()),
    {
        let ghost lv = lock_views(rows@);
        let n = rows.len();
        let mut i: usize = 0;
        while i < n
            invariant
                n == rows@.len(),
                lv == lock_views(rows@),
                i <= n,
                forall|a: int, b: int| 0 <= a < b < n && a < i ==> #[trigger] lock_rel()(lv[a], lv[b]),
            decreases n - i,
        {
            let mut j: usize = i + 1;
            while j < n
                invariant
                    n == rows@.len(),
                    lv == lock_views(rows@),
                    i < n,
                    i < j <= n,
                    forall|a: int, b: int| 0 <= a < b < n && a < i ==> #[trigger] lock_rel()(lv[a], lv[b]),
                    forall|b: int| i < b < j ==> #[trigger] lock_rel()(lv[i as int], lv[b]),
                decreases n - j,
            {
                assert(lv[i as int] == rows@[i as int]@ && lv[j as int] == rows@[j as int]@);
                let same_key = rows[i].project == rows[j].project && rows[i].resource == rows[j].resource;
                if !(rows[i].acquired_at <= rows[j].acquired_at && !same_key) {
                    assert(!lock_rel()(lv[i as int], lv[j as int]));
                    return false;
                }
                j = j + 1;
            }
            i = i + 1;
        }
        true
    }

    fn inbox_ordered(rows: &Vec<InboxRow>) -> (b: bool)
        ensures
            b == pairwise(inbox_views(rows@), inbox_rel()),
    {
        let ghost iv = inbox_views(rows@);
        let n = rows.len();
        let mut i: usize = 0;
        while i < n
            invariant
                n == rows@.len(),
                iv == inbox_views(rows@),
                i <= n,
                forall|a: int, b: int| 0 <= a < b < n && a < i ==> #[trigger] inbox_rel()(iv[a], iv[b]),
            decreases n - i,
        {
            let mut j: usize = i + 1;
            while j < n
                invariant
                    n == rows@.len(),
                    iv == inbox_views(rows@),
                    i < n,
                    i < j <= n,
                    forall|a: int, b: int| 0 <= a < b < n && a < i ==> #[trigger] inbox_rel()(iv[a], iv[b]),
                    forall|b: int| i < b < j ==> #[trigger] inbox_rel()(iv[i as int], iv[b]),
                decreases n - j,
            {
                assert(iv[i as int] == rows@[i as int]@ && iv[j as int] == rows@[j as int]@);
                let a = &rows[i];
                let b = &rows[j];
                let ordered = a.created_at < b.created_at || (a.created_at == b.created_at && a.id < b.id);
                if !(ordered && a.id != b.id) {
                    assert(!inbox_rel()(iv[i as int], iv[j as int]));
                    return false;
                }
                j = j + 1;
            }
            i = i + 1;
        }
        true
    }

    fn reads_distinct(rows: &Vec<ReadMark>) -> (b: bool)
        ensures
            b == pairwise(read_views(rows@), read_rel()),
    {
        let ghost rv = read_views(rows@);
        let n = rows.len();
        let mut i: usize = 0;
        while i < n
            invariant
                n == rows@.len(),
                rv == read_views(rows@),
                i <= n,
                forall|a: int, b: int| 0 <= a < b < n && a < i ==> #[trigger] read_rel()(rv[a], rv[b]),
            decreases n - i,
        {
            let mut j: usize = i + 1;
            while j < n
                invariant
                    n == rows@.len(),
                    rv == read_views(rows@),
                    i < n,
                    i < j <= n,
                    forall|a: int, b: int| 0 <= a < b < n && a < i ==> #[trigger] read_rel()(rv[a], rv[b]),
                    forall|b: int| i < b < j ==> #[trigger] read_rel()(rv[i as int], rv[b]),
                decreases n - j,
            {
                assert(rv[i as int] == rows@[i as int]@ && rv[j as int] == rows@[j as int]@);
                if rows[i].message_id == rows[j].message_id && rows[i].session_id == rows[j].session_id {
                    assert(!read_rel()(rv[i as int], rv[j as int]));
                    return false;
                }
                j = j + 1;
            }
            i = i + 1;
        }
        true
    }

    /// A store holding these rows, if together they keep the store's
    /// invariant; `None` otherwise.
    #[verifier::loop_isolation(false)]
    pub fn restore(
        config: &Config,
        sessions: Vec<SessionRow>,
        locks: Vec<LockRow>,
        inbox: Vec<InboxRow>,
        reads: Vec<ReadMark>,
        next_message_id: i64,
    ) -> (r: Option<Db>)
        ensures
            ({
                let v = DbView {
                    sessions: session_views(sessions@),
                    locks: lock_views(locks@),
                    inbox: inbox_views(inbox@),
                    reads: read_views(reads@),
                    next_message_id,
                    session_ttl_ms: config.session_ttl_ms,
                    inbox_retention_ms: config.inbox_retention_ms,
                };
                match r {
                    Some(db) => model_wf(v) && db.wf() && db@ == v,
                    None => !model_wf(v),
                }
            }),
    {
        let ghost vp = DbView {
            sessions: session_views(sessions@),
            locks: lock_views(locks@),
            inbox: inbox_views(inbox@),
            reads: read_views(reads@),
            next_message_id,
            session_ttl_ms: config.session_ttl_ms,
            inbox_retention_ms: config.inbox_retention_ms,
        };
        let db = Db {
            sessions,
            locks,
            inbox,
            reads,
            next_message_id,
            session_ttl_ms: config.session_ttl_ms,
            inbox_retention_ms: config.inbox_retention_ms,
        };
        let ghost v = db@;
        assert(v == vp);
        if next_message_id < 1 {
            return None;
        }
        if (db.inbox.len() as u64) >= (next_message_id as u64) {
            return None;
        }
        if !Self::sessions_ordered(&db.sessions) || !Self::locks_ordered(&db.locks)
            || !Self::inbox_ordered(&db.inbox) || !Self::reads_distinct(&db.reads) {
            return None;
        }
        let mut i: usize = 0;
        while i < db.locks.len()
            invariant
                v == db@,
                v == vp,
                next_message_id == db.next_message_id,
                i <= db.locks@.len(),
                forall|k: int| 0 <= k < i ==> has_session(v.sessions, (#[trigger] v.locks[k]).session_id),
            decreases db.locks@.len() - i,
        {
            assert(v.locks[i as int] == db.locks@[i as int]@);
            if !Self::contains_session(&db.sessions, &db.locks[i].session_id) {
                assert(!has_session(v.sessions, v.locks[i as int].session_id));
                assert(!model_wf(v));
                return None;
            }
            i = i + 1;
        }
        let mut j: usize = 0;
        while j < db.inbox.len()
            invariant
                v == db@,
                v == vp,
                next_message_id == db.next_message_id,
                j <= db.inbox@.len(),
                forall|k: int| 0 <= k < j ==> (#[trigger] v.inbox[k]).id < v.next_message_id,
            decreases db.inbox@.len() - j,
        {
            assert(v.inbox[j as int] == db.inbox@[j as int]@);
            if db.inbox[j].id >= next_message_id {
                assert(!(v.inbox[j as int].id < v.next_message_id));
                assert(!model_wf(v));
                return None;
            }
            j = j + 1;
        }
        let mut k: usize = 0;
        while k < db.reads.len()
            invariant
                v == db@,
                v == vp,
                next_message_id == db.next_message_id,
                k <= db.reads@.len(),
                forall|m: int| 0 <= m < k ==> (#[trigger] v.reads[m]).message_id < v.next_message_id,
            decreases db.reads@.len() - k,
        {
            assert(v.reads[k as int] == db.reads@[k as int]@);
            if db.reads[k].message_id >= next_message_id {
                assert(!(v.reads[k as int].message_id < v.next_message_id));
                assert(!model_wf(v));
                return None;
            }
            k = k + 1;
        }
        Some(db)
    }

    /// Copies of all session rows, in listing order.
    pub fn session_rows(&self) -> (r: Vec<SessionRow>)
        ensures
            session_views(r@) == self@.sessions,
    {
        self.sessions_of(None)
    }

    /// Copies of all lock rows, in listing order.
    pub fn lock_rows(&self) -> (r: Vec<LockRow>)
        ensures
            lock_views(r@) == self@.locks,
    {
        self.locks_of(None)
    }

    /// Copies of all messages, oldest first.
    pub fn inbox_rows(&self) -> (r: Vec<InboxRow>)
        ensures
            inbox_views(r@) == self@.inbox,
    {
        let ghost v = self@;
        let n = self.inbox.len();
        let mut out: Vec<InboxRow> = Vec::new();
        let mut i: usize = 0;
        while i < n
            invariant
                v == self@,
                n == self.inbox@.len(),
                i <= n,
                inbox_views(out@) == v.inbox.take(i as int),
            decreases n - i,
        {
            let r = self.inbox[i].duplicate();
            let ghost before = out@;
            out.push(r);
            assert(inbox_views(out@) =~= inbox_views(before).push(r@));
            assert(v.inbox.take(i + 1) =~= v.inbox.take(i as int).push(v.inbox[i as int]));
            i = i + 1;
        }
        assert(v.inbox.take(n as int) =~= v.inbox);
        out
    }

    /// Copies of all read marks.
    pub fn read_marks(&self) -> (r: Vec<ReadMark>)
        ensures
            read_views(r@) == self@.reads,
    {
        let ghost v = self@;
        let n = self.reads.len();
        let mut out: Vec<ReadMark> = Vec::new();
        let mut i: usize = 0;
        while i < n
            invariant
                v == self@,
                n == self.reads@.len(),
                i <= n,
                read_views(out@) == v.reads.take(i as int),
            decreases n - i,
        {
            let r = self.reads[i].duplicate();
            let ghost before = out@;
            out.push(r);
            assert(read_views(out@) =~= read_views(before).push(r@));
            assert(v.reads.take(i + 1) =~= v.reads.take(i as int).push(v.reads[i as int]));
            i = i + 1;
        }
        assert(v.reads.take(n as int) =~= v.reads);
        out
    }

    /// The id the next message will get.
    pub fn next_message_id(&self) -> (r: i64)
        ensures
            r == self@.next_message_id,
    {
        self.next_message_id
    }
}

} // verus!
