//! What holds of the store across operations: mutual exclusion of locks,
//! release undoing a claim, cascades, reads of writes, and read marks.

use vstd::prelude::*;
use crate::db::{DbView, inbox_order, inbox_rel, ClaimRequest, ReleaseRequest, RegisterRequest, ReadRequest, BroadcastRequest, InboxView, SessionView, LockView, ClaimOutcome, model_wf, claim_outcome, spec_claim, spec_prune_expired_locks, unexpired_at, lock_rel, has_lock, lock_index, acquired_key, release_keeps, spec_release, release_status, spec_unregister, other_than, not_held_by, held_by, has_session, session_index, registered_id, spec_register, spec_registered, session_rel, started_key, spec_heartbeat, spec_prune_dead_sessions, alive_since, owned_within, inbox_selection, effective_limit, unread_by, visible_to, has_read, spec_read_inbox, not_read_by, mark_of, spec_broadcast, broadcast_row, spec_prune_old_inbox, created_key, created_since, spec_auto_extend, extended};
use crate::order::{sorted_pos, lemma_pairwise_filter, lemma_filter_all, lemma_filter_identity,
    lemma_filter_insert, lemma_newest_first};
use crate::ttl::half_expired;
use crate::config::Config;
use crate::db::{locks_listed, sessions_listed};
use crate::tools::inbox::{ReadInboxArgs, BroadcastArgs, read_request, broadcast_request, formatted_message};
use crate::tools::locks::{ClaimArgs, ReleaseArgs, claim_request, release_request, claim_rejection, ttl_sec_fits, formatted_lock};
use crate::tools::validate::{Scope, spec_scope};
use crate::error::opt_view;
use crate::tools::presence::{RegisterArgs, register_request, formatted_session, shown_time};

verus! {

broadcast use vstd::seq_lib::group_seq_properties;

/// After a granted claim, the claimed row is among the locks, and it is the
/// only lock at its (project, resource).
pub proof fn lemma_claim_places_row(v: DbView, a: ClaimRequest, t: i64)
    requires
        model_wf(v),
        claim_outcome(v, a, t) is Granted,
    ensures
        ({
            let row = claim_outcome(v, a, t)->Granted_0;
            let v2 = spec_claim(v, a, t);
            &&& v2.locks.contains(row)
            &&& forall|j: int| 0 <= j < v2.locks.len() && (#[trigger] v2.locks[j]).project == a.project
                && v2.locks[j].resource == a.resource ==> v2.locks[j] == row
        }),
{
    let row = claim_outcome(v, a, t)->Granted_0;
    let v1 = spec_prune_expired_locks(v, t);
    let v2 = spec_claim(v, a, t);
    lemma_pairwise_filter(v.locks, lock_rel(), unexpired_at(t as int));
    if has_lock(v1.locks, a.project, a.resource) {
        let i = lock_index(v1.locks, a.project, a.resource);
        assert(v2.locks == v1.locks.update(i, row));
        assert(v2.locks[i] == row);
        assert forall|j: int| 0 <= j < v2.locks.len() && (#[trigger] v2.locks[j]).project == a.project
            && v2.locks[j].resource == a.resource implies v2.locks[j] == row by {
            if j != i {
                if j < i {
                    assert(lock_rel()(v1.locks[j], v1.locks[i]));
                } else {
                    assert(lock_rel()(v1.locks[i], v1.locks[j]));
                }
            }
        }
    } else {
        let pos = sorted_pos(v1.locks, acquired_key(), t as int);
        crate::order::lemma_sorted_pos_bounds(v1.locks, acquired_key(), t as int);
        v1.locks.insert_ensures(pos, row);
        assert(v2.locks[pos] == row);
        assert forall|j: int| 0 <= j < v2.locks.len() && (#[trigger] v2.locks[j]).project == a.project
            && v2.locks[j].resource == a.resource implies v2.locks[j] == row by {
            if j < pos {
                assert(v2.locks[j] == v1.locks[j]);
            } else if j > pos {
                assert(v2.locks[j] == v1.locks[j - 1]);
            }
        }
    }
}

/// Mutual exclusion: once a session's claim is granted, a claim on the same
/// resource by another session is refused until the lock expires, and a
/// claim from a live session is told the holder.
pub proof fn law_claim_excludes_other_sessions(v: DbView, a: ClaimRequest, b: ClaimRequest, t1: i64, t2: i64)
    requires
        model_wf(v),
        claim_outcome(v, a, t1) is Granted,
        b.project == a.project,
        b.resource == a.resource,
        b.session_id != a.session_id,
        a.expires_at >= t2,
    ensures
        !(claim_outcome(spec_claim(v, a, t1), b, t2) is Granted),
        has_session(v.sessions, b.session_id) ==> (claim_outcome(spec_claim(v, a, t1), b, t2) matches
            ClaimOutcome::Held(l) && l.session_id == a.session_id),
{
    let row = claim_outcome(v, a, t1)->Granted_0;
    let v2 = spec_claim(v, a, t1);
    let u1 = spec_prune_expired_locks(v2, t2);
    lemma_claim_places_row(v, a, t1);
    let k = choose|k: int| 0 <= k < v2.locks.len() && v2.locks[k] == row;
    assert(unexpired_at(t2 as int)(v2.locks[k]));
    v2.locks.lemma_filter_contains(unexpired_at(t2 as int), k);
    let m = choose|m: int| 0 <= m < u1.locks.len() && u1.locks[m] == row;
    assert(u1.locks[m].project == b.project && u1.locks[m].resource == b.resource);
    assert(has_lock(u1.locks, b.project, b.resource));
    let j = lock_index(u1.locks, b.project, b.resource);
    assert(u1.locks.contains(u1.locks[j]));
    v2.locks.lemma_filter_contains_rev(unexpired_at(t2 as int), u1.locks[j]);
    let q = choose|q: int| 0 <= q < v2.locks.len() && v2.locks[q] == u1.locks[j];
    assert(v2.locks[q] == row);
    assert(u1.sessions == v.sessions);
}

/// Releasing a freshly claimed lock as its holder puts the locks back as
/// they were before the claim (after the claim's pruning of expired locks).
pub proof fn law_release_undoes_claim(v: DbView, a: ClaimRequest, rel: ReleaseRequest, t: i64)
    requires
        model_wf(v),
        claim_outcome(v, a, t) is Granted,
        !has_lock(spec_prune_expired_locks(v, t).locks, a.project, a.resource),
        rel.project == a.project,
        rel.resource == a.resource,
        rel.session_id == a.session_id,
        !rel.force,
    ensures
        spec_release(spec_claim(v, a, t), rel) == spec_prune_expired_locks(v, t),
        release_status(spec_claim(v, a, t), rel) == "released"@,
{
    let row = claim_outcome(v, a, t)->Granted_0;
    let v1 = spec_prune_expired_locks(v, t);
    let v2 = spec_claim(v, a, t);
    let p = release_keeps(rel);
    let pos = sorted_pos(v1.locks, acquired_key(), t as int);
    crate::order::lemma_sorted_pos_bounds(v1.locks, acquired_key(), t as int);
    assert(v2.locks == v1.locks.insert(pos, row));
    assert(!p(row));
    lemma_filter_insert(v1.locks, pos, row, p);
    assert forall|i: int| 0 <= i < v1.locks.len() implies p(#[trigger] v1.locks[i]) by {
        assert(!(v1.locks[i].project == a.project && v1.locks[i].resource == a.resource));
    }
    lemma_filter_identity(v1.locks, p);
    assert(spec_release(v2, rel).locks =~= v1.locks);
    lemma_claim_places_row(v, a, t);
    let k = choose|k: int| 0 <= k < v2.locks.len() && v2.locks[k] == row;
    assert(has_lock(v2.locks, rel.project, rel.resource));
    let i = lock_index(v2.locks, rel.project, rel.resource);
    assert(v2.locks[i] == row);
}

/// Renewal: while a session holds a lock, its claim on the same resource
/// again is granted and keeps the first claim's `acquired_at`.
pub proof fn law_renewal_keeps_acquired_at(v: DbView, a: ClaimRequest, b: ClaimRequest, t1: i64, t2: i64)
    requires
        model_wf(v),
        claim_outcome(v, a, t1) is Granted,
        b.project == a.project,
        b.resource == a.resource,
        b.session_id == a.session_id,
        a.expires_at >= t2,
    ensures
        claim_outcome(spec_claim(v, a, t1), b, t2) matches ClaimOutcome::Granted(l)
            && l.acquired_at == (claim_outcome(v, a, t1)->Granted_0).acquired_at,
{
    let row = claim_outcome(v, a, t1)->Granted_0;
    let v2 = spec_claim(v, a, t1);
    let u1 = spec_prune_expired_locks(v2, t2);
    lemma_claim_places_row(v, a, t1);
    let k = choose|k: int| 0 <= k < v2.locks.len() && v2.locks[k] == row;
    assert(unexpired_at(t2 as int)(v2.locks[k]));
    v2.locks.lemma_filter_contains(unexpired_at(t2 as int), k);
    let m = choose|m: int| 0 <= m < u1.locks.len() && u1.locks[m] == row;
    assert(u1.locks[m].project == b.project && u1.locks[m].resource == b.resource);
    assert(has_lock(u1.locks, b.project, b.resource));
    let j = lock_index(u1.locks, b.project, b.resource);
    assert(u1.locks.contains(u1.locks[j]));
    v2.locks.lemma_filter_contains_rev(unexpired_at(t2 as int), u1.locks[j]);
    let q = choose|q: int| 0 <= q < v2.locks.len() && v2.locks[q] == u1.locks[j];
    assert(v2.locks[q] == row);
    let v1 = spec_prune_expired_locks(v, t1);
    assert(has_session(v1.sessions, a.session_id));
    assert(u1.sessions == v.sessions);
}

/// Only a lock on the same resource of the same project, held by another
/// session, refuses a claim.
pub proof fn law_only_same_key_blocks(v: DbView, b: ClaimRequest, t: i64)
    ensures
        claim_outcome(v, b, t) matches ClaimOutcome::Held(l) ==> {
            &&& l.project == b.project
            &&& l.resource == b.resource
            &&& l.session_id != b.session_id
            &&& l.expires_at >= t
        },
{
    let v1 = spec_prune_expired_locks(v, t);
    if has_session(v1.sessions, b.session_id) && has_lock(v1.locks, b.project, b.resource) {
        let j = lock_index(v1.locks, b.project, b.resource);
        assert(v1.locks.contains(v1.locks[j]));
        v.locks.lemma_filter_contains_rev(unexpired_at(t as int), v1.locks[j]);
    }
}

/// A release that is not forced, by a session that does not hold the lock,
/// changes nothing and reports "not_owner".
pub proof fn law_release_by_non_owner_changes_nothing(v: DbView, rel: ReleaseRequest)
    requires
        model_wf(v),
        !rel.force,
        has_lock(v.locks, rel.project, rel.resource),
        v.locks[lock_index(v.locks, rel.project, rel.resource)].session_id != rel.session_id,
    ensures
        spec_release(v, rel) == v,
        release_status(v, rel) == "not_owner"@,
{
    let p = release_keeps(rel);
    let k = lock_index(v.locks, rel.project, rel.resource);
    assert forall|i: int| 0 <= i < v.locks.len() implies p(#[trigger] v.locks[i]) by {
        if i != k {
            if i < k {
                assert(lock_rel()(v.locks[i], v.locks[k]));
            } else {
                assert(lock_rel()(v.locks[k], v.locks[i]));
            }
        }
    }
    lemma_filter_identity(v.locks, p);
    assert(spec_release(v, rel) =~= v);
}

/// Unregistering a session removes it and every lock it held.
pub proof fn law_unregister_releases_all_locks(v: DbView, id: Seq<char>)
    requires
        model_wf(v),
    ensures
        !has_session(spec_unregister(v, id).sessions, id),
        forall|i: int| 0 <= i < spec_unregister(v, id).locks.len()
            ==> (#[trigger] spec_unregister(v, id).locks[i]).session_id != id,
        spec_unregister(v, id).locks.len() == v.locks.len() - v.locks.filter(held_by(id)).len(),
{
    lemma_filter_all(v.sessions, other_than(id), |s: SessionView| true);
    lemma_filter_all(v.locks, not_held_by(id), |l: LockView| true);
    crate::order::lemma_filter_complement(v.locks, not_held_by(id), held_by(id));
}

/// A registered session is found again, as the row the registration
/// returned.
pub proof fn law_registered_session_is_found(v: DbView, input: RegisterRequest, generated: Seq<char>, now: i64)
    requires
        model_wf(v),
    ensures
        ({
            let id = registered_id(input, generated);
            let v2 = spec_register(v, input, generated, now);
            &&& has_session(v2.sessions, id)
            &&& v2.sessions[session_index(v2.sessions, id)] == spec_registered(v, input, generated, now)
        }),
{
    let id = registered_id(input, generated);
    let v2 = spec_register(v, input, generated, now);
    let row = spec_registered(v, input, generated, now);
    if has_session(v.sessions, id) {
        let i = session_index(v.sessions, id);
        assert(v2.sessions[i] == row);
        assert(has_session(v2.sessions, id));
        let j = session_index(v2.sessions, id);
        if j != i {
            if j < i {
                assert(session_rel()(v.sessions[j], v.sessions[i]));
            } else {
                assert(session_rel()(v.sessions[i], v.sessions[j]));
            }
        }
    } else {
        let pos = sorted_pos(v.sessions, started_key(), now as int);
        crate::order::lemma_sorted_pos_bounds(v.sessions, started_key(), now as int);
        v.sessions.insert_ensures(pos, row);
        assert(v2.sessions[pos] == row);
        assert(has_session(v2.sessions, id));
        let j = session_index(v2.sessions, id);
        if j < pos {
            assert(v2.sessions[j] == v.sessions[j]);
        } else if j > pos {
            assert(v2.sessions[j] == v.sessions[j - 1]);
        }
    }
}

/// Re-registering a known session keeps its `started_at`.
pub proof fn law_reregister_keeps_started_at(v: DbView, input: RegisterRequest, generated: Seq<char>, now: i64)
    requires
        model_wf(v),
        has_session(v.sessions, registered_id(input, generated)),
    ensures
        spec_registered(v, input, generated, now).started_at
            == v.sessions[session_index(v.sessions, registered_id(input, generated))].started_at,
        spec_registered(v, input, generated, now).last_heartbeat == now,
{
}

/// A session that has just sent a heartbeat survives pruning at the same
/// time (for a non-negative session TTL).
pub proof fn law_heartbeat_keeps_session_alive(v: DbView, id: Seq<char>, now: i64)
    requires
        model_wf(v),
        has_session(v.sessions, id),
        v.session_ttl_ms >= 0,
    ensures
        has_session(spec_prune_dead_sessions(spec_heartbeat(v, id, now), now).sessions, id),
{
    let v2 = spec_heartbeat(v, id, now);
    let i = session_index(v.sessions, id);
    assert(v2.sessions[i].id == id && v2.sessions[i].last_heartbeat == now);
    assert(alive_since(now - v2.session_ttl_ms)(v2.sessions[i]));
    v2.sessions.lemma_filter_contains(alive_since(now - v2.session_ttl_ms), i);
    let s = spec_prune_dead_sessions(v2, now).sessions;
    let k = choose|k: int| 0 <= k < s.len() && s[k] == v2.sessions[i];
    assert(s[k].id == id);
}

/// Pruning dead sessions keeps exactly the live ones, and no lock outlives
/// its session.
pub proof fn law_prune_keeps_exactly_live_sessions(v: DbView, now: i64)
    requires
        model_wf(v),
    ensures
        ({
            let v2 = spec_prune_dead_sessions(v, now);
            &&& forall|i: int| 0 <= i < v.sessions.len() && (#[trigger] v.sessions[i]).last_heartbeat >= now - v.session_ttl_ms
                ==> v2.sessions.contains(v.sessions[i])
            &&& forall|j: int| 0 <= j < v2.sessions.len()
                ==> (#[trigger] v2.sessions[j]).last_heartbeat >= now - v.session_ttl_ms && v.sessions.contains(v2.sessions[j])
            &&& forall|j: int| 0 <= j < v2.locks.len() ==> has_session(v2.sessions, (#[trigger] v2.locks[j]).session_id)
        }),
{
    let p = alive_since(now - v.session_ttl_ms);
    let v2 = spec_prune_dead_sessions(v, now);
    assert forall|i: int| 0 <= i < v.sessions.len() && (#[trigger] v.sessions[i]).last_heartbeat >= now - v.session_ttl_ms
        implies v2.sessions.contains(v.sessions[i]) by {
        v.sessions.lemma_filter_contains(p, i);
    }
    assert forall|j: int| 0 <= j < v2.sessions.len()
        implies (#[trigger] v2.sessions[j]).last_heartbeat >= now - v.session_ttl_ms && v.sessions.contains(v2.sessions[j]) by {
        lemma_filter_all(v.sessions, p, |s: SessionView| true);
        assert(v2.sessions.contains(v2.sessions[j]));
        v.sessions.lemma_filter_contains_rev(p, v2.sessions[j]);
    }
    lemma_filter_all(v.locks, owned_within(v2.sessions), |l: LockView| true);
}

/// What a read returns: messages of the project, none of the reader's own,
/// only unread ones when asked, at most the limit (which lies in 1..=1000),
/// no more than the counts report, and newest first (by creation time, then
/// by id).
pub proof fn law_read_inbox_selection(v: DbView, input: ReadRequest)
    requires
        model_wf(v),
    ensures
        ({
            let sel = inbox_selection(v, input);
            let p = input.project;
            let s = input.session_id;
            &&& 1 <= effective_limit(input.limit) <= 1000
            &&& sel.len() <= effective_limit(input.limit)
            &&& forall|i: int| 0 <= i < sel.len() ==> (#[trigger] sel[i]).project == p
                && sel[i].from_session != s && v.inbox.contains(sel[i])
            &&& input.unread_only ==> forall|i: int| 0 <= i < sel.len() ==> !has_read(v.reads, s, (#[trigger] sel[i]).id)
            &&& input.unread_only ==> sel.len() <= v.inbox.filter(unread_by(p, s, v.reads)).len()
            &&& !input.unread_only ==> sel.len() <= v.inbox.filter(visible_to(p, s)).len()
            &&& forall|i: int, j: int| 0 <= i < j < sel.len()
                ==> #[trigger] inbox_order(sel[j], sel[i])
        }),
{
    let p = if input.unread_only {
        unread_by(input.project, input.session_id, v.reads)
    } else {
        visible_to(input.project, input.session_id)
    };
    lemma_newest_first(v.inbox, p, effective_limit(input.limit) as nat);
    crate::order::lemma_newest_first_pairwise(v.inbox, p, effective_limit(input.limit) as nat, inbox_rel());
    let sel = inbox_selection(v, input);
    assert forall|i: int, j: int| 0 <= i < j < sel.len() implies #[trigger] inbox_order(sel[j], sel[i]) by {
        assert(inbox_rel()(sel[j], sel[i]));
    }
}

/// Reading unread messages marks them: a second unread read returns none
/// of the messages the first one returned.
pub proof fn law_read_marks_returned_messages(v: DbView, input: ReadRequest, now: i64)
    requires
        model_wf(v),
        input.unread_only,
    ensures
        forall|m: InboxView| inbox_selection(spec_read_inbox(v, input, now), input).contains(m)
            ==> !inbox_selection(v, input).contains(m),
{
    let v2 = spec_read_inbox(v, input, now);
    let sel1 = inbox_selection(v, input);
    let sel2 = inbox_selection(v2, input);
    let s = input.session_id;
    let q = not_read_by(s, v.reads);
    let f = mark_of(s, now);
    let added = sel1.filter(q).map_values(f);
    assert(v2.reads == v.reads + added);
    lemma_newest_first(v2.inbox, unread_by(input.project, s, v2.reads), effective_limit(input.limit) as nat);
    assert forall|m: InboxView| sel2.contains(m) implies !sel1.contains(m) by {
        let i = choose|i: int| 0 <= i < sel2.len() && sel2[i] == m;
        assert(unread_by(input.project, s, v2.reads)(sel2[i]));
        assert(!has_read(v2.reads, s, m.id));
        if sel1.contains(m) {
            let j = choose|j: int| 0 <= j < sel1.len() && sel1[j] == m;
            if has_read(v.reads, s, m.id) {
                let r = choose|r: int| 0 <= r < v.reads.len() && (#[trigger] v.reads[r]).session_id == s && v.reads[r].message_id == m.id;
                assert(v2.reads[r] == v.reads[r]);
            } else {
                assert(q(sel1[j]));
                sel1.lemma_filter_contains(q, j);
                let k = choose|k: int| 0 <= k < sel1.filter(q).len() && sel1.filter(q)[k] == m;
                assert(v2.reads[v.reads.len() + k] == f(m));
            }
        }
    }
}

/// A broadcast reaches the other sessions of its project: the new message is
/// stored, and unread for every session other than the sender.
pub proof fn law_broadcast_is_unread_by_others(v: DbView, input: BroadcastRequest, now: i64, reader: Seq<char>)
    requires
        model_wf(v),
        v.next_message_id < i64::MAX,
        reader != input.from_session,
    ensures
        spec_broadcast(v, input, now).inbox.contains(broadcast_row(input, v.next_message_id, now)),
        unread_by(input.project, reader, spec_broadcast(v, input, now).reads)(broadcast_row(input, v.next_message_id, now)),
{
    let v1 = spec_prune_old_inbox(v, now);
    let row = broadcast_row(input, v.next_message_id, now);
    let pos = sorted_pos(v1.inbox, created_key(), now as int);
    crate::order::lemma_sorted_pos_bounds(v1.inbox, created_key(), now as int);
    v1.inbox.insert_ensures(pos, row);
    assert(spec_broadcast(v, input, now).inbox[pos] == row);
    assert forall|i: int| 0 <= i < v.reads.len() implies !((#[trigger] v.reads[i]).session_id == reader
        && v.reads[i].message_id == v.next_message_id) by {
        assert(v.reads[i].message_id < v.next_message_id);
    }
}

/// Message ids are never reused: a broadcast's id is above the id of every
/// message stored before it and of every read mark, and the next id moves
/// past it.
pub proof fn law_message_ids_are_fresh(v: DbView, input: BroadcastRequest, now: i64)
    requires
        model_wf(v),
        v.next_message_id < i64::MAX,
    ensures
        forall|i: int| 0 <= i < v.inbox.len() ==> (#[trigger] v.inbox[i]).id < v.next_message_id,
        forall|i: int| 0 <= i < v.reads.len() ==> (#[trigger] v.reads[i]).message_id < v.next_message_id,
        spec_broadcast(v, input, now).next_message_id == v.next_message_id + 1,
        forall|i: int| 0 <= i < spec_broadcast(v, input, now).inbox.len()
            ==> (#[trigger] spec_broadcast(v, input, now).inbox[i]).id <= v.next_message_id,
{
    let v1 = spec_prune_old_inbox(v, now);
    let v2 = spec_broadcast(v, input, now);
    let row = broadcast_row(input, v.next_message_id, now);
    let pos = sorted_pos(v1.inbox, created_key(), now as int);
    crate::order::lemma_sorted_pos_bounds(v1.inbox, created_key(), now as int);
    v1.inbox.insert_ensures(pos, row);
    assert forall|i: int| 0 <= i < v2.inbox.len() implies (#[trigger] v2.inbox[i]).id <= v.next_message_id by {
        if i != pos {
            let m = if i < pos { v1.inbox[i] } else { v1.inbox[i - 1] };
            assert(v2.inbox[i] == m);
            assert(v1.inbox.contains(m));
            v.inbox.lemma_filter_contains_rev(created_since(now - v.inbox_retention_ms), m);
        }
    }
}

/// After auto-extension, no lock of the session is past half-life any more
/// (for a non-negative TTL whose full renewal fits in an `i64`).
pub proof fn law_auto_extend_renews_half_expired(v: DbView, id: Seq<char>, now: i64)
    ensures
        forall|i: int| 0 <= i < spec_auto_extend(v, id, now).locks.len() ==> {
            let l = #[trigger] spec_auto_extend(v, id, now).locks[i];
            (l.session_id == id && l.ttl_ms >= 0 && now + l.ttl_ms <= i64::MAX)
                ==> !half_expired(l.expires_at as int, l.ttl_ms as int, now as int)
        },
{
    assert forall|i: int| 0 <= i < spec_auto_extend(v, id, now).locks.len() implies {
        let l = #[trigger] spec_auto_extend(v, id, now).locks[i];
        (l.session_id == id && l.ttl_ms >= 0 && now + l.ttl_ms <= i64::MAX)
            ==> !half_expired(l.expires_at as int, l.ttl_ms as int, now as int)
    } by {
        let o = v.locks[i];
        assert(spec_auto_extend(v, id, now).locks[i] == extended(o, id, now));
    }
}

/// A valid claim that asks for `ttl_sec` seconds gets exactly that TTL: the
/// lock it writes (and returns, when granted) has `ttl_ms == ttl_sec * 1000`
/// and expires that long after the claim.
pub proof fn law_claim_uses_requested_ttl(v: DbView, args: ClaimArgs, config: Config, session_id: Seq<char>,
    session_project: Seq<char>, now: i64)
    requires
        args.ttl_sec is Some,
        ttl_sec_fits(args.ttl_sec),
        claim_rejection(args, config.lock_max_ttl_ms) is None,
    ensures
        ({
            let s = args.ttl_sec->Some_0;
            let req = claim_request(v, args, config, session_id, session_project, now);
            &&& 0 < s * 1000 <= config.lock_max_ttl_ms
            &&& req.ttl_ms == s * 1000
            &&& now + s * 1000 <= i64::MAX ==> req.expires_at == now + s * 1000
            &&& claim_outcome(v, req, now) matches ClaimOutcome::Granted(l)
                ==> l.ttl_ms == s * 1000 && l.expires_at == req.expires_at
        }),
{
}

/// A valid claim that names no TTL gets the configured default of its kind:
/// the long-operation TTL when `long_op` is set, else the default lock TTL.
pub proof fn law_claim_default_ttl(v: DbView, args: ClaimArgs, config: Config, session_id: Seq<char>,
    session_project: Seq<char>, now: i64)
    requires
        args.ttl_sec is None,
    ensures
        ({
            let req = claim_request(v, args, config, session_id, session_project, now);
            &&& args.long_op == Some(true) ==> req.ttl_ms == config.lock_long_op_ttl_ms
            &&& args.long_op != Some(true) ==> req.ttl_ms == config.lock_default_ttl_ms
        }),
{
}

/// A read that leaves `unread_only` out reads unread messages only: it
/// returns nothing the reader has read, and a second such read returns none
/// of the messages the first one returned.
pub proof fn law_read_defaults_to_unread(v: DbView, args: ReadInboxArgs, session_id: Seq<char>,
    session_project: Seq<char>, now: i64)
    requires
        model_wf(v),
        args.unread_only is None,
    ensures
        ({
            let req = read_request(args, session_id, session_project);
            let first = inbox_selection(v, req);
            let second = inbox_selection(spec_read_inbox(v, req, now), req);
            &&& forall|i: int| 0 <= i < first.len() ==> !has_read(v.reads, session_id, (#[trigger] first[i]).id)
            &&& forall|m: InboxView| second.contains(m) ==> !first.contains(m)
        }),
{
    let req = read_request(args, session_id, session_project);
    law_read_inbox_selection(v, req);
    law_read_marks_returned_messages(v, req, now);
}

/// A registration stores what it was given: the session's row afterwards
/// has the project, branch, intent and metadata passed in.
pub proof fn law_register_stores_arguments(v: DbView, session_id: Option<Seq<char>>, args: RegisterArgs,
    generated: Seq<char>, now: i64)
    requires
        model_wf(v),
    ensures
        ({
            let req = register_request(session_id, args);
            let id = registered_id(req, generated);
            let v2 = spec_register(v, req, generated, now);
            let row = v2.sessions[session_index(v2.sessions, id)];
            &&& has_session(v2.sessions, id)
            &&& row.project == args.project@
            &&& (args.metadata matches Some(m) ==> row.metadata == Some(m@))
            &&& (args.metadata is None ==> row.metadata is None)
            &&& (args.branch matches Some(b) ==> row.branch == Some(b@))
            &&& (args.intent matches Some(t) ==> row.intent == Some(t@))
            &&& formatted_session()(row).metadata == row.metadata
        }),
{
    law_registered_session_is_found(v, register_request(session_id, args), generated, now);
}

/// A lock listing for project `p` at `now` returns exactly the unexpired
/// locks of `p`: each returned lock is a lock of the store, of project `p`,
/// not expired; and every such lock is returned.
pub proof fn law_lock_listing_is_the_project(v: DbView, p: Seq<char>, now: i64)
    ensures
        ({
            let listed = locks_listed(spec_prune_expired_locks(v, now).locks, Some(p));
            &&& forall|i: int| 0 <= i < listed.len() ==> {
                &&& (#[trigger] listed[i]).project == p
                &&& listed[i].expires_at >= now
                &&& v.locks.contains(listed[i])
            }
            &&& forall|i: int| 0 <= i < v.locks.len() && (#[trigger] v.locks[i]).project == p
                && v.locks[i].expires_at >= now ==> listed.contains(v.locks[i])
        }),
{
    let u = spec_prune_expired_locks(v, now).locks;
    let pr = crate::db::lock_in(p);
    let listed = locks_listed(u, Some(p));
    assert forall|i: int| 0 <= i < listed.len() implies {
        &&& (#[trigger] listed[i]).project == p
        &&& listed[i].expires_at >= now
        &&& v.locks.contains(listed[i])
    } by {
        assert(listed.contains(listed[i]));
        u.lemma_filter_contains_rev(pr, listed[i]);
        v.locks.lemma_filter_contains_rev(unexpired_at(now as int), listed[i]);
    }
    assert forall|i: int| 0 <= i < v.locks.len() && (#[trigger] v.locks[i]).project == p
        && v.locks[i].expires_at >= now implies listed.contains(v.locks[i]) by {
        v.locks.lemma_filter_contains(unexpired_at(now as int), i);
        let k = choose|k: int| 0 <= k < u.len() && u[k] == v.locks[i];
        u.lemma_filter_contains(pr, k);
    }
}

/// A session listing for project `p` returns exactly the sessions of `p`.
pub proof fn law_session_listing_is_the_project(sessions: Seq<SessionView>, p: Seq<char>)
    ensures
        ({
            let listed = sessions_listed(sessions, Some(p));
            &&& forall|i: int| 0 <= i < listed.len()
                ==> (#[trigger] listed[i]).project == p && sessions.contains(listed[i])
            &&& forall|i: int| 0 <= i < sessions.len() && (#[trigger] sessions[i]).project == p
                ==> listed.contains(sessions[i])
        }),
{
    let pr = crate::db::session_in(p);
    let listed = sessions_listed(sessions, Some(p));
    assert forall|i: int| 0 <= i < listed.len()
        implies (#[trigger] listed[i]).project == p && sessions.contains(listed[i]) by {
        assert(listed.contains(listed[i]));
        sessions.lemma_filter_contains_rev(pr, listed[i]);
    }
    assert forall|i: int| 0 <= i < sessions.len() && (#[trigger] sessions[i]).project == p
        implies listed.contains(sessions[i]) by {
        sessions.lemma_filter_contains(pr, i);
    }
}

/// Listings show each timestamp as the rendering of its own field: a
/// session's start and last heartbeat, a lock's acquisition and expiry, a
/// message's creation.
pub proof fn law_listed_times_are_their_own(s: SessionView, l: LockView, m: InboxView)
    ensures
        formatted_session()(s).started_at == shown_time(s.started_at),
        formatted_session()(s).last_heartbeat == shown_time(s.last_heartbeat),
        formatted_lock()(l).acquired_at == shown_time(l.acquired_at),
        formatted_lock()(l).expires_at == shown_time(l.expires_at),
        formatted_message()(m).created_at == shown_time(m.created_at),
{
}

/// The project a tool acts in: the user-scope sentinel `__user__` when the
/// scope says "user" (in any case), else the caller's own project.
pub open spec fn acting_project(scope: Option<String>, session_project: Seq<char>) -> Seq<char> {
    if spec_scope(opt_view(scope)) == Some(Scope::User) {
        "__user__"@
    } else {
        session_project
    }
}

/// A claim, a release, a broadcast and a read act for the calling session,
/// on the resource or message given, in the project the scope selects.
pub proof fn law_requests_carry_the_call(v: DbView, session_id: Seq<char>, session_project: Seq<char>,
    claim: ClaimArgs, config: Config, now: i64, release: ReleaseArgs, post: BroadcastArgs, read: ReadInboxArgs)
    ensures
        spec_scope(opt_view(claim.scope)) is Some ==> {
            let c = claim_request(v, claim, config, session_id, session_project, now);
            &&& c.resource == claim.resource@
            &&& c.session_id == session_id
            &&& c.project == acting_project(claim.scope, session_project)
            &&& c.reason == opt_view(claim.reason)
            &&& c.long_op == (claim.long_op == Some(true))
        },
        spec_scope(opt_view(release.scope)) is Some ==> {
            let r = release_request(release, session_id, session_project);
            &&& r.resource == release.resource@
            &&& r.session_id == session_id
            &&& r.project == acting_project(release.scope, session_project)
            &&& r.force == (release.force == Some(true))
        },
        spec_scope(opt_view(post.scope)) is Some ==> {
            let b = broadcast_request(v, post, session_id, session_project);
            &&& b.message == post.message@
            &&& b.from_session == session_id
            &&& b.project == acting_project(post.scope, session_project)
        },
        spec_scope(opt_view(read.scope)) is Some ==> {
            let q = read_request(read, session_id, session_project);
            &&& q.session_id == session_id
            &&& q.project == acting_project(read.scope, session_project)
            &&& q.unread_only == (read.unread_only != Some(false))
            &&& q.limit == read.limit
        },
{
}

/// A read returns at most 100 messages by default, and a requested limit
/// brought into 1..=1000.
pub proof fn law_read_limit(n: i64)
    ensures
        effective_limit(None) == 100,
        1 <= n <= 1000 ==> effective_limit(Some(n)) == n,
        n < 1 ==> effective_limit(Some(n)) == 1,
        n > 1000 ==> effective_limit(Some(n)) == 1000,
{
}

/// A heartbeat moves only the session's `last_heartbeat`, to `now`; the
/// other sessions, and the session's other fields, stay as they were.
pub proof fn law_heartbeat_moves_only_last_heartbeat(v: DbView, id: Seq<char>, now: i64)
    requires
        has_session(v.sessions, id),
    ensures
        ({
            let v2 = spec_heartbeat(v, id, now);
            let i = session_index(v.sessions, id);
            &&& v2.sessions.len() == v.sessions.len()
            &&& v2.sessions[i].last_heartbeat == now
            &&& v2.sessions[i].id == id
            &&& v2.sessions[i].started_at == v.sessions[i].started_at
            &&& v2.sessions[i].project == v.sessions[i].project
            &&& forall|j: int| 0 <= j < v.sessions.len() && j != i ==> #[trigger] v2.sessions[j] == v.sessions[j]
            &&& v2.locks == v.locks
        }),
{
}

} // verus!
