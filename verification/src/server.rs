//! One client connection of the coordination service: the identity it binds
//! with its first registration, and the tools it calls against the shared
//! store. Every tool but registration and the listings needs a bound
//! identity, and acts as the bound session in the bound project.

use vstd::prelude::*;
use crate::config::Config;
use crate::db::{Db, spec_register, registered_id, spec_prune_dead_sessions, spec_heartbeat, spec_auto_extend,
    spec_unregister, has_session, session_in, other_than, spec_claim, claim_outcome, spec_release,
    release_removes, release_status, spec_prune_expired_locks, locks_listed, spec_broadcast, spec_read_inbox,
    inbox_selection, visible_to, unread_by, spec_prune_old_inbox};
use crate::error::{SanghaError, DbErrorKind, is_identity_error, opt_view, lit};
use crate::tools::validate::scope_error;
use crate::identity::{Identity, spec_bind, bind_accepted, unbound_message, unbound_next_action, rebind_next_action};
use crate::tools::inbox;
use crate::tools::locks;
use crate::tools::presence;
use crate::tools::presence::{RegisterArgs, register_rejection, register_request, summary_views, summary_of};
use crate::ttl::thousandths_toward_zero;

verus! {

/// The arguments of a tool that takes none.
#[derive(Debug)]
pub struct EmptyArgs {}

/// The state of one connection: the session identity it has bound, if any.
#[derive(Debug)]
pub struct SanghaServer {
    identity: Identity,
}

impl View for SanghaServer {
    type V = Option<(Seq<char>, Seq<char>)>;

    closed spec fn view(&self) -> Option<(Seq<char>, Seq<char>)> {
        self.identity@
    }
}

/// The session a binding names, if any.
pub open spec fn bound_session(b: Option<(Seq<char>, Seq<char>)>) -> Option<Seq<char>> {
    match b {
        Some((s, _)) => Some(s),
        None => None,
    }
}

/// `r` is the error a tool answers on a connection with no bound session.
pub open spec fn refused_unbound<T>(r: Result<T, SanghaError>) -> bool {
    r matches Err(e) && is_identity_error(e, "identity", unbound_message(), unbound_next_action())
}

fn opt_as_str(o: &Option<String>) -> (r: Option<&str>)
    ensures
        crate::error::opt_str_view(r) == opt_view(*o),
{
    match o {
        Some(s) => Some(s.as_str()),
        None => None,
    }
}

impl SanghaServer {
    /// A fresh connection, bound to no session.
    pub fn new() -> (s: SanghaServer)
        ensures
            s@ is None,
    {
        SanghaServer { identity: Identity::new() }
    }

    /// Register (or re-register) the connection's session, then bind the
    /// connection to it. A bound connection re-registers its own session;
    /// registering it under another project is refused after the store
    /// has been updated, as the binding never changes.
    pub fn session_register(&mut self, db: &mut Db, args: RegisterArgs) -> (r: Result<presence::RegisterOutput, SanghaError>)
        requires
            old(db).wf(),
        ensures
            final(db).wf(),
            match register_rejection(args) {
                Some(_) => {
                    &&& final(db)@ == old(db)@
                    &&& final(self)@ == old(self)@
                    &&& r matches Err(e) && presence::register_error(args, e)
                },
                None => exists|generated: Seq<char>, t1: i64, t2: i64|
                    #![trigger spec_prune_dead_sessions(spec_register(old(db)@, register_request(bound_session(old(self)@), args), generated, t1), t2)]
                {
                    let req = register_request(bound_session(old(self)@), args);
                    let id = registered_id(req, generated);
                    &&& final(db)@ == spec_prune_dead_sessions(spec_register(old(db)@, req, generated, t1), t2)
                    &&& old(self)@ is None ==> generated.len() == 36
                    &&& final(self)@ == spec_bind(old(self)@, id, args.project@)
                    &&& (r is Ok <==> bind_accepted(old(self)@, id, args.project@))
                    &&& r matches Err(e) ==> (old(self)@ matches Some((s, p)) && is_identity_error(e, "session_register",
                        "connection already bound to project "@ + p + ", cannot rebind to "@ + args.project@,
                        rebind_next_action()))
                    &&& r matches Ok(out) ==> out.session_id@ == id
                        && summary_views(out.others@) == final(db)@.sessions.filter(session_in(args.project@))
                            .filter(other_than(id)).map_values(summary_of())
                },
            },
    {
        let existing: Option<String> = match self.identity.session_id() {
            Ok(s) => Some(lit(s)),
            Err(_) => None,
        };
        assert(opt_view(existing) == bound_session(self@));
        let project = args.project.clone();
        let ghost a = args;
        let ghost before = db@;
        let out = match presence::handle_register(db, opt_as_str(&existing), args) {
            Ok(o) => o,
            Err(e) => return Err(e),
        };
        let ghost req = register_request(bound_session(old(self)@), a);
        let ghost (generated, t1, t2) = choose|generated: Seq<char>, t1: i64, t2: i64| {
            &&& db@ == spec_prune_dead_sessions(spec_register(before, req, generated, t1), t2)
            &&& out.session_id@ == registered_id(req, generated)
            &&& (bound_session(old(self)@) is None ==> generated.len() == 36)
            &&& summary_views(out.others@) == db@.sessions.filter(session_in(a.project@))
                .filter(other_than(out.session_id@)).map_values(summary_of())
        };
        let id = out.session_id.clone();
        match self.identity.bind(id, project) {
            Ok(()) => Ok(out),
            Err(e) => Err(e),
        }
    }

    /// Heartbeat the bound session and auto-extend its locks past half-life.
    pub fn session_heartbeat(&self, db: &mut Db, _args: EmptyArgs) -> (r: Result<presence::HeartbeatOutput, SanghaError>)
        requires
            old(db).wf(),
        ensures
            final(db).wf(),
            match self@ {
                None => final(db)@ == old(db)@ && refused_unbound(r),
                Some((s, _)) => {
                    &&& exists|t1: i64, t2: i64| final(db)@ == spec_auto_extend(spec_heartbeat(old(db)@, s, t1), s, t2)
                    &&& r matches Ok(out) && out.session_id@ == s
                        && out.ttl_remaining_sec == if has_session(old(db)@.sessions, s) {
                            thousandths_toward_zero(old(db)@.session_ttl_ms as int)
                        } else {
                            0
                        }
                },
            },
    {
        let sid = match self.identity.session_id() {
            Ok(s) => s,
            Err(e) => return Err(e),
        };
        presence::handle_heartbeat(db, sid)
    }

    /// Unregister the bound session; its locks go with it. The connection
    /// stays bound.
    pub fn session_unregister(&self, db: &mut Db, _args: EmptyArgs) -> (r: Result<presence::UnregisterOutput, SanghaError>)
        requires
            old(db).wf(),
        ensures
            final(db).wf(),
            match self@ {
                None => final(db)@ == old(db)@ && refused_unbound(r),
                Some((s, _)) => final(db)@ == spec_unregister(old(db)@, s)
                    && (r matches Ok(out) && out.ok == has_session(old(db)@.sessions, s)),
            },
    {
        let sid = match self.identity.session_id() {
            Ok(s) => s,
            Err(e) => return Err(e),
        };
        presence::handle_unregister(db, sid)
    }

    /// List active sessions; needs no bound session.
    pub fn session_list(&self, db: &mut Db, args: presence::ListArgs) -> (r: Result<presence::ListOutput, SanghaError>)
        requires
            old(db).wf(),
        ensures
            final(db).wf(),
            match crate::tools::validate::spec_scope(opt_view(args.scope)) {
                None => final(db)@ == old(db)@ && (r matches Err(e) && scope_error(e, "session_list"@, args.scope->Some_0@)),
                Some(sc) => exists|t: i64| final(db)@ == spec_prune_dead_sessions(old(db)@, t)
                    && (r matches Ok(out) && presence::formatted_views(out.sessions@)
                        == crate::db::sessions_listed(final(db)@.sessions, presence::listed_project(sc, args.project))
                            .map_values(presence::formatted_session())),
            },
    {
        presence::handle_list(db, args)
    }

    /// Claim (or renew) a lock as the bound session, in the bound project
    /// or the user scope.
    pub fn resource_claim(&self, db: &mut Db, config: &Config, args: locks::ClaimArgs) -> (r: Result<locks::ClaimOutput, SanghaError>)
        requires
            old(db).wf(),
            locks::ttl_sec_fits(args.ttl_sec),
        ensures
            final(db).wf(),
            match self@ {
                None => final(db)@ == old(db)@ && refused_unbound(r),
                Some((s, p)) => match locks::claim_rejection(args, config.lock_max_ttl_ms) {
                    Some(_) => final(db)@ == old(db)@ && (r matches Err(e) && locks::claim_error(args, config.lock_max_ttl_ms, e)),
                    None => exists|now: i64|
                        #![trigger spec_claim(old(db)@, locks::claim_request(old(db)@, args, *config, s, p, now), now)]
                    {
                        let req = locks::claim_request(old(db)@, args, *config, s, p, now);
                        &&& final(db)@ == spec_claim(old(db)@, req, now)
                        &&& r matches Ok(out) && locks::claim_output_matches(out, claim_outcome(old(db)@, req, now))
                    },
                },
            },
    {
        let sid = match self.identity.session_id() {
            Ok(s) => s,
            Err(e) => return Err(e),
        };
        let proj = match self.identity.project() {
            Ok(p) => p,
            Err(e) => return Err(e),
        };
        locks::handle_claim(db, config, sid, proj, args)
    }

    /// Release a lock as the bound session.
    pub fn resource_release(&self, db: &mut Db, args: locks::ReleaseArgs) -> (r: Result<locks::ReleaseOutput, SanghaError>)
        requires
            old(db).wf(),
        ensures
            final(db).wf(),
            match self@ {
                None => final(db)@ == old(db)@ && refused_unbound(r),
                Some((s, p)) => match locks::release_rejection(args) {
                    Some(_) => final(db)@ == old(db)@ && (r matches Err(e) && locks::release_error(args, e)),
                    None => {
                        let req = locks::release_request(args, s, p);
                        &&& final(db)@ == spec_release(old(db)@, req)
                        &&& r matches Ok(out) && out.ok == release_removes(old(db)@, req)
                            && out.status@ == release_status(old(db)@, req)
                    },
                },
            },
    {
        let sid = match self.identity.session_id() {
            Ok(s) => s,
            Err(e) => return Err(e),
        };
        let proj = match self.identity.project() {
            Ok(p) => p,
            Err(e) => return Err(e),
        };
        locks::handle_release(db, sid, proj, args)
    }

    /// List active locks; needs no bound session.
    pub fn resource_list(&self, db: &mut Db, args: locks::LockListArgs) -> (r: Result<locks::LockListOutput, SanghaError>)
        requires
            old(db).wf(),
        ensures
            final(db).wf(),
            match crate::tools::validate::spec_scope(opt_view(args.scope)) {
                None => final(db)@ == old(db)@ && (r matches Err(e) && scope_error(e, "resource_list"@, args.scope->Some_0@)),
                Some(sc) => exists|t: i64| final(db)@ == spec_prune_expired_locks(old(db)@, t)
                    && (r matches Ok(out) && locks::formatted_lock_views(out.locks@)
                        == locks_listed(final(db)@.locks, presence::listed_project(sc, args.project))
                            .map_values(locks::formatted_lock())),
            },
    {
        locks::handle_list(db, args)
    }

    /// Broadcast a message as the bound session.
    pub fn broadcast(&self, db: &mut Db, args: inbox::BroadcastArgs) -> (r: Result<inbox::BroadcastOutput, SanghaError>)
        requires
            old(db).wf(),
        ensures
            final(db).wf(),
            match self@ {
                None => final(db)@ == old(db)@ && refused_unbound(r),
                Some((s, p)) => match inbox::broadcast_rejection(args) {
                    Some(_) => final(db)@ == old(db)@ && (r matches Err(e) && inbox::broadcast_error(args, e)),
                    None => {
                        let req = inbox::broadcast_request(old(db)@, args, s, p);
                        &&& inbox::tags_shown(req.tags) == inbox::opt_strings_view(args.tags)
                        &&& old(db)@.next_message_id < i64::MAX ==> exists|now: i64|
                            #[trigger] spec_broadcast(old(db)@, req, now) == final(db)@
                        &&& old(db)@.next_message_id < i64::MAX ==> (r matches Ok(out) && out.ok
                            && out.message_id == old(db)@.next_message_id)
                        &&& old(db)@.next_message_id == i64::MAX ==> (exists|now: i64|
                            #[trigger] spec_prune_old_inbox(old(db)@, now) == final(db)@)
                            && (r matches Err(SanghaError::Db(e)) && e.kind == DbErrorKind::SqliteFailure
                                && e.message@ == "database or disk is full"@)
                    },
                },
            },
    {
        let sid = match self.identity.session_id() {
            Ok(s) => s,
            Err(e) => return Err(e),
        };
        let proj = match self.identity.project() {
            Ok(p) => p,
            Err(e) => return Err(e),
        };
        inbox::handle_broadcast(db, sid, proj, args)
    }

    /// Read the bound session's inbox, marking what is returned as read.
    pub fn read_inbox(&self, db: &mut Db, args: inbox::ReadInboxArgs) -> (r: Result<inbox::ReadInboxOutput, SanghaError>)
        requires
            old(db).wf(),
        ensures
            final(db).wf(),
            match self@ {
                None => final(db)@ == old(db)@ && refused_unbound(r),
                Some((s, p)) => match crate::tools::validate::spec_scope(opt_view(args.scope)) {
                    None => final(db)@ == old(db)@ && (r matches Err(e) && scope_error(e, "inbox_read"@, args.scope->Some_0@)),
                    Some(_) => {
                        let req = inbox::read_request(args, s, p);
                        &&& exists|now: i64| #[trigger] spec_read_inbox(old(db)@, req, now) == final(db)@
                        &&& r matches Ok(out) && {
                            &&& inbox::formatted_message_views(out.messages@)
                                == inbox_selection(old(db)@, req).map_values(inbox::formatted_message())
                            &&& out.count == out.messages@.len()
                            &&& out.total == old(db)@.inbox.filter(visible_to(req.project, req.session_id)).len()
                            &&& out.unread_total == old(db)@.inbox.filter(unread_by(req.project, req.session_id, old(db)@.reads)).len()
                        }
                    },
                },
            },
    {
        let sid = match self.identity.session_id() {
            Ok(s) => s,
            Err(e) => return Err(e),
        };
        let proj = match self.identity.project() {
            Ok(p) => p,
            Err(e) => return Err(e),
        };
        inbox::handle_read_inbox(db, sid, proj, args)
    }

    /// When the connection ends, unregister its bound session (if any); its
    /// locks go with it.
    pub fn close(&self, db: &mut Db)
        requires
            old(db).wf(),
        ensures
            final(db).wf(),
            match self@ {
                None => final(db)@ == old(db)@,
                Some((s, _)) => final(db)@ == spec_unregister(old(db)@, s),
            },
    {
        if let Ok(sid) = self.identity.session_id() {
            let _ = db.unregister_session(sid);
        }
    }
}

/// Once a connection is bound, a registration re-registers the bound session
/// (whatever id a fresh registration would have generated) and leaves the
/// binding as it was; it succeeds exactly when it names the bound project.
pub proof fn law_bound_connection_keeps_its_session(
    s: Seq<char>,
    p: Seq<char>,
    args: RegisterArgs,
    generated: Seq<char>,
)
    ensures
        ({
            let b = Some((s, p));
            let id = registered_id(register_request(bound_session(b), args), generated);
            &&& id == s
            &&& spec_bind(b, id, args.project@) == b
            &&& bind_accepted(b, id, args.project@) <==> args.project@ == p
        }),
{
}

} // verus!
