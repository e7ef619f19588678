//! Connection-bound session identity.

use vstd::prelude::*;
use crate::error::{SanghaError, is_identity_error, lit, cat};

verus! {

/// Connection-bound session identity.
///
/// Each connection gets its own `Identity`. The first `session_register`
/// call binds the identity for the lifetime of that connection. All
/// subsequent tool calls derive session_id and project from it.
#[derive(Debug)]
pub struct Identity {
    bound: Option<(String, String)>,
}

impl View for Identity {
    type V = Option<(Seq<char>, Seq<char>)>;

    closed spec fn view(&self) -> Option<(Seq<char>, Seq<char>)> {
        match self.bound {
            Some((s, p)) => Some((s@, p@)),
            None => None,
        }
    }
}

/// Whether binding `(session_id, project)` succeeds: always on an unbound
/// identity, else only with the same two values.
pub open spec fn bind_accepted(b: Option<(Seq<char>, Seq<char>)>, session_id: Seq<char>, project: Seq<char>) -> bool {
    match b {
        None => true,
        Some((s, p)) => s == session_id && p == project,
    }
}

/// The binding after a bind: the first bind sets it, later ones keep it.
pub open spec fn spec_bind(b: Option<(Seq<char>, Seq<char>)>, session_id: Seq<char>, project: Seq<char>) -> Option<(Seq<char>, Seq<char>)> {
    match b {
        None => Some((session_id, project)),
        Some(x) => Some(x),
    }
}

pub open spec fn unbound_message() -> Seq<char> {
    "no session bound to this connection"@
}

pub open spec fn unbound_next_action() -> Seq<char> {
    "Call session_register first to bind a session to this connection."@
}

pub open spec fn rebind_next_action() -> Seq<char> {
    "Use the existing session or open a new HTTP connection."@
}

impl Identity {
    pub fn new() -> (r: Identity)
        ensures
            r@ is None,
    {
        Identity { bound: None }
    }

    /// Bind session_id and project. Idempotent if the same values are passed.
    /// Returns an identity error if called with different values.
    pub fn bind(&mut self, session_id: String, project: String) -> (r: Result<(), SanghaError>)
        ensures
            final(self)@ == spec_bind(old(self)@, session_id@, project@),
            r is Ok <==> bind_accepted(old(self)@, session_id@, project@),
            r matches Err(e) ==> (old(self)@ matches Some((s, p)) && if s != session_id@ {
                is_identity_error(e, "session_register",
                    "connection already bound to session "@ + s + ", cannot rebind to "@ + session_id@,
                    rebind_next_action())
            } else {
                is_identity_error(e, "session_register",
                    "connection already bound to project "@ + p + ", cannot rebind to "@ + project@,
                    rebind_next_action())
            }),
    {
        match &self.bound {
            None => {
                self.bound = Some((session_id, project));
                Ok(())
            },
            Some((existing, existing_project)) => {
                if *existing != session_id {
                    let m = cat(cat(cat(lit("connection already bound to session "), existing.as_str()), ", cannot rebind to "), session_id.as_str());
                    return Err(SanghaError::IdentityError {
                        tool: "session_register",
                        message: m,
                        next_action: lit("Use the existing session or open a new HTTP connection."),
                    });
                }
                if *existing_project != project {
                    let m = cat(cat(cat(lit("connection already bound to project "), existing_project.as_str()), ", cannot rebind to "), project.as_str());
                    return Err(SanghaError::IdentityError {
                        tool: "session_register",
                        message: m,
                        next_action: lit("Use the existing session or open a new HTTP connection."),
                    });
                }
                Ok(())
            },
        }
    }

    /// Get the bound session_id. Errors if not yet bound.
    pub fn session_id(&self) -> (r: Result<&str, SanghaError>)
        ensures
            match self@ {
                Some((s, _)) => r matches Ok(x) && x@ == s,
                None => r matches Err(e) && is_identity_error(e, "identity", unbound_message(), unbound_next_action()),
            },
    {
        match &self.bound {
            Some((s, _)) => Ok(s.as_str()),
            None => Err(SanghaError::IdentityError {
                tool: "identity",
                message: lit("no session bound to this connection"),
                next_action: lit("Call session_register first to bind a session to this connection."),
            }),
        }
    }

    /// Get the bound project. Errors if not yet bound.
    pub fn project(&self) -> (r: Result<&str, SanghaError>)
        ensures
            match self@ {
                Some((_, p)) => r matches Ok(x) && x@ == p,
                None => r matches Err(e) && is_identity_error(e, "identity", unbound_message(), unbound_next_action()),
            },
    {
        match &self.bound {
            Some((_, p)) => Ok(p.as_str()),
            None => Err(SanghaError::IdentityError {
                tool: "identity",
                message: lit("no session bound to this connection"),
                next_action: lit("Call session_register first to bind a session to this connection."),
            }),
        }
    }

    /// Whether this identity has been bound.
    pub fn is_bound(&self) -> (b: bool)
        ensures
            b == (self@ is Some),
    {
        self.bound.is_some()
    }
}

impl Default for Identity {
    /// An unbound identity, as `new` makes.
    fn default() -> (r: Identity)
        ensures
            r@ is None,
    {
        Identity::new()
    }
}

/// Binding is once only: after the first bind, no bind changes the binding.
pub proof fn law_binding_is_permanent(b: Option<(Seq<char>, Seq<char>)>, s1: Seq<char>, p1: Seq<char>, s2: Seq<char>, p2: Seq<char>)
    ensures
        spec_bind(spec_bind(b, s1, p1), s2, p2) == spec_bind(b, s1, p1),
{
}

/// Binding is idempotent: repeating an accepted bind is accepted again and
/// changes nothing.
pub proof fn law_bind_is_idempotent(b: Option<(Seq<char>, Seq<char>)>, s: Seq<char>, p: Seq<char>)
    requires
        bind_accepted(b, s, p),
    ensures
        bind_accepted(spec_bind(b, s, p), s, p),
        spec_bind(spec_bind(b, s, p), s, p) == spec_bind(b, s, p),
{
}

/// After a successful bind, the identity reports exactly what was bound.
pub proof fn law_bind_then_read(b: Option<(Seq<char>, Seq<char>)>, s: Seq<char>, p: Seq<char>)
    requires
        bind_accepted(b, s, p),
    ensures
        spec_bind(b, s, p) == Some((s, p)),
{
}

} // verus!
