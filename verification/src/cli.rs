//! What the command-line inspection commands compute: the project filter
//! they use and the text reports they print.

use vstd::prelude::*;
use vstd::string::StringExecFns;
use crate::db::{SessionRow, LockRow, SessionView, LockView, session_views, lock_views};
use crate::error::{opt_view, lit, cat};
use crate::text::{nat_digits, u64_to_decimal};
use crate::tools::validate;

verus! {

/// The project filter of an inspection command: the user-scope sentinel
/// with `--user`, else the `--project` value.
pub fn resolve_cli_project(project: Option<String>, user: bool) -> (r: Option<String>)
    ensures
        opt_view(r) == if user { Some("__user__"@) } else { opt_view(project) },
{
    if user {
        Some(lit(validate::USER_SCOPE_PROJECT))
    } else {
        project
    }
}

/// An optional labelled line.
pub open spec fn optional_line(label: Seq<char>, value: Option<Seq<char>>) -> Seq<char> {
    match value {
        Some(v) => label + v + "\n"@,
        None => Seq::empty(),
    }
}

/// The lines describing one session.
pub open spec fn session_lines(s: SessionView) -> Seq<char> {
    "  "@ + s.id + " ("@ + s.project + ")\n"@
        + optional_line("    branch: "@, s.branch)
        + optional_line("    intent: "@, s.intent)
        + "\n"@
}

pub open spec fn sessions_block(rows: Seq<SessionView>) -> Seq<char>
    decreases rows.len(),
{
    if rows.len() == 0 {
        Seq::empty()
    } else {
        sessions_block(rows.drop_last()) + session_lines(rows.last())
    }
}

/// The status report for a list of sessions.
pub open spec fn spec_status_text(rows: Seq<SessionView>) -> Seq<char> {
    if rows.len() == 0 {
        "No active sessions.\n"@
    } else {
        nat_digits(rows.len()) + " active session(s):\n\n"@ + sessions_block(rows)
    }
}

/// The lines describing one lock.
pub open spec fn lock_lines(l: LockView) -> Seq<char> {
    "  "@ + l.resource + " (held by "@ + l.session_id + ")\n"@
        + "    project: "@ + l.project + "\n"@
        + optional_line("    reason: "@, l.reason)
        + (if l.long_op { "    long_op: true\n"@ } else { Seq::empty() })
        + "\n"@
}

pub open spec fn locks_block(rows: Seq<LockView>) -> Seq<char>
    decreases rows.len(),
{
    if rows.len() == 0 {
        Seq::empty()
    } else {
        locks_block(rows.drop_last()) + lock_lines(rows.last())
    }
}

/// The report for a list of locks.
pub open spec fn spec_locks_text(rows: Seq<LockView>) -> Seq<char> {
    if rows.len() == 0 {
        "No active locks.\n"@
    } else {
        nat_digits(rows.len()) + " active lock(s):\n\n"@ + locks_block(rows)
    }
}

fn append_optional_line(out: String, label: &str, value: &Option<String>) -> (r: String)
    ensures
        r@ == out@ + optional_line(label@, opt_view(*value)),
{
    match value {
        Some(v) => {
            let r = cat(cat(cat(out, label), v.as_str()), "\n");
            assert(r@ =~= out@ + optional_line(label@, opt_view(*value)));
            r
        },
        None => {
            assert(out@ + optional_line(label@, opt_view(*value)) =~= out@);
            out
        },
    }
}

/// The text `sangha status` prints for a list of sessions.
pub fn status_text(rows: &Vec<SessionRow>) -> (r: String)
    ensures
        r@ == spec_status_text(session_views(rows@)),
{
    let ghost sv = session_views(rows@);
    let n = rows.len();
    if n == 0 {
        return lit("No active sessions.\n");
    }
    let mut out = cat(u64_to_decimal(n as u64), " active session(s):\n\n");
    let ghost head = out@;
    let mut i: usize = 0;
    while i < n
        invariant
            n == rows@.len(),
            sv == session_views(rows@),
            i <= n,
            out@ == head + sessions_block(sv.take(i as int)),
        decreases n - i,
    {
        let s = &rows[i];
        assert(sv[i as int] == s@);
        let ghost before = out@;
        let mut line = cat(cat(cat(cat(lit("  "), s.id.as_str()), " ("), s.project.as_str()), ")\n");
        line = append_optional_line(line, "    branch: ", &s.branch);
        line = append_optional_line(line, "    intent: ", &s.intent);
        line = cat(line, "\n");
        assert(line@ =~= session_lines(sv[i as int]));
        out = cat(out, line.as_str());
        assert(sv.take(i + 1).drop_last() =~= sv.take(i as int));
        assert(out@ =~= head + sessions_block(sv.take(i + 1)));
        i = i + 1;
    }
    assert(sv.take(n as int) =~= sv);
    out
}

/// The text `sangha locks` prints for a list of locks.
pub fn locks_text(rows: &Vec<LockRow>) -> (r: String)
    ensures
        r@ == spec_locks_text(lock_views(rows@)),
{
    let ghost lv = lock_views(rows@);
    let n = rows.len();
    if n == 0 {
        return lit("No active locks.\n");
    }
    let mut out = cat(u64_to_decimal(n as u64), " active lock(s):\n\n");
    let ghost head = out@;
    let mut i: usize = 0;
    while i < n
        invariant
            n == rows@.len(),
            lv == lock_views(rows@),
            i <= n,
            out@ == head + locks_block(lv.take(i as int)),
        decreases n - i,
    {
        let l = &rows[i];
        assert(lv[i as int] == l@);
        let mut line = cat(cat(cat(cat(lit("  "), l.resource.as_str()), " (held by "), l.session_id.as_str()), ")\n");
        line = cat(cat(cat(line, "    project: "), l.project.as_str()), "\n");
        line = append_optional_line(line, "    reason: ", &l.reason);
        if l.long_op {
            line = cat(line, "    long_op: true\n");
        }
        line = cat(line, "\n");
        assert(line@ =~= lock_lines(lv[i as int]));
        out = cat(out, line.as_str());
        assert(lv.take(i + 1).drop_last() =~= lv.take(i as int));
        assert(out@ =~= head + locks_block(lv.take(i + 1)));
        i = i + 1;
    }
    assert(lv.take(n as int) =~= lv);
    out
}

} // verus!
