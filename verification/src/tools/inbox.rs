//! Handlers of the inbox broadcast tools.

use vstd::prelude::*;
use crate::clock::now_rfc3339;
use crate::db::{Db, BroadcastInput, BroadcastRequest, ReadInboxInput, ReadRequest, InboxView, inbox_views,
    spec_broadcast, spec_read_inbox, inbox_selection, visible_to, unread_by, spec_prune_old_inbox};
use crate::error::{SanghaError, DbErrorKind, opt_view, opt_str_view, lit};
use crate::tools::locks::session_branch;
use crate::tools::presence::shown_time;
use crate::tools::validate;
use crate::tools::validate::{spec_scope, spec_resolve_project, non_empty_error, scope_error};
use crate::util::format_ms;

verus! {

// ---------------------------------------------------------------------------
// Args types
// ---------------------------------------------------------------------------

#[derive(Debug)]
pub struct BroadcastArgs {
    pub message: String,
    pub tags: Option<Vec<String>>,
    pub scope: Option<String>,
}

#[derive(Debug)]
pub struct ReadInboxArgs {
    pub unread_only: Option<bool>,
    pub limit: Option<i64>,
    pub scope: Option<String>,
}

// ---------------------------------------------------------------------------
// Output types
// ---------------------------------------------------------------------------

#[derive(Debug)]
pub struct FormattedInbox {
    pub id: i64,
    pub from_session: String,
    pub from_branch: Option<String>,
    pub message: String,
    pub tags: Option<Vec<String>>,
    /// ISO 8601 / RFC 3339 string.
    pub created_at: String,
}

#[derive(Debug)]
pub struct BroadcastOutput {
    pub ok: bool,
    pub message_id: i64,
}

#[derive(Debug)]
pub struct ReadInboxOutput {
    pub count: i64,
    pub unread_total: i64,
    pub total: i64,
    pub messages: Vec<FormattedInbox>,
    /// ISO 8601 timestamp of when the inbox was read.
    pub as_of: String,
}

pub open spec fn strings_view(v: Seq<String>) -> Seq<Seq<char>> {
    v.map_values(|s: String| s@)
}

pub open spec fn opt_strings_view(o: Option<Vec<String>>) -> Option<Seq<Seq<char>>> {
    match o {
        Some(v) => Some(strings_view(v@)),
        None => None,
    }
}

/// A lower-case hexadecimal digit.
pub open spec fn hex_digit(d: int) -> char {
    if d < 10 {
        (48 + d) as char
    } else {
        (87 + d) as char
    }
}

/// How serde_json writes one character inside a JSON string: `"`, `\` and
/// the control characters below U+0020 are escaped (with the short escape
/// where JSON has one, else as `\u00` and two lower-case hex digits); every
/// other character is written as it is.
pub open spec fn json_escaped(c: char) -> Seq<char> {
    if c == '"' {
        seq!['\\', '"']
    } else if c == '\\' {
        seq!['\\', '\\']
    } else if c == '\x08' {
        seq!['\\', 'b']
    } else if c == '\t' {
        seq!['\\', 't']
    } else if c == '\n' {
        seq!['\\', 'n']
    } else if c == '\x0C' {
        seq!['\\', 'f']
    } else if c == '\r' {
        seq!['\\', 'r']
    } else if (c as u32) < 0x20 {
        seq!['\\', 'u', '0', '0', hex_digit(((c as u32) / 16) as int), hex_digit(((c as u32) % 16) as int)]
    } else {
        seq![c]
    }
}

/// A string as a quoted, escaped JSON string.
pub open spec fn json_string(s: Seq<char>) -> Seq<char> {
    seq!['"'] + s.map_values(|c: char| json_escaped(c)).flatten() + seq!['"']
}

/// The JSON strings of a list, separated by commas.
pub open spec fn json_elements(items: Seq<Seq<char>>) -> Seq<char>
    decreases items.len(),
{
    if items.len() == 0 {
        Seq::empty()
    } else if items.len() == 1 {
        json_string(items[0])
    } else {
        json_elements(items.drop_last()) + seq![','] + json_string(items.last())
    }
}

/// The JSON text `serde_json::to_string` writes for a list of strings: the
/// JSON strings, separated by commas, in brackets, with no white space.
pub open spec fn json_of_strings(items: Seq<Seq<char>>) -> Seq<char> {
    seq!['['] + json_elements(items) + seq![']']
}

/// The list of strings `serde_json::from_str` reads from a text, or `None`
/// where the text is not a JSON array of strings.
pub uninterp spec fn strings_of_json(text: Seq<char>) -> Option<Seq<Seq<char>>>;

/// `serde_json::to_string(tags)`, falling back to the empty string on a
/// serialisation error (which a list of strings never meets). The text is
/// `json_of_strings` of the tags, and `serde_json::from_str` reads that text
/// back as the same list of strings.
#[verifier::external_body]
fn tags_to_json(tags: &Vec<String>) -> (r: String)
    ensures
        r@ == json_of_strings(strings_view(tags@)),
        strings_of_json(r@) == Some(strings_view(tags@)),
{
    serde_json::to_string(tags).unwrap_or_default()
}

/// `serde_json::from_str::<Vec<String>>(text).ok()`. Its result is named,
/// not stated: it is `strings_of_json` of the text.
#[verifier::external_body]
fn tags_from_json(text: &str) -> (r: Option<Vec<String>>)
    ensures
        opt_strings_view(r) == strings_of_json(text@),
{
    serde_json::from_str::<Vec<String>>(text).ok()
}

pub struct FormattedInboxView {
    pub id: i64,
    pub from_session: Seq<char>,
    pub from_branch: Option<Seq<char>>,
    pub message: Seq<char>,
    pub tags: Option<Seq<Seq<char>>>,
    pub created_at: Seq<char>,
}

impl View for FormattedInbox {
    type V = FormattedInboxView;

    open spec fn view(&self) -> FormattedInboxView {
        FormattedInboxView {
            id: self.id,
            from_session: self.from_session@,
            from_branch: opt_view(self.from_branch),
            message: self.message@,
            tags: opt_strings_view(self.tags),
            created_at: self.created_at@,
        }
    }
}

/// The tags of a stored message, read back from their JSON text.
pub open spec fn tags_shown(tags: Option<Seq<char>>) -> Option<Seq<Seq<char>>> {
    match tags {
        Some(t) => strings_of_json(t),
        None => None,
    }
}

/// A message as a read shows it.
pub open spec fn formatted_message() -> spec_fn(InboxView) -> FormattedInboxView {
    |m: InboxView| FormattedInboxView {
        id: m.id,
        from_session: m.from_session,
        from_branch: m.from_branch,
        message: m.message,
        tags: tags_shown(m.tags),
        created_at: shown_time(m.created_at),
    }
}

pub open spec fn formatted_message_views(v: Seq<FormattedInbox>) -> Seq<FormattedInboxView> {
    v.map_values(|x: FormattedInbox| x@)
}

/// The first argument of a broadcast that fails validation, if any.
pub open spec fn broadcast_rejection(args: BroadcastArgs) -> Option<Seq<char>> {
    if args.message@.len() == 0 {
        Some("message"@)
    } else if spec_scope(opt_view(args.scope)) is None {
        Some("scope"@)
    } else {
        None
    }
}

/// The error a broadcast that fails validation gets: that of its first
/// failing check.
pub open spec fn broadcast_error(args: BroadcastArgs, e: SanghaError) -> bool {
    let t = "inbox_broadcast"@;
    if args.message@.len() == 0 {
        non_empty_error(e, t, "message"@)
    } else {
        scope_error(e, t, args.scope->Some_0@)
    }
}

/// The broadcast a valid `broadcast` call makes.
pub open spec fn broadcast_request(v: crate::db::DbView, args: BroadcastArgs, session_id: Seq<char>, session_project: Seq<char>) -> BroadcastRequest {
    BroadcastRequest {
        project: spec_resolve_project(spec_scope(opt_view(args.scope))->Some_0, session_project),
        from_session: session_id,
        from_branch: session_branch(v, session_id),
        message: args.message@,
        tags: match args.tags {
            Some(t) => Some(json_of_strings(strings_view(t@))),
            None => None,
        },
    }
}

/// The read a valid `read_inbox` call makes: unread messages only unless
/// asked otherwise.
pub open spec fn read_request(args: ReadInboxArgs, session_id: Seq<char>, session_project: Seq<char>) -> ReadRequest {
    ReadRequest {
        project: spec_resolve_project(spec_scope(opt_view(args.scope))->Some_0, session_project),
        session_id,
        unread_only: match args.unread_only {
            Some(b) => b,
            None => true,
        },
        limit: args.limit,
    }
}

fn opt_as_str(o: &Option<String>) -> (r: Option<&str>)
    ensures
        opt_str_view(r) == opt_view(*o),
{
    match o {
        Some(s) => Some(s.as_str()),
        None => None,
    }
}

/// Broadcast a message to all other sessions in the same project (or user scope).
pub fn handle_broadcast(db: &mut crate::db::Db, session_id: &str, session_project: &str, args: BroadcastArgs) -> (r: Result<BroadcastOutput, SanghaError>)
    requires
        old(db).wf(),
    ensures
        final(db).wf(),
        match broadcast_rejection(args) {
            Some(_) => final(db)@ == old(db)@ && (r matches Err(e) && broadcast_error(args, e)),
            None => {
                let req = broadcast_request(old(db)@, args, session_id@, session_project@);
                &&& tags_shown(req.tags) == opt_strings_view(args.tags)
                &&& old(db)@.next_message_id < i64::MAX ==> exists|now: i64|
                    #[trigger] spec_broadcast(old(db)@, req, now) == final(db)@
                &&& old(db)@.next_message_id < i64::MAX ==> (r matches Ok(out) && out.ok
                    && out.message_id == old(db)@.next_message_id)
                &&& old(db)@.next_message_id == i64::MAX ==> (exists|now: i64|
                    #[trigger] spec_prune_old_inbox(old(db)@, now) == final(db)@)
                    && (r matches Err(SanghaError::Db(e)) && e.kind == DbErrorKind::SqliteFailure
                        && e.message@ == "database or disk is full"@)
            },
        },
{
    let tool = "inbox_broadcast";
    if let Err(e) = validate::non_empty(tool, "message", args.message.as_str()) {
        return Err(e);
    }
    let parsed = match validate::scope(tool, opt_as_str(&args.scope)) {
        Ok(sc) => sc,
        Err(e) => return Err(e),
    };
    let ghost req = broadcast_request(old(db)@, args, session_id@, session_project@);
    let tags_json: Option<String> = match &args.tags {
        Some(t) => Some(tags_to_json(t)),
        None => None,
    };
    let from_branch = match db.get_session(session_id) {
        Ok(Some(s)) => s.branch,
        Ok(None) => None,
        Err(e) => return Err(e),
    };
    let input = BroadcastInput {
        project: lit(validate::resolve_project(parsed, session_project)),
        from_session: lit(session_id),
        from_branch,
        message: args.message,
        tags: tags_json,
    };
    assert(input@ == req);
    match db.broadcast(input) {
        Ok(row) => Ok(BroadcastOutput { ok: true, message_id: row.id }),
        Err(e) => Err(e),
    }
}

/// Read inbox messages for the current session's project (or user scope).
pub fn handle_read_inbox(db: &mut crate::db::Db, session_id: &str, session_project: &str, args: ReadInboxArgs) -> (r: Result<ReadInboxOutput, SanghaError>)
    requires
        old(db).wf(),
    ensures
        final(db).wf(),
        match spec_scope(opt_view(args.scope)) {
            None => final(db)@ == old(db)@ && (r matches Err(e) && scope_error(e, "inbox_read"@, args.scope->Some_0@)),
            Some(_) => {
                let req = read_request(args, session_id@, session_project@);
                &&& exists|now: i64| #[trigger] spec_read_inbox(old(db)@, req, now) == final(db)@
                &&& r matches Ok(out) && {
                    &&& formatted_message_views(out.messages@)
                        == inbox_selection(old(db)@, req).map_values(formatted_message())
                    &&& out.count == out.messages@.len()
                    &&& out.total == old(db)@.inbox.filter(visible_to(req.project, req.session_id)).len()
                    &&& out.unread_total == old(db)@.inbox.filter(unread_by(req.project, req.session_id, old(db)@.reads)).len()
                }
            },
        },
{
    let parsed = match validate::scope("inbox_read", opt_as_str(&args.scope)) {
        Ok(sc) => sc,
        Err(e) => return Err(e),
    };
    let ghost req = read_request(args, session_id@, session_project@);
    let input = ReadInboxInput {
        project: lit(validate::resolve_project(parsed, session_project)),
        session_id: lit(session_id),
        unread_only: match args.unread_only {
            Some(b) => b,
            None => true,
        },
        limit: args.limit,
    };
    assert(input@ == req);
    let result = match db.read_inbox(input) {
        Ok(res) => res,
        Err(e) => return Err(e),
    };
    let ghost mv = inbox_views(result.messages@);
    let mut messages: Vec<FormattedInbox> = Vec::new();
    let n = result.messages.len();
    let mut i: usize = 0;
    while i < n
        invariant
            n == result.messages@.len(),
            mv == inbox_views(result.messages@),
            i <= n,
            formatted_message_views(messages@) == mv.take(i as int).map_values(formatted_message()),
        decreases n - i,
    {
        let row = &result.messages[i];
        let tags = match &row.tags {
            Some(t) => tags_from_json(t.as_str()),
            None => None,
        };
        let f = FormattedInbox {
            id: row.id,
            from_session: row.from_session.clone(),
            from_branch: crate::db::copy_opt(&row.from_branch),
            message: row.message.clone(),
            tags,
            created_at: format_ms(row.created_at),
        };
        assert(mv[i as int] == result.messages@[i as int]@);
        let ghost before = messages@;
        messages.push(f);
        assert(formatted_message_views(messages@) =~= formatted_message_views(before).push(f@));
        assert(mv.take(i + 1) =~= mv.take(i as int).push(mv[i as int]));
        i = i + 1;
    }
    assert(mv.take(n as int) =~= mv);
    Ok(ReadInboxOutput {
        count: result.count,
        unread_total: result.unread_total,
        total: result.total,
        messages,
        as_of: now_rfc3339(),
    })
}

} // verus!
