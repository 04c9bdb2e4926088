//! `atc open-session` - finds the terminal of a dispatch and attaches to it.

use vstd::prelude::*;
use crate::order::reversed;
use crate::pipeline::report::SCHEMA_VERSION;
use crate::sessions::actions::{self, capabilities_of};
use crate::strmap::{self, copy_opt};
use crate::text::{self, concat, join, push_str, starts_with, strip_prefix, trim};
use crate::types::{DispatchRecord, Status, TerminalLocator, Timestamp};

verus! {

pub const ACTION_OPEN_SESSION: &'static str = "open-session";

/// The state of a terminal.
#[derive(Clone, Copy, Debug, PartialEq, Eq, Structural)]
pub enum TerminalStatusState {
    Focusable,
    Attached,
    Detached,
    Running,
    Stale,
    Unavailable,
    Unknown,
}

/// The name of a state.
pub open spec fn state_name(state: TerminalStatusState) -> Seq<char> {
    match state {
        TerminalStatusState::Focusable => "focusable"@,
        TerminalStatusState::Attached => "attached"@,
        TerminalStatusState::Detached => "detached"@,
        TerminalStatusState::Running => "running"@,
        TerminalStatusState::Stale => "stale"@,
        TerminalStatusState::Unavailable => "unavailable"@,
        TerminalStatusState::Unknown => "unknown"@,
    }
}

pub fn status_state_label(state: TerminalStatusState) -> (r: &'static str)
    ensures
        r@ == state_name(state),
{
    match state {
        TerminalStatusState::Focusable => "focusable",
        TerminalStatusState::Attached => "attached",
        TerminalStatusState::Detached => "detached",
        TerminalStatusState::Running => "running",
        TerminalStatusState::Stale => "stale",
        TerminalStatusState::Unavailable => "unavailable",
        TerminalStatusState::Unknown => "unknown",
    }
}

/// What is known of a terminal, and why it is as it is.
pub struct TerminalStatus {
    pub state: TerminalStatusState,
    pub reason: Option<String>,
}

impl TerminalStatus {
    /// A terminal that is there can be opened.
    pub open spec fn openable(self) -> bool {
        self.state == TerminalStatusState::Focusable || self.state == TerminalStatusState::Attached
            || self.state == TerminalStatusState::Detached || self.state
            == TerminalStatusState::Running
    }

    pub fn is_openable(&self) -> (r: bool)
        ensures
            r == self.openable(),
    {
        matches!(
            self.state,
            TerminalStatusState::Focusable | TerminalStatusState::Attached
                | TerminalStatusState::Detached | TerminalStatusState::Running
        )
    }

    pub fn unavailable(reason: &str) -> (r: TerminalStatus)
        ensures
            r.state == TerminalStatusState::Unavailable,
            strmap::opt_view(r.reason) == Some(reason@),
    {
        TerminalStatus {
            state: TerminalStatusState::Unavailable,
            reason: Some(reason.to_owned()),
        }
    }
}

/// A locator: its session, its worktree, when it was recorded, and whether it was
/// inferred.
pub struct LocatorView {
    pub session: Seq<char>,
    pub worktree_path: Option<Seq<char>>,
    pub recorded_at: Timestamp,
    pub inferred: bool,
}

/// The view of a locator.
pub open spec fn locator_view(o: Option<TerminalLocator>) -> Option<LocatorView> {
    match o {
        Some(l) => Some(
            LocatorView {
                session: l.session@,
                worktree_path: strmap::opt_view(l.worktree_path),
                recorded_at: l.recorded_at,
                inferred: l.inferred,
            },
        ),
        None => None,
    }
}

/// Where the terminal of a record is: where it was recorded to be, or else, as of
/// now, in its session and its worktree, if the agent can be attached to.
pub open spec fn locator_of(r: DispatchRecord, now: Timestamp) -> Option<LocatorView> {
    match r.terminal_locator {
        Some(_) => locator_view(r.terminal_locator),
        None => if actions::capabilities(r).supports_tmux_attach && actions::has_session(r) {
            Some(
                LocatorView {
                    session: r.session@,
                    worktree_path: Some(r.worktree_path@),
                    recorded_at: now,
                    inferred: true,
                },
            )
        } else {
            None
        },
    }
}

pub fn effective_terminal_locator(record: &DispatchRecord, now: Timestamp) -> (r: Option<
    TerminalLocator,
>)
    ensures
        locator_view(r) == locator_of(*record, now),
{
    match &record.terminal_locator {
        Some(l) => Some(
            TerminalLocator {
                session: l.session.clone(),
                worktree_path: copy_opt(&l.worktree_path),
                recorded_at: l.recorded_at,
                inferred: l.inferred,
            },
        ),
        None => if capabilities_of(record).supports_tmux_attach && trim(
            record.session.as_str(),
        ).as_str().unicode_len() > 0 {
            Some(
                TerminalLocator {
                    session: record.session.clone(),
                    worktree_path: Some(record.worktree_path.clone()),
                    recorded_at: now,
                    inferred: true,
                },
            )
        } else {
            None
        },
    }
}

/// What opening a terminal would do, or why it cannot be opened.
pub struct OpenSessionPreview {
    pub enabled: bool,
    pub reason: Option<String>,
    pub action: String,
    pub backend: Option<String>,
    pub attach_command: Option<Vec<String>>,
}

/// The command that attaches to a session: its name is one argument, whatever
/// it holds.
pub open spec fn attach_args(session: Seq<char>) -> Seq<Seq<char>> {
    seq!["tmux"@, "attach"@, "-t"@, session]
}

pub fn attach_command_preview(session: &str) -> (r: Vec<String>)
    ensures
        text::views(r@) == attach_args(session@),
{
    let r = vec!["tmux".to_owned(), "attach".to_owned(), "-t".to_owned(), session.to_owned()];
    proof {
        assert(text::views(r@) =~= attach_args(session@));
    }
    r
}

impl OpenSessionPreview {
    /// Opening attaches to the session.
    pub open spec fn opens(self, session: Seq<char>) -> bool {
        &&& self.enabled
        &&& self.reason is None
        &&& strmap::opt_view(self.backend) == Some("tmux"@)
        &&& (self.attach_command matches Some(c) && text::views(c@) == attach_args(session))
    }

    /// Nothing is opened, for the reason given.
    pub open spec fn refuses(self, reason: Seq<char>, backend: Option<Seq<char>>) -> bool {
        &&& !self.enabled
        &&& strmap::opt_view(self.reason) == Some(reason)
        &&& strmap::opt_view(self.backend) == backend
        &&& self.attach_command is None
    }

    /// What is previewed for a terminal.
    pub open spec fn previews(
        self,
        locator: Option<LocatorView>,
        status: TerminalStatus,
    ) -> bool {
        &&& self.action@ == ACTION_OPEN_SESSION@
        &&& match locator {
            None => self.refuses("no terminal locator"@, None),
            Some(l) => if text::trimmed(l.session).len() == 0 {
                self.refuses("tmux locator is missing session"@, None)
            } else if status.openable() {
                self.opens(l.session)
            } else {
                self.refuses(
                    match status.reason {
                        Some(r) => r@,
                        None => "terminal is "@ + state_name(status.state),
                    },
                    Some("tmux"@),
                )
            },
        }
    }
}

fn disabled_preview(reason: &str) -> (r: OpenSessionPreview)
    ensures
        r.refuses(reason@, None),
        r.action@ == ACTION_OPEN_SESSION@,
{
    OpenSessionPreview {
        enabled: false,
        reason: Some(reason.to_owned()),
        action: ACTION_OPEN_SESSION.to_owned(),
        backend: None,
        attach_command: None,
    }
}

/// What opening the terminal would do.
pub fn open_shell_preview(locator: &Option<TerminalLocator>, status: &TerminalStatus) -> (r:
    OpenSessionPreview)
    ensures
        r.previews(locator_view(*locator), *status),
{
    match locator {
        None => disabled_preview("no terminal locator"),
        Some(l) => if trim(l.session.as_str()).as_str().unicode_len() == 0 {
            disabled_preview("tmux locator is missing session")
        } else if status.is_openable() {
            OpenSessionPreview {
                enabled: true,
                reason: None,
                action: ACTION_OPEN_SESSION.to_owned(),
                backend: Some("tmux".to_owned()),
                attach_command: Some(attach_command_preview(l.session.as_str())),
            }
        } else {
            let reason = match &status.reason {
                Some(r) => r.clone(),
                None => concat("terminal is ", status_state_label(status.state)),
            };
            OpenSessionPreview {
                enabled: false,
                reason: Some(reason),
                action: ACTION_OPEN_SESSION.to_owned(),
                backend: Some("tmux".to_owned()),
                attach_command: None,
            }
        },
    }
}

/// The terminal of a dispatch, and what opening it would do.
pub struct OpenSessionResult {
    pub target: String,
    pub dispatch_id: String,
    pub uri: String,
    pub task_slug: Option<String>,
    pub session: String,
    pub terminal_locator: Option<TerminalLocator>,
    pub terminal_status: TerminalStatus,
    pub open_shell: OpenSessionPreview,
}

/// JSON envelope for `atc open-session --json`.
pub struct OpenSessionOutputV1 {
    pub schema_version: u32,
    pub kind: &'static str,
    pub data: OpenSessionResult,
}

pub fn session_output(data: OpenSessionResult) -> (r: OpenSessionOutputV1)
    ensures
        r.schema_version == SCHEMA_VERSION,
        r.kind@ == ACTION_OPEN_SESSION@,
        r.data == data,
{
    OpenSessionOutputV1 { schema_version: SCHEMA_VERSION, kind: ACTION_OPEN_SESSION, data }
}

/// What names the session of a dispatch.
pub open spec fn session_uri(id: Seq<char>) -> Seq<char> {
    "atc://session/"@ + id
}

/// What a name of a session stands for.
pub open spec fn dispatch_in_uri(uri: Seq<char>) -> Option<Seq<char>> {
    if text::starts(uri, "atc://session/"@) && uri.len() > "atc://session/"@.len() {
        Some(uri.skip("atc://session/"@.len() as int))
    } else {
        None
    }
}

pub fn atc_session_uri(id: &str) -> (r: String)
    ensures
        r@ == session_uri(id@),
{
    concat("atc://session/", id)
}

pub fn parse_atc_session_uri(uri: &str) -> (r: Result<String, String>)
    ensures
        match dispatch_in_uri(uri@) {
            Some(id) => r matches Ok(d) && d@ == id,
            None => r matches Err(e) && e@ == "invalid atc session uri: "@ + uri@,
        },
{
    match strip_prefix(uri, "atc://session/") {
        Some(id) => if id.as_str().unicode_len() > 0 {
            Ok(id)
        } else {
            Err(concat("invalid atc session uri: ", uri))
        },
        None => Err(concat("invalid atc session uri: ", uri)),
    }
}

/// A name of a session leads back to its dispatch.
pub proof fn uri_names_its_dispatch(id: Seq<char>)
    requires
        id.len() > 0,
    ensures
        dispatch_in_uri(session_uri(id)) == Some(id),
{
    let p = "atc://session/"@;
    assert(session_uri(id).subrange(0, p.len() as int) =~= p);
    assert(session_uri(id).skip(p.len() as int) =~= id);
}

/// The result for a record.
pub fn open_session_result(
    target: &str,
    record: DispatchRecord,
    locator: Option<TerminalLocator>,
    terminal_status: TerminalStatus,
) -> (r: OpenSessionResult)
    ensures
        r.target@ == target@,
        r.dispatch_id@ == record.id@,
        r.uri@ == session_uri(record.id@),
        strmap::opt_view(r.task_slug) == strmap::opt_view(record.task_slug),
        r.session@ == match locator {
            Some(l) => l.session@,
            None => record.session@,
        },
        r.terminal_locator == locator,
        r.terminal_status == terminal_status,
        r.open_shell.previews(locator_view(locator), terminal_status),
{
    let open_shell = open_shell_preview(&locator, &terminal_status);
    let session = match &locator {
        Some(l) => l.session.clone(),
        None => record.session.clone(),
    };
    OpenSessionResult {
        target: target.to_owned(),
        uri: atc_session_uri(record.id.as_str()),
        task_slug: copy_opt(&record.task_slug),
        session,
        dispatch_id: record.id,
        terminal_locator: locator,
        terminal_status,
        open_shell,
    }
}

/// The session to attach to. Output that does not go to a terminal is refused.
pub fn attach_target(stdout_is_terminal: bool, result: &OpenSessionResult) -> (r: Result<
    String,
    String,
>)
    ensures
        if !stdout_is_terminal {
            r matches Err(e) && e@
                == "refusing to attach from a non-interactive stdout; use --json for a preview"@
        } else if !result.open_shell.enabled {
            r matches Err(e) && e@ == match result.open_shell.reason {
                Some(m) => m@,
                None => "open-session is unavailable"@,
            }
        } else {
            match result.terminal_locator {
                Some(l) => r matches Ok(s) && s@ == l.session@,
                None => r matches Err(e) && e@ == "no terminal locator"@,
            }
        },
{
    if !stdout_is_terminal {
        return Err(
            "refusing to attach from a non-interactive stdout; use --json for a preview".to_owned(),
        );
    }
    if !result.open_shell.enabled {
        return Err(
            match &result.open_shell.reason {
                Some(m) => m.clone(),
                None => "open-session is unavailable".to_owned(),
            },
        );
    }
    match &result.terminal_locator {
        Some(l) => Ok(l.session.clone()),
        None => Err("no terminal locator".to_owned()),
    }
}

/// What is looked for.
pub enum Target {
    /// Exactly this dispatch.
    Dispatch(String),
    /// A dispatch of that name, or else one of a task of that name.
    Any(String),
}

/// What a target on the command line stands for.
pub fn parse_target(target: &str) -> (r: Result<Target, String>)
    ensures
        ({
            let t = text::trimmed(target@);
            if t.len() == 0 {
                r matches Err(e) && e@ == "open-session target is required"@
            } else if text::starts(t, "atc://"@) {
                match dispatch_in_uri(t) {
                    Some(id) => r matches Ok(Target::Dispatch(d)) && d@ == id,
                    None => r matches Err(e) && e@ == "invalid atc session uri: "@ + t,
                }
            } else {
                r matches Ok(Target::Any(a)) && a@ == t
            }
        }),
{
    let t = trim(target);
    if t.as_str().unicode_len() == 0 {
        return Err("open-session target is required".to_owned());
    }
    if starts_with(t.as_str(), "atc://") {
        return match parse_atc_session_uri(t.as_str()) {
            Ok(id) => Ok(Target::Dispatch(id)),
            Err(e) => Err(e),
        };
    }
    Ok(Target::Any(t))
}

/// The error for a dispatch that is not there.
pub fn missing_message(id: &str) -> (r: String)
    ensures
        r@ == "no dispatch record found for id: "@ + id@,
{
    concat("no dispatch record found for id: ", id)
}

/// The records that are still at work.
pub open spec fn active(records: Seq<DispatchRecord>) -> Seq<DispatchRecord> {
    records.filter(|r: DispatchRecord| !r.status.ended())
}

fn retain_active(records: Vec<DispatchRecord>) -> (r: Vec<DispatchRecord>)
    ensures
        r@ == active(records@),
{
    let ghost all = records@;
    let ghost keep = |r: DispatchRecord| !r.status.ended();
    let mut rest = reversed(records);
    let mut kept: Vec<DispatchRecord> = Vec::new();
    proof {
        reveal(Seq::filter);
        assert(all.take(0) =~= Seq::empty());
    }
    while rest.len() > 0
        invariant
            rest@.len() <= all.len(),
            rest@ == all.reverse().take(rest@.len() as int),
            keep == (|r: DispatchRecord| !r.status.ended()),
            kept@ == all.take(all.len() - rest@.len()).filter(keep),
        decreases rest.len(),
    {
        let ghost n = rest@.len() as int;
        match rest.pop() {
            Some(record) => {
                proof {
                    reveal(Seq::filter);
                    let at = all.len() - n;
                    assert(rest@ =~= all.reverse().take(n - 1));
                    assert(record == all[at]);
                    assert(all.take(at + 1).drop_last() =~= all.take(at));
                    assert(all.take(at + 1).last() == record);
                }
                if !record.status.is_terminal() {
                    kept.push(record);
                }
            },
            None => {},
        }
    }
    proof {
        assert(all.take(all.len() as int) =~= all);
    }
    kept
}

/// The names of the records.
pub open spec fn ids(records: Seq<DispatchRecord>) -> Seq<Seq<char>> {
    records.map_values(|r: DispatchRecord| r.id@)
}

fn ids_of(records: &Vec<DispatchRecord>) -> (r: Vec<String>)
    ensures
        text::views(r@) == ids(records@),
{
    let mut out: Vec<String> = Vec::new();
    let mut i: usize = 0;
    proof {
        assert(text::views(out@) =~= ids(records@).take(0));
    }
    while i < records.len()
        invariant
            i <= records.len(),
            text::views(out@) == ids(records@).take(i as int),
        decreases records.len() - i,
    {
        let id = records[i].id.clone();
        proof {
            text::views_push(out@, id);
            assert(ids(records@).take(i + 1) =~= ids(records@).take(i as int).push(id@));
        }
        out.push(id);
        i += 1;
    }
    proof {
        assert(ids(records@).take(i as int) =~= ids(records@));
    }
    out
}

/// The one dispatch of a task that is at work; it is an error if there is none,
/// or more than one.
pub fn choose_active(records: Vec<DispatchRecord>, target: &str) -> (r: Result<
    DispatchRecord,
    String,
>)
    ensures
        ({
            let a = active(records@);
            if a.len() == 1 {
                r == Ok::<DispatchRecord, String>(a[0])
            } else if a.len() == 0 {
                r matches Err(e) && e@ == "no active dispatch found for task slug: "@ + target@
            } else {
                r matches Err(e) && e@ == "task slug "@ + target@
                    + " has multiple active dispatches: "@ + text::joined(ids(a), ", "@)
            }
        }),
{
    let mut kept = retain_active(records);
    if kept.len() > 1 {
        let mut e = concat("task slug ", target);
        push_str(&mut e, " has multiple active dispatches: ");
        let names = ids_of(&kept);
        push_str(&mut e, join(&names, ", ").as_str());
        return Err(e);
    }
    match kept.pop() {
        Some(record) => Ok(record),
        None => Err(concat("no active dispatch found for task slug: ", target)),
    }
}

/// What is said of a session that was attached to.
pub fn attached_message(session: &str) -> (r: String)
    ensures
        r@ == "attached to "@ + session@,
{
    concat("attached to ", session)
}

/// A terminal is where it was recorded to be. Where nothing was recorded, an agent
/// that can be attached to is in the session and the worktree of its record.
pub proof fn terminals_are_where_they_were_recorded(r: DispatchRecord, now: Timestamp)
    ensures
        r.terminal_locator matches Some(l) ==> {
            &&& locator_of(r, now) matches Some(at)
            &&& at.session == l.session@
            &&& at.recorded_at == l.recorded_at
            &&& at.inferred == l.inferred
        },
        r.terminal_locator is None && actions::capabilities(r).supports_tmux_attach
            && actions::has_session(r) ==> {
            &&& locator_of(r, now) matches Some(at)
            &&& at.session == r.session@
            &&& at.worktree_path == Some(r.worktree_path@)
            &&& at.recorded_at == now
            &&& at.inferred
        },
        r.terminal_locator is None && !(actions::capabilities(r).supports_tmux_attach
            && actions::has_session(r)) ==> locator_of(r, now) is None,
{
}

/// A session can be opened where it is known by a name that is not blank and its
/// terminal is there, and nowhere else. Opening hands its name to `tmux attach`
/// as it is; where it cannot be opened there is nothing to run, and a reason.
pub proof fn present_terminals_can_be_opened(
    p: OpenSessionPreview,
    locator: Option<LocatorView>,
    status: TerminalStatus,
)
    requires
        p.previews(locator, status),
    ensures
        p.enabled <==> (locator matches Some(l) && text::trimmed(l.session).len() > 0 && (
        match status.state {
            TerminalStatusState::Focusable
            | TerminalStatusState::Attached
            | TerminalStatusState::Detached
            | TerminalStatusState::Running => true,
            TerminalStatusState::Stale
            | TerminalStatusState::Unavailable
            | TerminalStatusState::Unknown => false,
        })),
        p.enabled <==> p.attach_command is Some,
        p.enabled <==> p.reason is None,
        p.attach_command matches Some(c) ==> {
            &&& c@.len() == 4
            &&& c@[0]@ == "tmux"@
            &&& c@[1]@ == "attach"@
            &&& c@[2]@ == "-t"@
            &&& c@[3]@ == locator->0.session
        },
        locator is None ==> strmap::opt_view(p.reason) == Some("no terminal locator"@),
        locator is Some && text::trimmed(locator->0.session).len() > 0 && !p.enabled ==> {
            &&& strmap::opt_view(p.backend) == Some("tmux"@)
            &&& status.reason is Some ==> strmap::opt_view(p.reason) == strmap::opt_view(
                status.reason,
            )
        },
{
    if p.attach_command is Some {
        let c = p.attach_command->0;
        let v = text::views(c@);
        assert(v == attach_args(locator->0.session));
        assert(v.len() == 4);
        assert(v[0] == c@[0]@ && v[1] == c@[1]@ && v[2] == c@[2]@ && v[3] == c@[3]@);
    }
}

/// Only the name of a session stands for a dispatch, and for the one it names.
pub proof fn only_session_names_stand_for_dispatches(uri: Seq<char>)
    ensures
        dispatch_in_uri(uri) matches Some(id) ==> id.len() > 0 && uri == "atc://session/"@ + id,
        dispatch_in_uri(uri) is None <==> forall|id: Seq<char>|
            id.len() > 0 ==> uri != #[trigger] session_uri(id),
{
    let p = "atc://session/"@;
    if let Some(id) = dispatch_in_uri(uri) {
        assert(uri.subrange(0, p.len() as int) == p);
        assert(uri =~= p + id);
        assert(uri == session_uri(id));
    } else {
        assert forall|id: Seq<char>| id.len() > 0 implies uri != #[trigger] session_uri(id) by {
            uri_names_its_dispatch(id);
        }
    }
}

/// The records at work are those that run or are about to run again, each of them.
pub proof fn active_records_run(records: Seq<DispatchRecord>, r: DispatchRecord)
    ensures
        active(records).contains(r) <==> records.contains(r) && (r.status == Status::Running
            || r.status == Status::Retrying),
        active(records).len() <= records.len(),
{
    let keep = |r: DispatchRecord| !r.status.ended();
    if active(records).contains(r) {
        let i = choose|i: int| 0 <= i < active(records).len() && active(records)[i] == r;
        records.lemma_filter_pred(keep, i);
        records.lemma_filter_contains_rev(keep, r);
    } else if records.contains(r) && keep(r) {
        let i = choose|i: int| 0 <= i < records.len() && records[i] == r;
        records.lemma_filter_contains(keep, i);
    }
    records.lemma_filter_len(keep);
}

} // verus!
