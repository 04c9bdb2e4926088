//! What can be done with a session, and why not.

use vstd::prelude::*;
use crate::strmap;
use crate::text::{self, trim};
use crate::types::{AgentCapabilities, DispatchRecord, RunOpts, Status};

verus! {

/// Whether an action can be taken, and the reason if it cannot.
pub struct ActionAvailability {
    pub enabled: bool,
    pub reason: Option<String>,
}

impl ActionAvailability {
    /// The action is available unless there is an obstacle, which is then the
    /// reason given.
    pub open spec fn says(self, obstacle: Option<Seq<char>>) -> bool {
        &&& self.enabled == (obstacle is None)
        &&& strmap::opt_view(self.reason) == obstacle
    }

    pub fn enabled() -> (r: ActionAvailability)
        ensures
            r.says(None),
    {
        ActionAvailability { enabled: true, reason: None }
    }

    pub fn disabled(reason: &str) -> (r: ActionAvailability)
        ensures
            r.says(Some(reason@)),
    {
        ActionAvailability { enabled: false, reason: Some(reason.to_owned()) }
    }
}

/// The actions on one session.
pub struct SessionActionState {
    pub info: ActionAvailability,
    pub logs: ActionAvailability,
    pub follow_logs: ActionAvailability,
    pub attach: ActionAvailability,
    pub redirect: ActionAvailability,
    pub resume: ActionAvailability,
    pub stop: ActionAvailability,
    pub cleanup: ActionAvailability,
}

/// What the agent can do; nothing if it is not known.
pub open spec fn capabilities(r: DispatchRecord) -> AgentCapabilities {
    match r.agent_capabilities {
        Some(c) => c,
        None => AgentCapabilities {
            supports_resume_by_session_id: false,
            supports_tmux_attach: false,
            supports_tmux_redirect: false,
        },
    }
}

pub fn capabilities_of(r: &DispatchRecord) -> (c: AgentCapabilities)
    ensures
        c == capabilities(*r),
{
    match r.agent_capabilities {
        Some(c) => c,
        None => AgentCapabilities {
            supports_resume_by_session_id: false,
            supports_tmux_attach: false,
            supports_tmux_redirect: false,
        },
    }
}

/// The record names a terminal session.
pub open spec fn has_session(r: DispatchRecord) -> bool {
    text::trimmed(r.session@).len() > 0
}

/// What stands in the way of reading the log.
pub open spec fn log_obstacle(log_readable: bool) -> Option<Seq<char>> {
    if log_readable {
        None
    } else {
        Some("log file missing or unreadable"@)
    }
}

/// What stands in the way of attaching to the session.
pub open spec fn attach_obstacle(r: DispatchRecord) -> Option<Seq<char>> {
    if !capabilities(r).supports_tmux_attach {
        Some("provider does not advertise tmux attach"@)
    } else if !has_session(r) {
        Some("missing ATC tmux session"@)
    } else {
        None
    }
}

/// What stands in the way of sending the agent a message.
pub open spec fn redirect_obstacle(r: DispatchRecord) -> Option<Seq<char>> {
    if r.status != Status::Running {
        Some("dispatch is not running"@)
    } else if !capabilities(r).supports_tmux_redirect {
        Some("provider does not advertise tmux redirect"@)
    } else if !has_session(r) {
        Some("missing ATC tmux session"@)
    } else {
        None
    }
}

/// What stands in the way of resuming the agent's session.
pub open spec fn resume_obstacle(r: DispatchRecord) -> Option<Seq<char>> {
    if !r.status.ended() {
        Some("provider session is still active"@)
    } else if !capabilities(r).supports_resume_by_session_id {
        Some("provider does not advertise resume by session id"@)
    } else if r.agent_session_id is None {
        Some("missing provider session id"@)
    } else if r.agent_transcript_cwd is None {
        Some("missing provider transcript cwd"@)
    } else {
        None
    }
}

/// What stands in the way of stopping the dispatch.
pub open spec fn stop_obstacle(r: DispatchRecord) -> Option<Seq<char>> {
    if r.status.ended() {
        Some("dispatch is already terminal"@)
    } else {
        None
    }
}

impl SessionActionState {
    /// The actions are those that the record allows.
    pub open spec fn is_of(self, r: DispatchRecord, log_readable: bool) -> bool {
        &&& self.info.says(None)
        &&& self.logs.says(log_obstacle(log_readable))
        &&& self.follow_logs.says(log_obstacle(log_readable))
        &&& self.attach.says(attach_obstacle(r))
        &&& self.redirect.says(redirect_obstacle(r))
        &&& self.resume.says(resume_obstacle(r))
        &&& self.stop.says(stop_obstacle(r))
        &&& self.cleanup.says(None)
    }
}

fn log_action(log_readable: bool) -> (r: ActionAvailability)
    ensures
        r.says(log_obstacle(log_readable)),
{
    if log_readable {
        ActionAvailability::enabled()
    } else {
        ActionAvailability::disabled("log file missing or unreadable")
    }
}

/// Which actions a record allows. `log_readable` tells whether its log file can
/// be opened.
pub fn action_state(record: &DispatchRecord, log_readable: bool) -> (r: SessionActionState)
    ensures
        r.is_of(*record, log_readable),
{
    let caps = capabilities_of(record);
    let named = trim(record.session.as_str()).as_str().unicode_len() > 0;
    let ended = record.status.is_terminal();
    let attach = if !caps.supports_tmux_attach {
        ActionAvailability::disabled("provider does not advertise tmux attach")
    } else if !named {
        ActionAvailability::disabled("missing ATC tmux session")
    } else {
        ActionAvailability::enabled()
    };
    let redirect = if record.status != Status::Running {
        ActionAvailability::disabled("dispatch is not running")
    } else if !caps.supports_tmux_redirect {
        ActionAvailability::disabled("provider does not advertise tmux redirect")
    } else if !named {
        ActionAvailability::disabled("missing ATC tmux session")
    } else {
        ActionAvailability::enabled()
    };
    let resume = if !ended {
        ActionAvailability::disabled("provider session is still active")
    } else if !caps.supports_resume_by_session_id {
        ActionAvailability::disabled("provider does not advertise resume by session id")
    } else if record.agent_session_id.is_none() {
        ActionAvailability::disabled("missing provider session id")
    } else if record.agent_transcript_cwd.is_none() {
        ActionAvailability::disabled("missing provider transcript cwd")
    } else {
        ActionAvailability::enabled()
    };
    let stop = if ended {
        ActionAvailability::disabled("dispatch is already terminal")
    } else {
        ActionAvailability::enabled()
    };
    SessionActionState {
        info: ActionAvailability::enabled(),
        logs: log_action(log_readable),
        follow_logs: log_action(log_readable),
        attach,
        redirect,
        resume,
        stop,
        cleanup: ActionAvailability::enabled(),
    }
}

/// A session is either running still, and can be stopped, or has ended, and
/// only then can be resumed: never both.
pub proof fn stop_excludes_resume(s: SessionActionState, r: DispatchRecord, log_readable: bool)
    requires
        s.is_of(r, log_readable),
    ensures
        s.stop.enabled != r.status.ended(),
        s.resume.enabled ==> !s.stop.enabled && !s.redirect.enabled,
{
}

/// The label of an action that is available.
pub open spec fn label_if(a: ActionAvailability, label: Seq<char>) -> Seq<Seq<char>> {
    if a.enabled {
        seq![label]
    } else {
        Seq::empty()
    }
}

/// The labels of what can be done with a session.
pub open spec fn labels(s: SessionActionState) -> Seq<Seq<char>> {
    seq!["info"@] + label_if(s.logs, "logs"@) + label_if(s.follow_logs, "follow"@) + label_if(
        s.attach,
        "attach"@,
    ) + label_if(s.redirect, "redirect"@) + label_if(s.resume, "resume"@) + label_if(
        s.stop,
        "stop"@,
    ) + label_if(s.cleanup, "cleanup"@)
}

fn push_label(out: &mut Vec<String>, a: &ActionAvailability, label: &str)
    ensures
        text::views(final(out)@) == text::views(old(out)@) + label_if(*a, label@),
{
    if a.enabled {
        let l = label.to_owned();
        proof {
            text::views_push(out@, l);
            assert(text::views(out@).push(l@) =~= text::views(out@) + seq![label@]);
        }
        out.push(l);
    } else {
        proof {
            assert(text::views(out@) + Seq::<Seq<char>>::empty() =~= text::views(out@));
        }
    }
}

/// The labels of the actions that are available, in the order they are shown.
pub fn enabled_action_labels(actions: &SessionActionState) -> (r: Vec<String>)
    ensures
        text::views(r@) == labels(*actions),
{
    let mut out = vec!["info".to_owned()];
    proof {
        assert(text::views(out@) =~= seq!["info"@]);
    }
    push_label(&mut out, &actions.logs, "logs");
    push_label(&mut out, &actions.follow_logs, "follow");
    push_label(&mut out, &actions.attach, "attach");
    push_label(&mut out, &actions.redirect, "redirect");
    push_label(&mut out, &actions.resume, "resume");
    push_label(&mut out, &actions.stop, "stop");
    push_label(&mut out, &actions.cleanup, "cleanup");
    out
}

/// The run that continues a session with a message.
pub fn resume_opts(source_id: &str, message: &str) -> (r: RunOpts)
    ensures
        strmap::opt_view(r.resume) == Some(source_id@),
        r.input@ == message@,
        r.directive is None,
        r.pr_url is None,
        (RunOpts { resume: None, ..r }).is_plain(),
{
    let mut opts = RunOpts::plain(message.to_owned(), None, None);
    opts.resume = Some(source_id.to_owned());
    opts
}

/// Each action is available exactly where it can be carried out: logs where they can be
/// read, attaching and redirecting where the agent allows it and there is a session, the
/// latter only while it runs, resuming where the session is over and the agent can find it
/// again, and stopping where it is not over. Looking and cleaning up always are.
pub proof fn actions_are_available_where_possible(
    s: SessionActionState,
    r: DispatchRecord,
    log_readable: bool,
)
    requires
        s.is_of(r, log_readable),
    ensures
        ({
            let caps = r.agent_capabilities;
            let at_work = r.status == Status::Running || r.status == Status::Retrying;
            let session = text::trimmed(r.session@).len() > 0;
            &&& s.info.enabled && s.cleanup.enabled
            &&& s.logs.enabled == log_readable && s.follow_logs.enabled == log_readable
            &&& s.attach.enabled <==> caps is Some && caps->0.supports_tmux_attach && session
            &&& s.redirect.enabled <==> r.status == Status::Running && caps is Some
                && caps->0.supports_tmux_redirect && session
            &&& s.resume.enabled <==> !at_work && caps is Some
                && caps->0.supports_resume_by_session_id && r.agent_session_id is Some
                && r.agent_transcript_cwd is Some
            &&& s.stop.enabled <==> at_work
            &&& s.info.reason is None && s.cleanup.reason is None
            &&& (s.logs.reason is None) == s.logs.enabled
            &&& (s.attach.reason is None) == s.attach.enabled
            &&& (s.redirect.reason is None) == s.redirect.enabled
            &&& (s.resume.reason is None) == s.resume.enabled
            &&& (s.stop.reason is None) == s.stop.enabled
        }),
{
}

} // verus!
