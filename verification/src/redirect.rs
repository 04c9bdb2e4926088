//! `atc redirect` - sends a message to the agent of a dispatch.

use vstd::prelude::*;
use crate::strmap;
use crate::text::{self, concat, push_str, write_i64};
use crate::types::{DispatchRecord, Status};

verus! {

/// What `tmux` answered.
pub enum TmuxAnswer {
    /// It ended with the exit code, if it had one.
    Exited(Option<i32>),
    /// It could not be waited for.
    Failed(String),
    TimedOut,
}

/// The warning for a dispatch that does not run: the message may not reach the
/// agent.
pub fn status_warning(record: &DispatchRecord) -> (r: Option<String>)
    ensures
        strmap::opt_view(r) == if record.status != Status::Running {
            Some(
                "warning: ["@ + record.id@ + "] status is '"@ + record.status.name()
                    + "', not 'running'"@,
            )
        } else {
            None
        },
{
    if record.status != Status::Running {
        let mut out = concat("warning: [", record.id.as_str());
        push_str(&mut out, "] status is '");
        push_str(&mut out, record.status.as_str());
        push_str(&mut out, "', not 'running'");
        Some(out)
    } else {
        None
    }
}

/// Why there is no session to send the message to, if there is none.
pub open spec fn session_error(session: Seq<char>, answer: TmuxAnswer) -> Option<Seq<char>> {
    match answer {
        TmuxAnswer::Exited(code) => if code == Some(0i32) {
            None
        } else {
            Some("No active tmux session: "@ + session)
        },
        TmuxAnswer::Failed(e) => Some("tmux has-session failed: "@ + e@),
        TmuxAnswer::TimedOut => Some("tmux has-session timed out after 10s"@),
    }
}

/// Judges what `tmux has-session` answered.
pub fn check_session(session: &str, answer: &TmuxAnswer) -> (r: Result<(), String>)
    ensures
        match session_error(session@, *answer) {
            None => r is Ok,
            Some(m) => r matches Err(e) && e@ == m,
        },
{
    match answer {
        TmuxAnswer::Exited(code) => match code {
            Some(c) => if *c == 0 {
                Ok(())
            } else {
                Err(concat("No active tmux session: ", session))
            },
            None => Err(concat("No active tmux session: ", session)),
        },
        TmuxAnswer::Failed(e) => Err(concat("tmux has-session failed: ", e.as_str())),
        TmuxAnswer::TimedOut => Err("tmux has-session timed out after 10s".to_owned()),
    }
}

/// An exit code as it is written in an error.
pub open spec fn code_text(code: Option<i32>) -> Seq<char> {
    match code {
        Some(c) => "Some("@ + text::decimal_int(c as int) + ")"@,
        None => "None"@,
    }
}

/// Why the message could not be sent, if it could not.
pub open spec fn send_error(answer: TmuxAnswer) -> Option<Seq<char>> {
    match answer {
        TmuxAnswer::Exited(code) => if code == Some(0i32) {
            None
        } else {
            Some("tmux send-keys failed (exit "@ + code_text(code) + ")"@)
        },
        TmuxAnswer::Failed(e) => Some(e@),
        TmuxAnswer::TimedOut => Some("tmux send-keys timed out after 10s"@),
    }
}

fn failed_send(code: Option<i32>) -> (r: String)
    ensures
        r@ == "tmux send-keys failed (exit "@ + code_text(code) + ")"@,
{
    let text = match code {
        Some(c) => {
            let mut t = concat("Some(", write_i64(c as i64).as_str());
            push_str(&mut t, ")");
            t
        },
        None => "None".to_owned(),
    };
    let mut out = concat("tmux send-keys failed (exit ", text.as_str());
    push_str(&mut out, ")");
    out
}

/// Judges what `tmux send-keys` answered.
pub fn check_send(answer: &TmuxAnswer) -> (r: Result<(), String>)
    ensures
        match send_error(*answer) {
            None => r is Ok,
            Some(m) => r matches Err(e) && e@ == m,
        },
{
    match answer {
        TmuxAnswer::Exited(code) => match code {
            Some(c) => if *c == 0 {
                Ok(())
            } else {
                Err(failed_send(Some(*c)))
            },
            None => Err(failed_send(None)),
        },
        TmuxAnswer::Failed(e) => Err(e.clone()),
        TmuxAnswer::TimedOut => Err("tmux send-keys timed out after 10s".to_owned()),
    }
}

/// What is said of a message that was sent.
pub fn redirected_message(record: &DispatchRecord) -> (r: String)
    ensures
        r@ == "["@ + record.id@ + "] redirected | session="@ + record.session@,
{
    let mut out = concat("[", record.id.as_str());
    push_str(&mut out, "] redirected | session=");
    push_str(&mut out, record.session.as_str());
    out
}

/// A message goes to a session where the question for it, and later the sending,
/// ends with code zero, and only there. Where it does not, what is reported names
/// the session, the failure or the time limit.
pub proof fn only_clean_exits_count(session: Seq<char>, code: Option<i32>, answer: TmuxAnswer)
    ensures
        session_error(session, answer) is None <==> answer == TmuxAnswer::Exited(Some(0i32)),
        send_error(answer) is None <==> answer == TmuxAnswer::Exited(Some(0i32)),
        code != Some(0i32) ==> text::ends(
            session_error(session, TmuxAnswer::Exited(code))->0,
            session,
        ),
        answer matches TmuxAnswer::Failed(e) ==> {
            &&& text::ends(session_error(session, answer)->0, e@)
            &&& send_error(answer) == Some(e@)
        },
        answer is TimedOut ==> session_error(session, answer) == Some(
            "tmux has-session timed out after 10s"@,
        ) && send_error(answer) == Some("tmux send-keys timed out after 10s"@),
{
    let all = "No active tmux session: "@ + session;
    assert(all.subrange(all.len() - session.len(), all.len() as int) =~= session);
    if let TmuxAnswer::Failed(e) = answer {
        let all = "tmux has-session failed: "@ + e@;
        assert(all.subrange(all.len() - e@.len(), all.len() as int) =~= e@);
    }
}

} // verus!
