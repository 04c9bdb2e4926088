//! `atc stop` - the session of a dispatch is ended and its claims given back.

use vstd::prelude::*;
use crate::terminal_text::{self, display_text};
use crate::text::{concat, push_str};
use crate::types::{DispatchRecord, Status};

verus! {

/// What is done once ending the session was tried.
#[derive(Clone, Copy, Debug, PartialEq, Eq, Structural)]
pub enum StopPlan {
    /// The session may still be alive: give up, and leave all as it is.
    GiveUp,
    /// Go on. `mark` asks for the dispatch to be recorded as stopped, and
    /// `release` for the resolver to give back what it claimed.
    Go { mark: bool, release: bool },
}

/// A dispatch that has ended keeps its status; one that has not is stopped only
/// if its session is known to be gone.
pub open spec fn stop_plan(status: Status, killed: bool, resolver_known: bool) -> StopPlan {
    if !killed && !status.ended() {
        StopPlan::GiveUp
    } else {
        StopPlan::Go { mark: !status.ended(), release: resolver_known }
    }
}

/// Decides how to go on. `killed` tells whether the session is known to be
/// gone.
pub fn plan_stop(status: Status, killed: bool, resolver_known: bool) -> (r: StopPlan)
    ensures
        r == stop_plan(status, killed, resolver_known),
{
    if !killed && !status.is_terminal() {
        StopPlan::GiveUp
    } else {
        StopPlan::Go { mark: !status.is_terminal(), release: resolver_known }
    }
}

/// The status of a dispatch after it was stopped.
pub open spec fn stopped_status(status: Status, killed: bool, resolver_known: bool) -> Status {
    match stop_plan(status, killed, resolver_known) {
        StopPlan::Go { mark, .. } => if mark {
            Status::Stopped
        } else {
            status
        },
        StopPlan::GiveUp => status,
    }
}

/// Stopping twice is stopping once, and what has ended keeps its status.
pub proof fn stopping_keeps_what_has_ended(
    status: Status,
    killed: bool,
    resolver_known: bool,
    killed_again: bool,
)
    ensures
        status.ended() ==> stopped_status(status, killed, resolver_known) == status,
        killed ==> stopped_status(
            stopped_status(status, killed, resolver_known),
            killed_again,
            resolver_known,
        ) == stopped_status(status, killed, resolver_known),
{
}

/// A dispatch at work is given up on exactly where its session may still be alive. Else
/// stopping goes on: what was at work is recorded as stopped, what was not keeps its
/// status, and claims are given back exactly where the resolver is known.
pub proof fn stopping_is_exact(status: Status, killed: bool, resolver_known: bool)
    ensures
        ({
            let at_work = status == Status::Running || status == Status::Retrying;
            let plan = stop_plan(status, killed, resolver_known);
            &&& plan == StopPlan::GiveUp <==> at_work && !killed
            &&& plan matches StopPlan::Go { mark, release } ==> mark == at_work && release
                == resolver_known
            &&& at_work && killed ==> stopped_status(status, killed, resolver_known)
                == Status::Stopped
        }),
{
}

/// What is said of a dispatch that was stopped.
pub fn stopped_message(record: &DispatchRecord) -> (r: String)
    ensures
        r@ == "Stopped "@ + terminal_text::escaped(record.id@) + " (session: "@
            + terminal_text::escaped(record.session@) + ")"@,
{
    let mut out = concat("Stopped ", display_text(record.id.as_str()).as_str());
    push_str(&mut out, " (session: ");
    push_str(&mut out, display_text(record.session.as_str()).as_str());
    push_str(&mut out, ")");
    out
}

} // verus!
