//! What became of the helper programs that were run.

use vstd::prelude::*;

verus! {

/// How a helper program ended.
#[derive(Clone, Copy, Debug, PartialEq, Eq, Structural)]
pub enum Ran {
    /// It came to an end, and whether with success.
    Exited { success: bool },
    TimedOut,
    /// It could not be started, or not be waited for.
    NotRun,
}

/// A session counts as gone once `tmux` has answered: it was ended, or was not
/// there. Without an answer it may still be alive.
pub open spec fn gone(ran: Ran) -> bool {
    ran is Exited
}

/// Whether ending a terminal session is confirmed.
pub fn is_session_gone(ran: Ran) -> (r: bool)
    ensures
        r == gone(ran),
{
    match ran {
        Ran::Exited { .. } => true,
        Ran::TimedOut => false,
        Ran::NotRun => false,
    }
}

/// Whether a helper did what it was asked for.
pub fn is_done(ran: Ran) -> (r: bool)
    ensures
        r == (ran == Ran::Exited { success: true }),
{
    match ran {
        Ran::Exited { success } => success,
        _ => false,
    }
}

/// A session may still be alive exactly where `tmux` gave no answer, be it that it took too
/// long or that it could not be run.
pub proof fn sessions_without_an_answer_may_live(ran: Ran)
    ensures
        !gone(ran) <==> ran == Ran::TimedOut || ran == Ran::NotRun,
{
}

} // verus!
