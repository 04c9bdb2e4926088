//! `atc cleanup` - a dispatch is cleared away: its session ended, its worktree
//! removed and its claims given back.
//!
//! A [`Cleanup`] is told what the last step brought and answers with the next
//! step. It does nothing itself.

use vstd::prelude::*;
use crate::close;
use crate::text::{self, concat, push_str, write_u64};
use crate::types::Status;

verus! {

/// What the command is about.
#[derive(Clone, Copy, Debug, PartialEq, Eq, Structural)]
pub enum Target {
    /// One dispatch.
    One,
    /// All dispatches that are done.
    AllDone,
}

/// What the command is about; a name comes before `--done`.
pub fn choose_target(has_id: bool, done: bool) -> (r: Result<Target, String>)
    ensures
        if has_id {
            r == Ok::<Target, String>(Target::One)
        } else if done {
            r == Ok::<Target, String>(Target::AllDone)
        } else {
            r matches Err(e) && e@ == "either <id> or --done is required"@
        },
{
    if has_id {
        Ok(Target::One)
    } else if done {
        Ok(Target::AllDone)
    } else {
        Err("either <id> or --done is required".to_owned())
    }
}

/// What is known before anything is done.
#[derive(Clone, Copy, Debug, PartialEq, Eq, Structural)]
pub struct CleanupFacts {
    pub status: Status,
    /// The resolver of the record is known by its name.
    pub resolver_known: bool,
}

/// Which answer is waited for.
#[derive(Clone, Copy, Debug, PartialEq, Eq, Structural)]
pub enum Phase {
    Kill,
    Sharers { killed: bool },
    Remove,
    MarkStopped { removed: bool },
    Release { removed: bool },
    Over,
}

/// What the last step brought.
#[derive(Clone, Copy, Debug, PartialEq, Eq, Structural)]
pub enum Event {
    Done,
    Failed,
    /// Whether the session is known to be gone.
    Killed { confirmed: bool },
    /// Whether another running dispatch uses the worktree.
    Sharers { any: bool },
    /// Whether there was a worktree to remove.
    Removed { removed: bool },
}

/// The next step.
#[derive(Clone, Copy, Debug, PartialEq, Eq, Structural)]
pub enum Action {
    Kill,
    ListSharers,
    RemoveWorktree,
    /// Record the dispatch as stopped.
    MarkStopped,
    /// Let the resolver give back what it claimed.
    Release,
    /// The end, and whether the worktree was removed.
    Report { removed: bool },
    /// The session may still be alive: give up, and leave all as it is.
    GiveUp,
    /// The step failed; its own error is reported.
    Fail,
}

#[derive(Clone, Copy, Debug, PartialEq, Eq, Structural)]
pub struct Cleanup {
    pub facts: CleanupFacts,
    pub phase: Phase,
}

/// The step after the dispatch is recorded as stopped, if it had to be.
pub open spec fn after_mark(facts: CleanupFacts, removed: bool) -> (Phase, Action) {
    if facts.resolver_known {
        (Phase::Release { removed }, Action::Release)
    } else {
        (Phase::Over, Action::Report { removed })
    }
}

/// The step after the worktree was dealt with.
pub open spec fn after_worktree(facts: CleanupFacts, removed: bool) -> (Phase, Action) {
    if !facts.status.ended() {
        (Phase::MarkStopped { removed }, Action::MarkStopped)
    } else {
        after_mark(facts, removed)
    }
}

/// The step that follows.
pub open spec fn next(facts: CleanupFacts, phase: Phase, event: Event) -> (Phase, Action) {
    match phase {
        Phase::Kill => (
            Phase::Sharers { killed: event == (Event::Killed { confirmed: true }) },
            Action::ListSharers,
        ),
        Phase::Sharers { killed } => match event {
            Event::Sharers { any } => if !killed {
                if facts.status.ended() {
                    after_worktree(facts, false)
                } else {
                    (Phase::Over, Action::GiveUp)
                }
            } else if any {
                after_worktree(facts, false)
            } else {
                (Phase::Remove, Action::RemoveWorktree)
            },
            _ => (Phase::Over, Action::Fail),
        },
        Phase::Remove => match event {
            Event::Removed { removed } => after_worktree(facts, removed),
            _ => (Phase::Over, Action::Fail),
        },
        Phase::MarkStopped { removed } => if event == Event::Done {
            after_mark(facts, removed)
        } else {
            (Phase::Over, Action::Fail)
        },
        Phase::Release { removed } => (Phase::Over, Action::Report { removed }),
        Phase::Over => (Phase::Over, Action::Fail),
    }
}

fn past_mark(facts: CleanupFacts, removed: bool) -> (r: (Phase, Action))
    ensures
        r == after_mark(facts, removed),
{
    if facts.resolver_known {
        (Phase::Release { removed }, Action::Release)
    } else {
        (Phase::Over, Action::Report { removed })
    }
}

fn past_worktree(facts: CleanupFacts, removed: bool) -> (r: (Phase, Action))
    ensures
        r == after_worktree(facts, removed),
{
    if !facts.status.is_terminal() {
        (Phase::MarkStopped { removed }, Action::MarkStopped)
    } else {
        past_mark(facts, removed)
    }
}

/// Begins to clear a dispatch away.
pub fn start(facts: CleanupFacts) -> (r: (Cleanup, Action))
    ensures
        r.0 == (Cleanup { facts, phase: Phase::Kill }),
        r.1 == Action::Kill,
{
    (Cleanup { facts, phase: Phase::Kill }, Action::Kill)
}

impl Cleanup {
    /// Takes what the last step brought and gives the next one.
    pub fn step(self, event: Event) -> (r: (Cleanup, Action))
        ensures
            r.0.facts == self.facts,
            (r.0.phase, r.1) == next(self.facts, self.phase, event),
    {
        let facts = self.facts;
        let (phase, action) = match self.phase {
            Phase::Kill => {
                let killed = event == (Event::Killed { confirmed: true });
                (Phase::Sharers { killed }, Action::ListSharers)
            },
            Phase::Sharers { killed } => match event {
                Event::Sharers { any } => if !killed {
                    if facts.status.is_terminal() {
                        past_worktree(facts, false)
                    } else {
                        (Phase::Over, Action::GiveUp)
                    }
                } else if any {
                    past_worktree(facts, false)
                } else {
                    (Phase::Remove, Action::RemoveWorktree)
                },
                _ => (Phase::Over, Action::Fail),
            },
            Phase::Remove => match event {
                Event::Removed { removed } => past_worktree(facts, removed),
                _ => (Phase::Over, Action::Fail),
            },
            Phase::MarkStopped { removed } => if event == Event::Done {
                past_mark(facts, removed)
            } else {
                (Phase::Over, Action::Fail)
            },
            Phase::Release { removed } => (Phase::Over, Action::Report { removed }),
            Phase::Over => (Phase::Over, Action::Fail),
        };
        (Cleanup { facts, phase }, action)
    }
}

/// The state after the given answers.
pub open spec fn after(facts: CleanupFacts, events: Seq<Event>) -> (Phase, Action)
    decreases events.len(),
{
    if events.len() == 0 {
        (Phase::Kill, Action::Kill)
    } else {
        next(facts, after(facts, events.drop_last()).0, events.last())
    }
}

/// A worktree is removed only if the session is known to be gone and no other
/// running dispatch uses it.
pub proof fn worktree_removal_is_safe(facts: CleanupFacts, events: Seq<Event>)
    requires
        after(facts, events).1 == Action::RemoveWorktree,
    ensures
        events.len() == 2,
        events[0] == (Event::Killed { confirmed: true }),
        events[1] == (Event::Sharers { any: false }),
{
    let before = after(facts, events.drop_last());
    killed_means_confirmed(facts, events.drop_last());
}

proof fn killed_means_confirmed(facts: CleanupFacts, events: Seq<Event>)
    ensures
        after(facts, events).0 == (Phase::Sharers { killed: true }) ==> events.len() == 1
            && events[0] == (Event::Killed { confirmed: true }),
        after(facts, events).0 == Phase::Kill ==> events.len() == 0,
    decreases events.len(),
{
    if events.len() > 0 {
        killed_means_confirmed(facts, events.drop_last());
    }
}

/// A dispatch that runs is left alone unless its session is known to be gone.
pub proof fn live_dispatches_are_kept(facts: CleanupFacts, event: Event)
    requires
        !facts.status.ended(),
    ensures
        next(facts, Phase::Sharers { killed: false }, event).1 == Action::GiveUp || next(
            facts,
            Phase::Sharers { killed: false },
            event,
        ).1 == Action::Fail,
{
}

/// A dispatch that has ended keeps its status.
pub proof fn ended_dispatches_keep_their_status(facts: CleanupFacts, phase: Phase, event: Event)
    requires
        facts.status.ended(),
    ensures
        next(facts, phase, event).1 != Action::MarkStopped,
{
}

/// The step that is to be answered: the last one asked for.
pub open spec fn asked(facts: CleanupFacts, events: Seq<Event>) -> Action {
    after(facts, events).1
}

/// Whether the answers say that the session is gone.
pub open spec fn session_gone(events: Seq<Event>) -> bool {
    events.len() > 0 && events[0] == (Event::Killed { confirmed: true })
}

/// Whether the answers say that the worktree was removed.
pub open spec fn worktree_removed(facts: CleanupFacts, events: Seq<Event>) -> bool {
    exists|k: int|
        0 <= k < events.len() && asked(facts, events.take(k)) == Action::RemoveWorktree
            && #[trigger] events[k] == (Event::Removed { removed: true })
}

spec fn fits(phase: Phase, action: Action) -> bool {
    match phase {
        Phase::Kill => action == Action::Kill,
        Phase::Sharers { .. } => action == Action::ListSharers,
        Phase::Remove => action == Action::RemoveWorktree,
        Phase::MarkStopped { .. } => action == Action::MarkStopped,
        Phase::Release { .. } => action == Action::Release,
        Phase::Over => action is Report || action == Action::GiveUp || action == Action::Fail,
    }
}

spec fn removed_in(phase: Phase, action: Action) -> bool {
    match phase {
        Phase::MarkStopped { removed } => removed,
        Phase::Release { removed } => removed,
        Phase::Over => action == (Action::Report { removed: true }),
        _ => false,
    }
}

proof fn phase_fits(facts: CleanupFacts, events: Seq<Event>)
    ensures
        ({
            let (phase, action) = after(facts, events);
            &&& fits(phase, action)
            &&& phase == Phase::Kill <==> events.len() == 0
            &&& phase is Sharers ==> events.len() == 1 && phase->killed == session_gone(events)
            &&& phase is Remove ==> session_gone(events)
            &&& phase != Phase::Over || action is Report ==> removed_in(phase, action)
                == worktree_removed(facts, events)
        }),
    decreases events.len(),
{
    if events.len() > 0 {
        let front = events.drop_last();
        phase_fits(facts, front);
        let (phase, action) = after(facts, front);
        let k = front.len() as int;
        assert(events.take(k) =~= front);
        assert(events[k] == events.last());
        assert forall|j: int| 0 <= j < front.len() implies events.take(j) == front.take(j)
            && #[trigger] events[j] == front[j] by {
            assert(events.take(j) =~= front.take(j));
        }
        if worktree_removed(facts, front) {
            let j = choose|j: int|
                0 <= j < front.len() && asked(facts, front.take(j)) == Action::RemoveWorktree
                    && #[trigger] front[j] == (Event::Removed { removed: true });
            assert(events[j] == front[j]);
        }
        if worktree_removed(facts, events) {
            let j = choose|j: int|
                0 <= j < events.len() && asked(facts, events.take(j)) == Action::RemoveWorktree
                    && #[trigger] events[j] == (Event::Removed { removed: true });
            if j < front.len() {
                assert(front[j] == events[j]);
                assert(worktree_removed(facts, front));
            }
        }
    }
}

/// Clearing away begins with ending the session and goes on to who uses the worktree.
pub proof fn sessions_are_ended_first(facts: CleanupFacts, event: Event)
    ensures
        asked(facts, Seq::empty()) == Action::Kill,
        asked(facts, seq![event]) == Action::ListSharers,
{
    assert(seq![event].drop_last() =~= Seq::<Event>::empty());
    assert(after(facts, seq![event].drop_last()) == (Phase::Kill, Action::Kill));
}

/// Once it is known who uses the worktree it is removed exactly where the session is gone
/// and nobody else uses it; a dispatch at work whose session may be alive is left as it
/// is, and where it is not known who uses the worktree that is an error.
pub proof fn unused_worktrees_are_removed(facts: CleanupFacts, events: Seq<Event>, event: Event)
    ensures
        ({
            let at = asked(facts, events);
            let then = asked(facts, events.push(event));
            let at_work = facts.status == Status::Running || facts.status == Status::Retrying;
            &&& then == Action::RemoveWorktree <==> at == Action::ListSharers && session_gone(
                events,
            ) && event == (Event::Sharers { any: false })
            &&& then == Action::GiveUp <==> at == Action::ListSharers && !session_gone(events)
                && at_work && event is Sharers
            &&& at == Action::ListSharers && !(event is Sharers) ==> then == Action::Fail
            &&& at == Action::RemoveWorktree && !(event is Removed) ==> then == Action::Fail
            &&& at == Action::MarkStopped && event != Event::Done ==> then == Action::Fail
        }),
{
    assert(events.push(event).drop_last() =~= events);
    phase_fits(facts, events);
}

/// With the worktree dealt with, a dispatch that was at work is recorded as stopped, then
/// its resolver gives back what it claimed, if it is known, and then it is reported. No
/// step is left out and none is added.
pub proof fn dispatches_are_stopped_and_released(
    facts: CleanupFacts,
    events: Seq<Event>,
    event: Event,
)
    ensures
        ({
            let at = asked(facts, events);
            let then = asked(facts, events.push(event));
            let at_work = facts.status == Status::Running || facts.status == Status::Retrying;
            let kept = at == Action::ListSharers && event is Sharers && then
                != Action::RemoveWorktree && then != Action::GiveUp;
            let dealt_with = kept || (at == Action::RemoveWorktree && event is Removed);
            let recorded = (dealt_with && !at_work) || (at == Action::MarkStopped && event
                == Event::Done);
            &&& then == Action::MarkStopped <==> dealt_with && at_work
            &&& then == Action::Release <==> recorded && facts.resolver_known
            &&& then is Report <==> at == Action::Release || (recorded && !facts.resolver_known)
        }),
{
    assert(events.push(event).drop_last() =~= events);
    phase_fits(facts, events);
}

/// What is reported is what the step that removes the worktree answered; where there was
/// no such step, nothing was removed.
pub proof fn reports_are_true(facts: CleanupFacts, events: Seq<Event>)
    requires
        asked(facts, events) is Report,
    ensures
        asked(facts, events)->removed == worktree_removed(facts, events),
{
    phase_fits(facts, events);
}

/// The error for a session that may still be alive.
pub fn alive_message(session: &str) -> (r: String)
    ensures
        r@ == close::alive_text(session@),
{
    let mut out = concat("failed to confirm tmux session '", session);
    push_str(&mut out, "' was stopped; leaving dispatch state unchanged");
    out
}

/// What is said of one dispatch that was cleared away.
pub fn cleaned_message(arg: &str, removed: bool) -> (r: String)
    ensures
        r@ == "Cleaned "@ + arg@ + " (worktree removed: "@ + (if removed {
            "true"@
        } else {
            "false"@
        }) + ")"@,
{
    let mut out = concat("Cleaned ", arg);
    push_str(&mut out, " (worktree removed: ");
    push_str(
        &mut out,
        if removed {
            "true"
        } else {
            "false"
        },
    );
    push_str(&mut out, ")");
    out
}

/// How many of the attempts succeeded.
pub open spec fn successes(outcomes: Seq<bool>) -> nat
    decreases outcomes.len(),
{
    if outcomes.len() == 0 {
        0
    } else {
        successes(outcomes.drop_last()) + if outcomes.last() {
            1nat
        } else {
            0nat
        }
    }
}

/// What is said after all that is done was cleared away, given how each attempt
/// went.
pub open spec fn batch_text(outcomes: Seq<bool>) -> Seq<char> {
    if outcomes.len() == 0 {
        "No done dispatches to clean up"@
    } else {
        let cleaned = successes(outcomes);
        let failed = outcomes.len() - cleaned;
        "Cleaned "@ + text::decimal(cleaned) + " dispatches"@ + if failed > 0 {
            " ("@ + text::decimal(failed as nat)
                + " failed \u{2014} run with RUST_LOG=warn for details)"@
        } else {
            ""@
        }
    }
}

proof fn successes_bound(outcomes: Seq<bool>)
    ensures
        successes(outcomes) <= outcomes.len(),
    decreases outcomes.len(),
{
    if outcomes.len() > 0 {
        successes_bound(outcomes.drop_last());
    }
}

pub fn batch_message(outcomes: &Vec<bool>) -> (r: String)
    ensures
        r@ == batch_text(outcomes@),
{
    if outcomes.len() == 0 {
        return "No done dispatches to clean up".to_owned();
    }
    let mut cleaned: usize = 0;
    let mut i: usize = 0;
    while i < outcomes.len()
        invariant
            i <= outcomes.len(),
            cleaned <= i,
            cleaned == successes(outcomes@.take(i as int)),
        decreases outcomes.len() - i,
    {
        proof {
            assert(outcomes@.take(i + 1).drop_last() =~= outcomes@.take(i as int));
        }
        if outcomes[i] {
            cleaned += 1;
        }
        i += 1;
    }
    proof {
        assert(outcomes@.take(i as int) =~= outcomes@);
        successes_bound(outcomes@);
    }
    let failed: usize = outcomes.len() - cleaned;
    let mut out = concat("Cleaned ", write_u64(cleaned as u64).as_str());
    push_str(&mut out, " dispatches");
    if failed > 0 {
        let mut tail = concat(" (", write_u64(failed as u64).as_str());
        push_str(&mut tail, " failed \u{2014} run with RUST_LOG=warn for details)");
        push_str(&mut out, tail.as_str());
    } else {
        push_str(&mut out, "");
    }
    out
}

/// The attempts that succeeded are counted one by one, in whatever order they came.
pub proof fn successes_are_counted(a: Seq<bool>, b: Seq<bool>)
    ensures
        successes(a + b) == successes(a) + successes(b),
        successes(a) <= a.len(),
        successes(seq![true]) == 1,
        successes(seq![false]) == 0,
    decreases b.len(), a.len(),
{
    reveal_with_fuel(successes, 2);
    assert(seq![true].drop_last() =~= Seq::<bool>::empty());
    assert(seq![false].drop_last() =~= Seq::<bool>::empty());
    if a.len() > 0 {
        at_most_all_succeed(a);
    }
    if b.len() == 0 {
        assert(a + b =~= a);
    } else {
        assert((a + b).drop_last() =~= a + b.drop_last());
        assert((a + b).last() == b.last());
        successes_are_counted(a, b.drop_last());
    }
}

proof fn at_most_all_succeed(a: Seq<bool>)
    ensures
        successes(a) <= a.len(),
    decreases a.len(),
{
    if a.len() > 0 {
        at_most_all_succeed(a.drop_last());
    }
}

/// After all that is done was cleared away, it is told how many were, and how many
/// were not if there are any.
pub proof fn batches_are_reported(outcomes: Seq<bool>)
    ensures
        batch_text(Seq::empty()) == "No done dispatches to clean up"@,
        outcomes.len() > 0 ==> text::starts(
            batch_text(outcomes),
            "Cleaned "@ + text::decimal(successes(outcomes)) + " dispatches"@,
        ),
        outcomes.len() > 0 && successes(outcomes) == outcomes.len() ==> batch_text(outcomes)
            == "Cleaned "@ + text::decimal(outcomes.len()) + " dispatches"@,
        successes(outcomes) < outcomes.len() ==> text::occurs(
            batch_text(outcomes),
            "("@ + text::decimal((outcomes.len() - successes(outcomes)) as nat) + " failed"@,
        ),
{
    reveal_strlit("");
    reveal_strlit("(");
    reveal_strlit(" (");
    reveal_strlit(" failed");
    reveal_strlit(" failed \u{2014} run with RUST_LOG=warn for details)");
    let all = batch_text(outcomes);
    let head = "Cleaned "@ + text::decimal(successes(outcomes)) + " dispatches"@;
    if outcomes.len() > 0 {
        assert(all.subrange(0, head.len() as int) =~= head);
        if successes(outcomes) == outcomes.len() {
            assert(head + ""@ =~= head);
        }
    }
    if successes(outcomes) < outcomes.len() {
        let p = "("@ + text::decimal((outcomes.len() - successes(outcomes)) as nat) + " failed"@;
        let k = head.len() as int + 1;
        assert(all.subrange(k, k + p.len()) =~= p);
        assert(text::occurs_at(all, k, p));
    }
}

} // verus!
