//! `atc close` - a dispatch is done: its session is ended, its task completed
//! and its worktree removed.
//!
//! A [`Close`] is told what the last step brought and answers with the next
//! step. It does nothing itself.

use vstd::prelude::*;
use crate::paths::{self, join_path};
use crate::terminal_text::{self, display_text};
use crate::text::{self, concat, push_str, same};
use crate::types::{DispatchRecord, Status};

verus! {

/// What is known before anything is done.
#[derive(Clone, Copy, Debug, PartialEq, Eq, Structural)]
pub struct CloseFacts {
    pub status: Status,
    /// A pull request was given on the command line.
    pub pr_given: bool,
    /// The resolver of the record is known by its name.
    pub resolver_known: bool,
    /// The record is that of a task.
    pub is_task: bool,
    pub has_slug: bool,
    /// The workspace of the knowledge base is known.
    pub kb_known: bool,
    /// The repository that the worktree belongs to is known.
    pub repo_known: bool,
}

/// Which answer is waited for.
#[derive(Clone, Copy, Debug, PartialEq, Eq, Structural)]
pub enum Phase {
    AddPr,
    Kill,
    MarkDone,
    Release,
    Siblings,
    Complete,
    Worktree,
    Sharers,
    Remove,
    RemoveParent,
    Over,
}

/// What the last step brought.
#[derive(Clone, Copy, Debug, PartialEq, Eq, Structural)]
pub enum Event {
    Done,
    Failed,
    /// Whether the session is known to be gone.
    Killed { confirmed: bool },
    /// Whether another dispatch of the task is still at work.
    Siblings { live: bool },
    Worktree { exists: bool },
    /// Whether another running dispatch uses the worktree.
    Sharers { any: bool },
}

/// The next step.
#[derive(Clone, Copy, Debug, PartialEq, Eq, Structural)]
pub enum Action {
    AddPr,
    Kill,
    /// Record the dispatch as done.
    MarkDone,
    /// Let the resolver give back what it claimed.
    Release,
    /// Look for other dispatches of the task.
    ListSiblings,
    /// Record the task as completed.
    Complete,
    LookAtWorktree,
    ListSharers,
    RemoveWorktree,
    /// Remove the directory of the worktree if it is empty and ours.
    RemoveParent,
    /// Say that the dispatch is closed.
    Report,
    /// Say that it was closed before.
    ReportAlready,
    /// The session may still be alive: give up, and leave all as it is.
    GiveUp,
    /// The step failed; its own error is reported.
    Fail,
}

#[derive(Clone, Copy, Debug, PartialEq, Eq, Structural)]
pub struct Close {
    pub facts: CloseFacts,
    pub phase: Phase,
}

/// The first step.
pub open spec fn first(facts: CloseFacts) -> (Phase, Action) {
    if facts.status == Status::Done {
        (Phase::Over, Action::ReportAlready)
    } else if facts.pr_given {
        (Phase::AddPr, Action::AddPr)
    } else {
        (Phase::Kill, Action::Kill)
    }
}

/// The step after the resolver: the task is completed only where it is known
/// what to complete.
pub open spec fn after_release(facts: CloseFacts) -> (Phase, Action) {
    if facts.is_task && facts.kb_known && facts.has_slug {
        (Phase::Siblings, Action::ListSiblings)
    } else {
        (Phase::Worktree, Action::LookAtWorktree)
    }
}

/// The step that follows.
pub open spec fn next(facts: CloseFacts, phase: Phase, event: Event) -> (Phase, Action) {
    match phase {
        Phase::AddPr => if event == Event::Done {
            (Phase::Kill, Action::Kill)
        } else {
            (Phase::Over, Action::Fail)
        },
        Phase::Kill => if event == (Event::Killed { confirmed: true }) || facts.status.ended() {
            (Phase::MarkDone, Action::MarkDone)
        } else {
            (Phase::Over, Action::GiveUp)
        },
        Phase::MarkDone => if event != Event::Done {
            (Phase::Over, Action::Fail)
        } else if facts.resolver_known {
            (Phase::Release, Action::Release)
        } else {
            after_release(facts)
        },
        Phase::Release => after_release(facts),
        Phase::Siblings => if event == (Event::Siblings { live: false }) {
            (Phase::Complete, Action::Complete)
        } else {
            (Phase::Worktree, Action::LookAtWorktree)
        },
        Phase::Complete => (Phase::Worktree, Action::LookAtWorktree),
        Phase::Worktree => if event == (Event::Worktree { exists: true }) {
            (Phase::Sharers, Action::ListSharers)
        } else {
            (Phase::Over, Action::Report)
        },
        Phase::Sharers => if event == (Event::Sharers { any: false }) {
            if facts.repo_known {
                (Phase::Remove, Action::RemoveWorktree)
            } else {
                (Phase::Over, Action::Report)
            }
        } else if event == (Event::Sharers { any: true }) {
            (Phase::Over, Action::Report)
        } else {
            (Phase::Over, Action::Fail)
        },
        Phase::Remove => if event == Event::Done {
            (Phase::RemoveParent, Action::RemoveParent)
        } else {
            (Phase::Over, Action::Report)
        },
        Phase::RemoveParent => (Phase::Over, Action::Report),
        Phase::Over => (Phase::Over, Action::Report),
    }
}

fn past_release(facts: CloseFacts) -> (r: (Phase, Action))
    ensures
        r == after_release(facts),
{
    if facts.is_task && facts.kb_known && facts.has_slug {
        (Phase::Siblings, Action::ListSiblings)
    } else {
        (Phase::Worktree, Action::LookAtWorktree)
    }
}

/// Begins to close a dispatch.
pub fn start(facts: CloseFacts) -> (r: (Close, Action))
    ensures
        r.0.facts == facts,
        (r.0.phase, r.1) == first(facts),
{
    let (phase, action) = if facts.status == Status::Done {
        (Phase::Over, Action::ReportAlready)
    } else if facts.pr_given {
        (Phase::AddPr, Action::AddPr)
    } else {
        (Phase::Kill, Action::Kill)
    };
    (Close { facts, phase }, action)
}

impl Close {
    /// Takes what the last step brought and gives the next one.
    pub fn step(self, event: Event) -> (r: (Close, Action))
        ensures
            r.0.facts == self.facts,
            (r.0.phase, r.1) == next(self.facts, self.phase, event),
    {
        let facts = self.facts;
        let done = event == Event::Done;
        let (phase, action) = match self.phase {
            Phase::AddPr => if done {
                (Phase::Kill, Action::Kill)
            } else {
                (Phase::Over, Action::Fail)
            },
            Phase::Kill => if event == (Event::Killed { confirmed: true })
                || facts.status.is_terminal() {
                (Phase::MarkDone, Action::MarkDone)
            } else {
                (Phase::Over, Action::GiveUp)
            },
            Phase::MarkDone => if !done {
                (Phase::Over, Action::Fail)
            } else if facts.resolver_known {
                (Phase::Release, Action::Release)
            } else {
                past_release(facts)
            },
            Phase::Release => past_release(facts),
            Phase::Siblings => if event == (Event::Siblings { live: false }) {
                (Phase::Complete, Action::Complete)
            } else {
                (Phase::Worktree, Action::LookAtWorktree)
            },
            Phase::Complete => (Phase::Worktree, Action::LookAtWorktree),
            Phase::Worktree => if event == (Event::Worktree { exists: true }) {
                (Phase::Sharers, Action::ListSharers)
            } else {
                (Phase::Over, Action::Report)
            },
            Phase::Sharers => if event == (Event::Sharers { any: false }) {
                if facts.repo_known {
                    (Phase::Remove, Action::RemoveWorktree)
                } else {
                    (Phase::Over, Action::Report)
                }
            } else if event == (Event::Sharers { any: true }) {
                (Phase::Over, Action::Report)
            } else {
                (Phase::Over, Action::Fail)
            },
            Phase::Remove => if done {
                (Phase::RemoveParent, Action::RemoveParent)
            } else {
                (Phase::Over, Action::Report)
            },
            Phase::RemoveParent => (Phase::Over, Action::Report),
            Phase::Over => (Phase::Over, Action::Report),
        };
        (Close { facts, phase }, action)
    }
}

/// How far a phase is from the end.
pub open spec fn distance(phase: Phase) -> nat {
    match phase {
        Phase::AddPr => 10,
        Phase::Kill => 9,
        Phase::MarkDone => 8,
        Phase::Release => 7,
        Phase::Siblings => 6,
        Phase::Complete => 5,
        Phase::Worktree => 4,
        Phase::Sharers => 3,
        Phase::Remove => 2,
        Phase::RemoveParent => 1,
        Phase::Over => 0,
    }
}

/// Every answer brings the end nearer.
pub proof fn closing_ends(facts: CloseFacts, phase: Phase, event: Event)
    requires
        phase != Phase::Over,
    ensures
        distance(next(facts, phase, event).0) < distance(phase),
{
}

/// A dispatch that is done is left alone: closing it again changes nothing.
pub proof fn closing_twice_changes_nothing(facts: CloseFacts)
    requires
        facts.status == Status::Done,
    ensures
        first(facts) == (Phase::Over, Action::ReportAlready),
{
}

/// A dispatch is recorded as done only if its session is known to be gone or it
/// had ended already.
pub proof fn live_sessions_stay_open(facts: CloseFacts, phase: Phase, event: Event)
    requires
        next(facts, phase, event).1 == Action::MarkDone,
    ensures
        phase == Phase::Kill,
        event == (Event::Killed { confirmed: true }) || facts.status.ended(),
{
}

/// A task is completed only if no other dispatch of it is at work.
pub proof fn shared_tasks_stay_open(facts: CloseFacts, phase: Phase, event: Event)
    requires
        next(facts, phase, event).1 == Action::Complete,
    ensures
        event == (Event::Siblings { live: false }),
{
}

/// A worktree is removed only if no other running dispatch uses it.
pub proof fn shared_worktrees_are_kept(facts: CloseFacts, phase: Phase, event: Event)
    requires
        next(facts, phase, event).1 == Action::RemoveWorktree,
    ensures
        event == (Event::Sharers { any: false }),
{
}

/// The closing of a dispatch: where it stands after the given answers, and the steps
/// that it asked for.
pub open spec fn history(facts: CloseFacts, events: Seq<Event>) -> (Phase, Seq<Action>)
    decreases events.len(),
{
    if events.len() == 0 {
        (first(facts).0, seq![first(facts).1])
    } else {
        let (phase, actions) = history(facts, events.drop_last());
        let (then, action) = next(facts, phase, events.last());
        (then, actions.push(action))
    }
}

/// The step that is to be answered: the last one asked for.
pub open spec fn asked(facts: CloseFacts, events: Seq<Event>) -> Action {
    history(facts, events).1.last()
}

/// A step after which nothing is waited for.
pub open spec fn is_end(a: Action) -> bool {
    a == Action::Report || a == Action::ReportAlready || a == Action::GiveUp || a == Action::Fail
}

spec fn fits(phase: Phase, action: Action) -> bool {
    match phase {
        Phase::AddPr => action == Action::AddPr,
        Phase::Kill => action == Action::Kill,
        Phase::MarkDone => action == Action::MarkDone,
        Phase::Release => action == Action::Release,
        Phase::Siblings => action == Action::ListSiblings,
        Phase::Complete => action == Action::Complete,
        Phase::Worktree => action == Action::LookAtWorktree,
        Phase::Sharers => action == Action::ListSharers,
        Phase::Remove => action == Action::RemoveWorktree,
        Phase::RemoveParent => action == Action::RemoveParent,
        Phase::Over => is_end(action),
    }
}

proof fn phase_fits(facts: CloseFacts, events: Seq<Event>)
    ensures
        fits(history(facts, events).0, asked(facts, events)),
    decreases events.len(),
{
    if events.len() > 0 {
        phase_fits(facts, events.drop_last());
    }
}

proof fn one_more(facts: CloseFacts, events: Seq<Event>, event: Event)
    ensures
        asked(facts, events.push(event)) == next(facts, history(facts, events).0, event).1,
        fits(history(facts, events).0, asked(facts, events)),
{
    phase_fits(facts, events);
    assert(events.push(event).drop_last() =~= events);
}

/// Closing begins with the pull request if one is given, and with ending the session if
/// not; a dispatch that is done is only reported.
pub proof fn closing_begins(facts: CloseFacts)
    ensures
        facts.status == Status::Done ==> asked(facts, Seq::empty()) == Action::ReportAlready,
        facts.status != Status::Done && facts.pr_given ==> asked(facts, Seq::empty())
            == Action::AddPr,
        facts.status != Status::Done && !facts.pr_given ==> asked(facts, Seq::empty())
            == Action::Kill,
{
}

/// A dispatch is recorded as done once its session is gone, or where it had ended
/// already; one that may still be at work is left as it is. A pull request or a record
/// that cannot be stored is an error.
pub proof fn sessions_end_before_the_record(facts: CloseFacts, events: Seq<Event>, event: Event)
    ensures
        ({
            let at = asked(facts, events);
            let then = asked(facts, events.push(event));
            &&& at == Action::AddPr ==> then == if event == Event::Done {
                Action::Kill
            } else {
                Action::Fail
            }
            &&& at == Action::Kill ==> if event == (Event::Killed { confirmed: true })
                || !(facts.status == Status::Running || facts.status == Status::Retrying) {
                then == Action::MarkDone
            } else {
                then == Action::GiveUp
            }
            &&& at == Action::MarkDone && event != Event::Done ==> then == Action::Fail
        }),
{
    one_more(facts, events, event);
}

/// Once a dispatch is recorded as done, its resolver gives back what it claimed, if it is
/// known. Then the task is completed exactly where the record is of a task, its slug and
/// knowledge base are known, and no other dispatch of it is reported to be at work.
pub proof fn tasks_are_completed(facts: CloseFacts, events: Seq<Event>, event: Event)
    ensures
        ({
            let at = asked(facts, events);
            let then = asked(facts, events.push(event));
            let recorded = at == Action::MarkDone && event == Event::Done;
            let released = at == Action::Release || (recorded && !facts.resolver_known);
            let completes = facts.is_task && facts.has_slug && facts.kb_known;
            &&& recorded && facts.resolver_known ==> then == Action::Release
            &&& released && completes ==> then == Action::ListSiblings
            &&& released && !completes ==> then == Action::LookAtWorktree
            &&& then == Action::Complete <==> at == Action::ListSiblings && event
                == (Event::Siblings { live: false })
            &&& at == Action::ListSiblings && event != (Event::Siblings { live: false }) ==> then
                == Action::LookAtWorktree
            &&& at == Action::Complete ==> then == Action::LookAtWorktree
        }),
{
    one_more(facts, events, event);
}

/// A worktree that is there is removed exactly where no other running dispatch uses it
/// and its repository is known; its directory goes with it. Whatever becomes of it, the
/// dispatch is then reported as closed, unless it is not known who uses the worktree.
pub proof fn worktrees_are_removed(facts: CloseFacts, events: Seq<Event>, event: Event)
    ensures
        ({
            let at = asked(facts, events);
            let then = asked(facts, events.push(event));
            &&& at == Action::LookAtWorktree ==> then == if event == (Event::Worktree {
                exists: true,
            }) {
                Action::ListSharers
            } else {
                Action::Report
            }
            &&& then == Action::RemoveWorktree <==> at == Action::ListSharers && event
                == (Event::Sharers { any: false }) && facts.repo_known
            &&& at == Action::ListSharers && event is Sharers && then != Action::RemoveWorktree
                ==> then == Action::Report
            &&& at == Action::ListSharers && !(event is Sharers) ==> then == Action::Fail
            &&& then == Action::RemoveParent <==> at == Action::RemoveWorktree && event
                == Event::Done
            &&& at == Action::RemoveWorktree && event != Event::Done ==> then == Action::Report
            &&& at == Action::RemoveParent ==> then == Action::Report
        }),
{
    one_more(facts, events, event);
}

proof fn completion_history(facts: CloseFacts, events: Seq<Event>)
    requires
        facts.is_task,
        facts.has_slug,
        facts.kb_known,
        facts.status != Status::Done,
        !exists|k: int|
            0 <= k < events.len() && asked(facts, events.take(k)) == Action::ListSiblings
                && #[trigger] events[k] != (Event::Siblings { live: false }),
    ensures
        ({
            let (phase, actions) = history(facts, events);
            phase == Phase::Worktree || phase == Phase::Sharers || phase == Phase::Remove || phase
                == Phase::RemoveParent || phase == Phase::Complete ==> actions.contains(
                Action::Complete,
            )
        }),
    decreases events.len(),
{
    if events.len() > 0 {
        let front = events.drop_last();
        assert forall|k: int|
            0 <= k < front.len() && asked(facts, front.take(k))
                == Action::ListSiblings implies #[trigger] front[k] == (Event::Siblings {
            live: false,
        }) by {
            assert(front.take(k) =~= events.take(k));
            assert(events[k] == front[k]);
        }
        completion_history(facts, front);
        phase_fits(facts, front);
        let (phase, actions) = history(facts, front);
        let all = history(facts, events).1;
        let then = next(facts, phase, events.last()).1;
        assert(all =~= actions.push(then));
        if actions.contains(Action::Complete) {
            let j = choose|j: int| 0 <= j < actions.len() && actions[j] == Action::Complete;
            assert(all[j] == Action::Complete);
        }
        if then == Action::Complete {
            assert(all[actions.len() as int] == Action::Complete);
        }
        if phase == Phase::Siblings {
            let k = front.len() as int;
            assert(events.take(k) =~= front);
            assert(events[k] == events.last());
        }
    }
}

/// Closing a dispatch of a task whose slug and knowledge base are known asks for the task
/// to be completed before it is reported, unless another dispatch of the task may be at
/// work.
pub proof fn closed_tasks_were_completed(facts: CloseFacts, events: Seq<Event>)
    requires
        facts.is_task,
        facts.has_slug,
        facts.kb_known,
        facts.status != Status::Done,
        events.len() > 0,
        !is_end(asked(facts, events.drop_last())),
        asked(facts, events) == Action::Report,
        !exists|k: int|
            0 <= k < events.len() && asked(facts, events.take(k)) == Action::ListSiblings
                && #[trigger] events[k] != (Event::Siblings { live: false }),
    ensures
        history(facts, events).1.contains(Action::Complete),
{
    let front = events.drop_last();
    phase_fits(facts, front);
    assert forall|k: int|
        0 <= k < front.len() && asked(facts, front.take(k))
            == Action::ListSiblings implies #[trigger] front[k] == (Event::Siblings {
        live: false,
    }) by {
        assert(front.take(k) =~= events.take(k));
        assert(events[k] == front[k]);
    }
    completion_history(facts, front);
    let actions = history(facts, front).1;
    let j = choose|j: int| 0 <= j < actions.len() && actions[j] == Action::Complete;
    assert(history(facts, events).1[j] == Action::Complete);
}

/// What is known of a record before it is closed.
pub fn close_facts(
    record: &DispatchRecord,
    pr_given: bool,
    resolver_known: bool,
    kb_known: bool,
    repo_known: bool,
) -> (r: CloseFacts)
    ensures
        r == (CloseFacts {
            status: record.status,
            pr_given,
            resolver_known,
            is_task: record.resolver@ == "task"@,
            has_slug: record.task_slug is Some,
            kb_known,
            repo_known,
        }),
{
    CloseFacts {
        status: record.status,
        pr_given,
        resolver_known,
        is_task: same(record.resolver.as_str(), "task"),
        has_slug: record.task_slug.is_some(),
        kb_known,
        repo_known,
    }
}

/// What is said of a record that was closed before.
pub fn already_message(id: &str) -> (r: String)
    ensures
        r@ == "["@ + terminal_text::escaped(id@) + "] already closed"@,
{
    let mut out = concat("[", display_text(id).as_str());
    push_str(&mut out, "] already closed");
    out
}

/// What is said where a session may still be alive.
pub open spec fn alive_text(session: Seq<char>) -> Seq<char> {
    "failed to confirm tmux session '"@ + session
        + "' was stopped; leaving dispatch state unchanged"@
}

/// The error for a session that may still be alive.
pub fn alive_message(session: &str) -> (r: String)
    ensures
        r@ == alive_text(terminal_text::escaped(session@)),
{
    let mut out = concat("failed to confirm tmux session '", display_text(session).as_str());
    push_str(&mut out, "' was stopped; leaving dispatch state unchanged");
    out
}

/// The pull request of a closed dispatch: the one that was given, or else the
/// first one known.
pub open spec fn closing_pr(given: Option<Seq<char>>, urls: Seq<Seq<char>>) -> Seq<char> {
    match given {
        Some(url) => url,
        None => if urls.len() > 0 {
            urls[0]
        } else {
            "none"@
        },
    }
}

/// What is said of a dispatch that was closed.
pub fn closed_message(record: &DispatchRecord, pr_url: Option<&str>) -> (r: String)
    ensures
        r@ == "["@ + terminal_text::escaped(
            match record.task_slug {
                Some(s) => s@,
                None => record.id@,
            },
        ) + "] closed | pr="@ + terminal_text::escaped(
            closing_pr(
                match pr_url {
                    Some(u) => Some(u@),
                    None => None,
                },
                text::views(record.pr_urls@),
            ),
        ),
{
    let pr = match pr_url {
        Some(u) => u,
        None => if record.pr_urls.len() > 0 {
            record.pr_urls[0].as_str()
        } else {
            "none"
        },
    };
    let slug = match &record.task_slug {
        Some(s) => s.as_str(),
        None => record.id.as_str(),
    };
    let mut out = concat("[", display_text(slug).as_str());
    push_str(&mut out, "] closed | pr=");
    push_str(&mut out, display_text(pr).as_str());
    out
}

/// The repository that worktrees are removed from: the configured one in the
/// workspace, where both are known.
pub fn derive_repo_root(meta_root: Option<&str>, repo: Option<&str>) -> (r: Option<String>)
    ensures
        match (meta_root, repo) {
            (Some(root), Some(repo)) => r matches Some(p) && p@ == paths::joined_path(
                root@,
                repo@,
            ),
            _ => r is None,
        },
{
    match (meta_root, repo) {
        (Some(root), Some(repo)) => Some(join_path(root, repo)),
        _ => None,
    }
}

/// The pull request that is given is taken, else the first that is known of.
pub proof fn given_pull_requests_come_first(given: Seq<char>, urls: Seq<Seq<char>>)
    ensures
        closing_pr(Some(given), urls) == given,
        urls.len() > 0 ==> closing_pr(None, urls) == urls[0],
        closing_pr(None, Seq::empty()) == "none"@,
{
}

} // verus!
