//! `atc daemon` - drains queues and lets sources fill them.
//!
//! A [`Daemon`] is told what the last step brought, and whether it was asked to
//! stop, and answers with the next step. It does nothing itself.

use vstd::prelude::*;
use vstd::string::StrSliceExecFns;
use vstd::utf8::encode_utf8;
use crate::dispatch::list_contains;
use crate::enqueue::{self, build_board_args, build_ready_args, push_arg};
use crate::json::{self, text_at};
use crate::pipeline::inputs::copy_list;
use crate::queue::{self, skips, source_item, EnqueueItem, QueueInputType};
use crate::strmap;
use crate::text::{self, concat, join, lines, parse_i32, parse_u32, push_str, strip_prefix, trim, write_i64, write_u64};

verus! {

/// Options of the `daemon` command.
pub struct DaemonOpts {
    pub queues: Vec<String>,
    pub max_concurrent: usize,
    pub sources: Vec<String>,
    pub detach: bool,
}

/// The queues that are drained: those that are named, or the default one.
pub open spec fn queue_names(queues: Seq<Seq<char>>) -> Seq<Seq<char>> {
    if queues.len() == 0 {
        seq!["default"@]
    } else {
        queues
    }
}

pub fn effective_queues(queues: &Vec<String>) -> (r: Vec<String>)
    ensures
        text::views(r@) == queue_names(text::views(queues@)),
{
    proof {
        assert(text::views(queues@).len() == queues@.len());
    }
    if queues.len() == 0 {
        let r = vec!["default".to_owned()];
        proof {
            assert(text::views(r@) =~= seq!["default"@]);
        }
        r
    } else {
        copy_list(queues)
    }
}

/// What is said when the daemon starts.
pub fn banner(opts: &DaemonOpts) -> (r: String)
    ensures
        r@ == "Daemon running (queues: "@ + text::joined(
            queue_names(text::views(opts.queues@)),
            ", "@,
        ) + ", max_concurrent: "@ + text::decimal(opts.max_concurrent as nat) + ", sources: "@ + (
        if opts.sources@.len() == 0 {
            "none"@
        } else {
            text::joined(text::views(opts.sources@), ", "@)
        }) + ")"@,
{
    let queues = effective_queues(&opts.queues);
    let mut out = concat("Daemon running (queues: ", join(&queues, ", ").as_str());
    push_str(&mut out, ", max_concurrent: ");
    push_str(&mut out, write_u64(opts.max_concurrent as u64).as_str());
    push_str(&mut out, ", sources: ");
    if opts.sources.len() == 0 {
        push_str(&mut out, "none");
    } else {
        push_str(&mut out, join(&opts.sources, ", ").as_str());
    }
    push_str(&mut out, ")");
    out
}

/// How many more dispatches may run.
pub open spec fn free_slots(max_concurrent: usize, active: usize) -> usize {
    if active >= max_concurrent {
        0
    } else {
        (max_concurrent - active) as usize
    }
}

pub fn available_slots(max_concurrent: usize, active: usize) -> (r: usize)
    ensures
        r == free_slots(max_concurrent, active),
{
    if active >= max_concurrent {
        0
    } else {
        max_concurrent - active
    }
}

/// What is at work and what may be added come to the limit together; beyond the limit
/// nothing is added.
pub proof fn room_is_what_is_left(max_concurrent: usize, active: usize)
    ensures
        active <= max_concurrent ==> free_slots(max_concurrent, active) + active == max_concurrent,
        active > max_concurrent ==> free_slots(max_concurrent, active) == 0,
{
}

/// Which answer the daemon waits for. `queue` is the position of a queue, `slots`
/// counts the dispatches that may still be started in this round, and `left` the
/// items at hand that are still to be looked at.
#[derive(Clone, Copy, Debug, PartialEq, Eq, Structural)]
pub enum Phase {
    Count,
    Peek { queue: usize, slots: usize },
    Claim { queue: usize, slots: usize, left: usize },
    Dispatch { queue: usize, slots: usize, left: usize },
    Mark { queue: usize, slots: usize, left: usize },
    Wait,
    Sources,
    Linger,
    Over,
}

/// What the last step brought.
#[derive(Clone, Copy, Debug, PartialEq, Eq, Structural)]
pub enum Event {
    /// How many dispatches are at work.
    Active(usize),
    /// How many items are at hand.
    Items(usize),
    PeekFailed,
    /// Whether the item is ours, or someone else's.
    Claimed(bool),
    Dispatched,
    DispatchFailed,
    Marked,
    /// The wait is over.
    Woke,
    SourcesDone,
    /// Whether agents still run, and whether they were waited for long enough.
    Running { any: bool, timed_out: bool },
}

/// The next step. Items are taken in the order they came.
#[derive(Clone, Copy, Debug, PartialEq, Eq, Structural)]
pub enum Action {
    CountActive,
    /// Look at up to `limit` items of a queue.
    Peek { queue: usize, limit: usize },
    /// Claim the next item at hand.
    Claim,
    Dispatch,
    MarkDispatched,
    MarkFailed,
    /// Wait for the drain interval, or to be asked to stop.
    Wait,
    WaitForSources,
    CountRunning,
    /// Wait a second, then count again.
    PauseAndCount,
    /// The end. `abandoned` tells that agents still run.
    Finish { abandoned: bool },
}

#[derive(Clone, Copy, Debug, PartialEq, Eq, Structural)]
pub struct Daemon {
    pub queues: usize,
    pub max_concurrent: usize,
    pub phase: Phase,
}

/// The start of a round.
pub open spec fn round(stop: bool) -> (Phase, Action) {
    if stop {
        (Phase::Sources, Action::WaitForSources)
    } else {
        (Phase::Count, Action::CountActive)
    }
}

/// The turn of a queue, as long as something may still be started.
pub open spec fn turn(queues: usize, queue: int, slots: usize, stop: bool) -> (Phase, Action) {
    if queue >= queues || slots == 0 || stop {
        (Phase::Wait, Action::Wait)
    } else {
        (
            Phase::Peek { queue: queue as usize, slots },
            Action::Peek { queue: queue as usize, limit: slots },
        )
    }
}

/// The turn of an item.
pub open spec fn item_turn(
    queues: usize,
    queue: usize,
    slots: usize,
    left: int,
    stop: bool,
) -> (Phase, Action) {
    if left <= 0 || slots == 0 || stop {
        turn(queues, queue + 1, slots, stop)
    } else {
        (Phase::Claim { queue, slots, left: left as usize }, Action::Claim)
    }
}

/// The step that follows. An answer that was not asked for is a reason to wait.
pub open spec fn next(d: Daemon, event: Event, stop: bool) -> (Phase, Action) {
    match d.phase {
        Phase::Count => match event {
            Event::Active(n) => if free_slots(d.max_concurrent, n) > 0 {
                turn(d.queues, 0, free_slots(d.max_concurrent, n), stop)
            } else {
                (Phase::Wait, Action::Wait)
            },
            _ => (Phase::Wait, Action::Wait),
        },
        Phase::Peek { queue, slots } => match event {
            Event::Items(n) => item_turn(d.queues, queue, slots, n as int, stop),
            _ => turn(d.queues, queue + 1, slots, stop),
        },
        Phase::Claim { queue, slots, left } => if event == Event::Claimed(true) {
            (Phase::Dispatch { queue, slots: (slots - 1) as usize, left }, Action::Dispatch)
        } else {
            item_turn(d.queues, queue, slots, left - 1, stop)
        },
        Phase::Dispatch { queue, slots, left } => if event == Event::Dispatched {
            (Phase::Mark { queue, slots, left }, Action::MarkDispatched)
        } else {
            (Phase::Mark { queue, slots, left }, Action::MarkFailed)
        },
        Phase::Mark { queue, slots, left } => item_turn(d.queues, queue, slots, left - 1, stop),
        Phase::Wait => round(stop),
        Phase::Sources => (Phase::Linger, Action::CountRunning),
        Phase::Linger => match event {
            Event::Running { any, timed_out } => if !any || timed_out {
                (Phase::Over, Action::Finish { abandoned: any })
            } else {
                (Phase::Linger, Action::PauseAndCount)
            },
            _ => (Phase::Linger, Action::PauseAndCount),
        },
        Phase::Over => (Phase::Over, Action::Finish { abandoned: false }),
    }
}

fn take_turn(queues: usize, queue: usize, slots: usize, stop: bool) -> (r: (Phase, Action))
    ensures
        r == turn(queues, queue as int, slots, stop),
{
    if queue >= queues || slots == 0 || stop {
        (Phase::Wait, Action::Wait)
    } else {
        (Phase::Peek { queue, slots }, Action::Peek { queue, limit: slots })
    }
}

fn take_item_turn(queues: usize, queue: usize, slots: usize, left: usize, stop: bool) -> (r: (
    Phase,
    Action,
))
    requires
        queue < queues,
    ensures
        r == item_turn(queues, queue, slots, left as int, stop),
{
    if left == 0 || slots == 0 || stop {
        take_turn(queues, queue + 1, slots, stop)
    } else {
        (Phase::Claim { queue, slots, left }, Action::Claim)
    }
}

impl Daemon {
    /// Queues and items are counted properly.
    pub open spec fn wf(self) -> bool {
        match self.phase {
            Phase::Peek { queue, slots } => queue < self.queues && slots > 0,
            Phase::Claim { queue, slots, left } => queue < self.queues && slots > 0 && left > 0,
            Phase::Dispatch { queue, left, .. } => queue < self.queues && left > 0,
            Phase::Mark { queue, left, .. } => queue < self.queues && left > 0,
            _ => true,
        }
    }

    /// Starts a daemon that drains the given number of queues.
    pub fn start(queues: usize, max_concurrent: usize, stop: bool) -> (r: (Daemon, Action))
        ensures
            r.0.wf(),
            r.0.queues == queues,
            r.0.max_concurrent == max_concurrent,
            (r.0.phase, r.1) == round(stop),
    {
        if stop {
            (Daemon { queues, max_concurrent, phase: Phase::Sources }, Action::WaitForSources)
        } else {
            (Daemon { queues, max_concurrent, phase: Phase::Count }, Action::CountActive)
        }
    }

    /// Takes what the last step brought, and whether the daemon was asked to
    /// stop, and gives the next step.
    pub fn step(self, event: Event, stop: bool) -> (r: (Daemon, Action))
        requires
            self.wf(),
        ensures
            r.0.wf(),
            r.0.queues == self.queues,
            r.0.max_concurrent == self.max_concurrent,
            (r.0.phase, r.1) == next(self, event, stop),
    {
        let queues = self.queues;
        let (phase, action) = match self.phase {
            Phase::Count => match event {
                Event::Active(n) => {
                    let slots: usize = available_slots(self.max_concurrent, n);
                    if slots > 0 {
                        take_turn(queues, 0, slots, stop)
                    } else {
                        (Phase::Wait, Action::Wait)
                    }
                },
                _ => (Phase::Wait, Action::Wait),
            },
            Phase::Peek { queue, slots } => match event {
                Event::Items(n) => take_item_turn(queues, queue, slots, n, stop),
                _ => take_turn(queues, queue + 1, slots, stop),
            },
            Phase::Claim { queue, slots, left } => if event == Event::Claimed(true) {
                (Phase::Dispatch { queue, slots: slots - 1, left }, Action::Dispatch)
            } else {
                take_item_turn(queues, queue, slots, left - 1, stop)
            },
            Phase::Dispatch { queue, slots, left } => if event == Event::Dispatched {
                (Phase::Mark { queue, slots, left }, Action::MarkDispatched)
            } else {
                (Phase::Mark { queue, slots, left }, Action::MarkFailed)
            },
            Phase::Mark { queue, slots, left } => take_item_turn(
                queues,
                queue,
                slots,
                left - 1,
                stop,
            ),
            Phase::Wait => if stop {
                (Phase::Sources, Action::WaitForSources)
            } else {
                (Phase::Count, Action::CountActive)
            },
            Phase::Sources => (Phase::Linger, Action::CountRunning),
            Phase::Linger => match event {
                Event::Running { any, timed_out } => if !any || timed_out {
                    (Phase::Over, Action::Finish { abandoned: any })
                } else {
                    (Phase::Linger, Action::PauseAndCount)
                },
                _ => (Phase::Linger, Action::PauseAndCount),
            },
            Phase::Over => (Phase::Over, Action::Finish { abandoned: false }),
        };
        (Daemon { phase, ..self }, action)
    }
}

/// Once the daemon is asked to stop, it looks for no more work.
pub proof fn stopping_takes_no_more_work(d: Daemon, event: Event)
    requires
        d.wf(),
    ensures
        !(next(d, event, true).1 is Peek),
        next(d, event, true).1 != Action::Claim,
        next(d, event, true).1 != Action::CountActive,
{
}

/// An item is dispatched only if it was claimed.
pub proof fn only_claimed_items_are_dispatched(d: Daemon, event: Event, stop: bool)
    requires
        next(d, event, stop).1 == Action::Dispatch,
    ensures
        d.phase is Claim,
        event == Event::Claimed(true),
{
}

/// The daemon after the given answers, each with whether it was asked to stop, and
/// the steps it asked for.
pub open spec fn run(d: Daemon, answers: Seq<(Event, bool)>) -> (Daemon, Seq<Action>)
    decreases answers.len(),
{
    if answers.len() == 0 {
        (d, Seq::empty())
    } else {
        let (e, actions) = run(d, answers.drop_last());
        let (phase, action) = next(e, answers.last().0, answers.last().1);
        (Daemon { phase, ..e }, actions.push(action))
    }
}

/// How many dispatches are asked for.
pub open spec fn dispatches(actions: Seq<Action>) -> nat
    decreases actions.len(),
{
    if actions.len() == 0 {
        0
    } else {
        dispatches(actions.drop_last()) + if actions.last() == Action::Dispatch {
            1nat
        } else {
            0nat
        }
    }
}

/// How many dispatches the rest of the round may bring.
pub open spec fn slots_left(phase: Phase) -> int {
    match phase {
        Phase::Peek { slots, .. } => slots as int,
        Phase::Claim { slots, .. } => slots as int,
        Phase::Dispatch { slots, .. } => slots as int,
        Phase::Mark { slots, .. } => slots as int,
        _ => 0,
    }
}

proof fn step_keeps_the_limit(d: Daemon, event: Event, stop: bool)
    requires
        d.wf(),
        d.phase != Phase::Count,
    ensures
        (Daemon { phase: next(d, event, stop).0, ..d }).wf(),
        next(d, event, stop).1 != Action::CountActive ==> next(d, event, stop).0 != Phase::Count,
        slots_left(next(d, event, stop).0) + (if next(d, event, stop).1 == Action::Dispatch {
            1int
        } else {
            0int
        }) <= slots_left(d.phase),
{
}

/// The daemon from its start on: what it is after the given answers, and the steps it
/// asked for.
pub open spec fn history(
    queues: usize,
    max_concurrent: usize,
    stop: bool,
    answers: Seq<(Event, bool)>,
) -> (Daemon, Seq<Action>)
    decreases answers.len(),
{
    if answers.len() == 0 {
        (Daemon { queues, max_concurrent, phase: round(stop).0 }, seq![round(stop).1])
    } else {
        let (d, actions) = history(queues, max_concurrent, stop, answers.drop_last());
        let (phase, action) = next(d, answers.last().0, answers.last().1);
        (Daemon { phase, ..d }, actions.push(action))
    }
}

/// The step that is to be answered: the last one asked for.
pub open spec fn asked(
    queues: usize,
    max_concurrent: usize,
    stop: bool,
    answers: Seq<(Event, bool)>,
) -> Action {
    history(queues, max_concurrent, stop, answers).1.last()
}

/// How many items at hand are still to be dealt with, the present one among them.
pub open spec fn items_left(phase: Phase) -> int {
    match phase {
        Phase::Claim { left, .. } => left as int,
        Phase::Dispatch { left, .. } => left as int,
        Phase::Mark { left, .. } => left as int,
        _ => 0,
    }
}

/// The queue whose turn it is.
pub open spec fn queue_at(phase: Phase) -> int {
    match phase {
        Phase::Peek { queue, .. } => queue as int,
        Phase::Claim { queue, .. } => queue as int,
        Phase::Dispatch { queue, .. } => queue as int,
        Phase::Mark { queue, .. } => queue as int,
        _ => 0,
    }
}

spec fn fits(phase: Phase, action: Action) -> bool {
    match phase {
        Phase::Count => action == Action::CountActive,
        Phase::Peek { queue, slots } => action == (Action::Peek { queue, limit: slots }),
        Phase::Claim { .. } => action == Action::Claim,
        Phase::Dispatch { .. } => action == Action::Dispatch,
        Phase::Mark { .. } => action == Action::MarkDispatched || action == Action::MarkFailed,
        Phase::Wait => action == Action::Wait,
        Phase::Sources => action == Action::WaitForSources,
        Phase::Linger => action == Action::CountRunning || action == Action::PauseAndCount,
        Phase::Over => action is Finish,
    }
}

proof fn phase_fits(queues: usize, max_concurrent: usize, stop: bool, answers: Seq<(Event, bool)>)
    ensures
        ({
            let d = history(queues, max_concurrent, stop, answers).0;
            &&& d.wf()
            &&& d.queues == queues
            &&& d.max_concurrent == max_concurrent
            &&& fits(d.phase, asked(queues, max_concurrent, stop, answers))
        }),
    decreases answers.len(),
{
    if answers.len() > 0 {
        phase_fits(queues, max_concurrent, stop, answers.drop_last());
    }
}

proof fn one_more(
    queues: usize,
    max_concurrent: usize,
    stop: bool,
    answers: Seq<(Event, bool)>,
    event: Event,
    ends: bool,
)
    ensures
        ({
            let d = history(queues, max_concurrent, stop, answers).0;
            let more = answers.push((event, ends));
            &&& asked(queues, max_concurrent, stop, more) == next(d, event, ends).1
            &&& history(queues, max_concurrent, stop, more).0 == (Daemon {
                phase: next(d, event, ends).0,
                ..d
            })
        }),
{
    assert(answers.push((event, ends)).drop_last() =~= answers);
}

/// A round begins with counting what is at work, at the start and after every wait,
/// unless the daemon is to stop: then it waits for its sources.
pub proof fn rounds_begin_with_a_count(
    queues: usize,
    max_concurrent: usize,
    stop: bool,
    answers: Seq<(Event, bool)>,
    event: Event,
    ends: bool,
)
    ensures
        asked(queues, max_concurrent, stop, Seq::empty()) == if stop {
            Action::WaitForSources
        } else {
            Action::CountActive
        },
        asked(queues, max_concurrent, stop, answers) == Action::Wait ==> asked(
            queues,
            max_concurrent,
            stop,
            answers.push((event, ends)),
        ) == if ends {
            Action::WaitForSources
        } else {
            Action::CountActive
        },
{
    phase_fits(queues, max_concurrent, stop, answers);
    one_more(queues, max_concurrent, stop, answers, event, ends);
}

/// Where fewer dispatches are at work than may be, the first queue is asked for as many
/// items as there is room for; else the daemon waits.
pub proof fn free_room_is_used(
    queues: usize,
    max_concurrent: usize,
    stop: bool,
    answers: Seq<(Event, bool)>,
    event: Event,
    ends: bool,
)
    requires
        asked(queues, max_concurrent, stop, answers) == Action::CountActive,
    ensures
        ({
            let then = asked(queues, max_concurrent, stop, answers.push((event, ends)));
            match event {
                Event::Active(n) => if n < max_concurrent && queues > 0 && !ends {
                    then is Peek && then->queue == 0 && then->limit + n == max_concurrent
                } else {
                    then == Action::Wait
                },
                _ => then == Action::Wait,
            }
        }),
{
    phase_fits(queues, max_concurrent, stop, answers);
    one_more(queues, max_concurrent, stop, answers, event, ends);
}

/// A queue that has items gets its first one claimed. One that has none, or cannot be
/// looked at, makes way for the next queue, for which there is as much room; behind the
/// last queue the daemon waits.
pub proof fn queues_take_turns(
    queues: usize,
    max_concurrent: usize,
    stop: bool,
    answers: Seq<(Event, bool)>,
    event: Event,
    ends: bool,
)
    requires
        asked(queues, max_concurrent, stop, answers) is Peek,
    ensures
        ({
            let at = asked(queues, max_concurrent, stop, answers);
            let then = asked(queues, max_concurrent, stop, answers.push((event, ends)));
            if ends {
                then == Action::Wait
            } else if event is Items && event->Items_0 > 0 {
                then == Action::Claim
            } else if at->queue + 1 < queues {
                then is Peek && then->queue == at->queue + 1 && then->limit == at->limit
            } else {
                then == Action::Wait
            }
        }),
{
    phase_fits(queues, max_concurrent, stop, answers);
    one_more(queues, max_concurrent, stop, answers, event, ends);
}

/// A step asks for a dispatch exactly where an item was to be claimed and is ours. An
/// item is marked dispatched exactly where its dispatch succeeded, and failed exactly
/// where it did not.
pub proof fn items_are_marked_with_their_outcome(
    queues: usize,
    max_concurrent: usize,
    stop: bool,
    answers: Seq<(Event, bool)>,
    event: Event,
    ends: bool,
)
    ensures
        ({
            let at = asked(queues, max_concurrent, stop, answers);
            let then = asked(queues, max_concurrent, stop, answers.push((event, ends)));
            &&& then == Action::Dispatch <==> at == Action::Claim && event == Event::Claimed(true)
            &&& then == Action::MarkDispatched <==> at == Action::Dispatch && event
                == Event::Dispatched
            &&& then == Action::MarkFailed <==> at == Action::Dispatch && event
                != Event::Dispatched
        }),
{
    phase_fits(queues, max_concurrent, stop, answers);
    one_more(queues, max_concurrent, stop, answers, event, ends);
}

/// Once an item is dealt with, be it someone else's or marked, the next one at hand is
/// claimed, or else the next queue is asked, as long as there is room and the daemon is
/// not to stop.
pub proof fn items_are_dealt_with_in_turn(
    queues: usize,
    max_concurrent: usize,
    stop: bool,
    answers: Seq<(Event, bool)>,
    event: Event,
    ends: bool,
)
    requires
        ({
            let at = asked(queues, max_concurrent, stop, answers);
            (at == Action::Claim && event != Event::Claimed(true)) || at == Action::MarkDispatched
                || at == Action::MarkFailed
        }),
    ensures
        ({
            let phase = history(queues, max_concurrent, stop, answers).0.phase;
            let then = asked(queues, max_concurrent, stop, answers.push((event, ends)));
            if ends || slots_left(phase) == 0 {
                then == Action::Wait
            } else if items_left(phase) > 1 {
                then == Action::Claim
            } else if queue_at(phase) + 1 < queues {
                then is Peek && then->queue == queue_at(phase) + 1 && then->limit == slots_left(
                    phase,
                )
            } else {
                then == Action::Wait
            }
        }),
{
    phase_fits(queues, max_concurrent, stop, answers);
    one_more(queues, max_concurrent, stop, answers, event, ends);
}

/// The daemon counts right: a look at a queue brings as many items as it says, each item
/// dealt with is one less, each dispatch takes one from the room, and the queue stays the
/// same until another one is asked.
pub proof fn items_and_room_are_counted(
    queues: usize,
    max_concurrent: usize,
    stop: bool,
    answers: Seq<(Event, bool)>,
    event: Event,
    ends: bool,
)
    ensures
        ({
            let at = asked(queues, max_concurrent, stop, answers);
            let then = asked(queues, max_concurrent, stop, answers.push((event, ends)));
            let before = history(queues, max_concurrent, stop, answers).0.phase;
            let after = history(
                queues,
                max_concurrent,
                stop,
                answers.push((event, ends)),
            ).0.phase;
            &&& then is Peek ==> slots_left(after) == then->limit && queue_at(after) == then->queue
            &&& at is Peek && then == Action::Claim ==> items_left(after) == event->Items_0
                && slots_left(after) == slots_left(before) && queue_at(after) == queue_at(before)
            &&& then == Action::Dispatch ==> items_left(after) == items_left(before)
                && slots_left(after) + 1 == slots_left(before) && queue_at(after) == queue_at(
                before,
            )
            &&& then == Action::MarkDispatched || then == Action::MarkFailed ==> items_left(after)
                == items_left(before) && slots_left(after) == slots_left(before) && queue_at(after)
                == queue_at(before)
            &&& !(at is Peek) && then == Action::Claim ==> items_left(after) + 1 == items_left(
                before,
            ) && slots_left(after) == slots_left(before) && queue_at(after) == queue_at(before)
        }),
{
    phase_fits(queues, max_concurrent, stop, answers);
    one_more(queues, max_concurrent, stop, answers, event, ends);
}

/// A daemon that stops waits for its sources, then for its agents, until none runs or
/// the time is up, and tells whether it leaves some behind. It does that once, and
/// nothing more after it.
pub proof fn agents_are_waited_for(
    queues: usize,
    max_concurrent: usize,
    stop: bool,
    answers: Seq<(Event, bool)>,
    event: Event,
    ends: bool,
)
    ensures
        ({
            let at = asked(queues, max_concurrent, stop, answers);
            let then = asked(queues, max_concurrent, stop, answers.push((event, ends)));
            &&& at == Action::WaitForSources ==> then == Action::CountRunning
            &&& at == Action::CountRunning || at == Action::PauseAndCount ==> match event {
                Event::Running { any, timed_out } => if any && !timed_out {
                    then == Action::PauseAndCount
                } else {
                    then == (Action::Finish { abandoned: any })
                },
                _ => then == Action::PauseAndCount,
            }
            &&& at is Finish ==> then == (Action::Finish { abandoned: false })
        }),
{
    phase_fits(queues, max_concurrent, stop, answers);
    one_more(queues, max_concurrent, stop, answers, event, ends);
}

/// In a round, from counting the dispatches at work to counting them again, no more
/// are started over all queues together than there are free slots.
pub proof fn rounds_stay_within_the_limit(d: Daemon, active: usize, answers: Seq<(Event, bool)>)
    requires
        d.wf(),
        d.phase == Phase::Count,
        answers.len() > 0,
        answers[0].0 == Event::Active(active),
        !run(d, answers).1.contains(Action::CountActive),
    ensures
        dispatches(run(d, answers).1) <= free_slots(d.max_concurrent, active),
        active <= d.max_concurrent ==> active + dispatches(run(d, answers).1) <= d.max_concurrent,
{
    round_keeps_the_limit(d, active, answers);
}

proof fn round_keeps_the_limit(d: Daemon, active: usize, answers: Seq<(Event, bool)>)
    requires
        d.wf(),
        d.phase == Phase::Count,
        answers.len() > 0,
        answers[0].0 == Event::Active(active),
        !run(d, answers).1.contains(Action::CountActive),
    ensures
        ({
            let (e, actions) = run(d, answers);
            &&& e.wf()
            &&& e.phase != Phase::Count
            &&& e.max_concurrent == d.max_concurrent
            &&& dispatches(actions) + slots_left(e.phase) <= free_slots(d.max_concurrent, active)
        }),
    decreases answers.len(),
{
    let front = answers.drop_last();
    let (e, actions) = run(d, front);
    let (phase, action) = next(e, answers.last().0, answers.last().1);
    let all = actions.push(action);
    assert(all.drop_last() =~= actions);
    assert(all.last() == action);
    assert(all[all.len() - 1] == action);
    if answers.len() == 1 {
        assert(answers.last() == answers[0]);
        assert(dispatches(actions) == 0);
        assert(dispatches(all) == 0);
    } else {
        assert(!actions.contains(Action::CountActive)) by {
            if actions.contains(Action::CountActive) {
                let i = choose|i: int| 0 <= i < actions.len() && actions[i] == Action::CountActive;
                assert(all[i] == Action::CountActive);
            }
        }
        round_keeps_the_limit(d, active, front);
        step_keeps_the_limit(e, answers.last().0, answers.last().1);
    }
}

/// Something that fills a queue by itself.
pub enum SourceConfig {
    /// Tasks that are ready.
    Ready { poll_interval_secs: u64, limit: u32, queue: String },
    /// Tasks on the board, or in a saved view.
    Board {
        poll_interval_secs: u64,
        queue: String,
        filter_status: Vec<String>,
        require_unassigned: bool,
        require_unblocked: bool,
        view: Option<String>,
    },
    /// Tasks that changed.
    Events {
        poll_interval_secs: u64,
        queue: String,
        path: Option<String>,
        trigger_on_status: Vec<String>,
    },
    /// What a script prints.
    Script { poll_interval_secs: u64, queue: String, command: String },
}

impl SourceConfig {
    pub open spec fn interval(self) -> u64 {
        match self {
            SourceConfig::Ready { poll_interval_secs, .. } => poll_interval_secs,
            SourceConfig::Board { poll_interval_secs, .. } => poll_interval_secs,
            SourceConfig::Events { poll_interval_secs, .. } => poll_interval_secs,
            SourceConfig::Script { poll_interval_secs, .. } => poll_interval_secs,
        }
    }

    pub fn poll_interval_secs(&self) -> (r: u64)
        ensures
            r == self.interval(),
    {
        match self {
            SourceConfig::Ready { poll_interval_secs, .. } => *poll_interval_secs,
            SourceConfig::Board { poll_interval_secs, .. } => *poll_interval_secs,
            SourceConfig::Events { poll_interval_secs, .. } => *poll_interval_secs,
            SourceConfig::Script { poll_interval_secs, .. } => *poll_interval_secs,
        }
    }

    pub open spec fn queue_name(self) -> Seq<char> {
        match self {
            SourceConfig::Ready { queue, .. } => queue@,
            SourceConfig::Board { queue, .. } => queue@,
            SourceConfig::Events { queue, .. } => queue@,
            SourceConfig::Script { queue, .. } => queue@,
        }
    }

    pub fn queue(&self) -> (r: &str)
        ensures
            r@ == self.queue_name(),
    {
        match self {
            SourceConfig::Ready { queue, .. } => queue.as_str(),
            SourceConfig::Board { queue, .. } => queue.as_str(),
            SourceConfig::Events { queue, .. } => queue.as_str(),
            SourceConfig::Script { queue, .. } => queue.as_str(),
        }
    }
}

/// The source is the built-in one with the given name.
pub open spec fn is_builtin(c: SourceConfig, name: Seq<char>) -> bool {
    if name == "ready"@ {
        c matches SourceConfig::Ready { poll_interval_secs, limit, queue } && poll_interval_secs
            == 10 && limit == 3 && queue@ == "default"@
    } else if name == "board"@ {
        c matches SourceConfig::Board {
            poll_interval_secs,
            queue,
            filter_status,
            require_unassigned,
            require_unblocked,
            view,
        } && poll_interval_secs == 10 && queue@ == "default"@ && text::views(filter_status@)
            == seq!["ready"@] && require_unassigned && require_unblocked && view is None
    } else {
        &&& name == "events"@
        &&& (c matches SourceConfig::Events {
            poll_interval_secs,
            queue,
            path,
            trigger_on_status,
        } && poll_interval_secs == 5 && queue@ == "default"@ && strmap::opt_view(path) == Some(
            "tasks/"@,
        ) && text::views(trigger_on_status@) == seq!["ready"@])
    }
}

/// The built-in source with the given name, if there is one.
pub fn builtin_source(name: &str) -> (r: Option<SourceConfig>)
    ensures
        match r {
            Some(c) => is_builtin(c, name@),
            None => name@ != "ready"@ && name@ != "board"@ && name@ != "events"@,
        },
{
    let statuses = vec!["ready".to_owned()];
    proof {
        assert(text::views(statuses@) =~= seq!["ready"@]);
    }
    if text::same(name, "ready") {
        Some(
            SourceConfig::Ready { poll_interval_secs: 10, limit: 3, queue: "default".to_owned() },
        )
    } else if text::same(name, "board") {
        Some(
            SourceConfig::Board {
                poll_interval_secs: 10,
                queue: "default".to_owned(),
                filter_status: statuses,
                require_unassigned: true,
                require_unblocked: true,
                view: None,
            },
        )
    } else if text::same(name, "events") {
        Some(
            SourceConfig::Events {
                poll_interval_secs: 5,
                queue: "default".to_owned(),
                path: Some("tasks/".to_owned()),
                trigger_on_status: statuses,
            },
        )
    } else {
        None
    }
}

/// The program that a source runs, and its arguments.
pub open spec fn source_command(c: SourceConfig) -> (Seq<char>, Seq<Seq<char>>) {
    match c {
        SourceConfig::Ready { limit, .. } => ("git"@, enqueue::ready_args(limit)),
        SourceConfig::Board { filter_status, require_unassigned, require_unblocked, view, .. } => (
            "git"@,
            match view {
                Some(v) => seq!["kb"@, "view"@, v@, "--format"@, "slugs"@],
                None => enqueue::board_args(
                    text::views(filter_status@),
                    require_unblocked,
                    require_unassigned,
                ),
            },
        ),
        SourceConfig::Events { path, .. } => (
            "git"@,
            seq!["kb"@, "events"@, "--format"@, "json"@, "--since"@, "10s"@] + match path {
                Some(p) => seq!["--path"@, p@],
                None => Seq::empty(),
            },
        ),
        SourceConfig::Script { command, .. } => ("sh"@, seq!["-c"@, command@]),
    }
}

pub fn build_source_command(c: &SourceConfig) -> (r: (String, Vec<String>))
    ensures
        (r.0@, text::views(r.1@)) == source_command(*c),
{
    match c {
        SourceConfig::Ready { limit, .. } => ("git".to_owned(), build_ready_args(*limit)),
        SourceConfig::Board { filter_status, require_unassigned, require_unblocked, view, .. } => {
            let args = match view {
                Some(v) => {
                    let args = vec![
                        "kb".to_owned(),
                        "view".to_owned(),
                        v.clone(),
                        "--format".to_owned(),
                        "slugs".to_owned(),
                    ];
                    proof {
                        assert(text::views(args@) =~= seq![
                            "kb"@,
                            "view"@,
                            v@,
                            "--format"@,
                            "slugs"@,
                        ]);
                    }
                    args
                },
                None => build_board_args(filter_status, *require_unblocked, *require_unassigned),
            };
            ("git".to_owned(), args)
        },
        SourceConfig::Events { path, .. } => {
            let mut args = vec![
                "kb".to_owned(),
                "events".to_owned(),
                "--format".to_owned(),
                "json".to_owned(),
                "--since".to_owned(),
                "10s".to_owned(),
            ];
            if let Some(p) = path {
                push_arg(&mut args, "--path");
                push_arg(&mut args, p.as_str());
            }
            proof {
                assert(text::views(args@) =~= source_command(*c).1);
            }
            ("git".to_owned(), args)
        },
        SourceConfig::Script { command, .. } => {
            let args = vec!["-c".to_owned(), command.clone()];
            proof {
                assert(text::views(args@) =~= seq!["-c"@, command@]);
            }
            ("sh".to_owned(), args)
        },
    }
}

/// The error for a source whose program failed; a source of events is quiet.
pub fn source_error(c: &SourceConfig, stderr: &str) -> (r: Option<String>)
    ensures
        strmap::opt_view(r) == match *c {
            SourceConfig::Ready { .. } => Some(
                "git kb ready failed: "@ + text::trimmed(stderr@),
            ),
            SourceConfig::Board { .. } => Some("board source failed: "@ + text::trimmed(stderr@)),
            SourceConfig::Events { .. } => None,
            SourceConfig::Script { .. } => Some("script source failed: "@ + text::trimmed(stderr@)),
        },
{
    let said = trim(stderr);
    match c {
        SourceConfig::Ready { .. } => Some(concat("git kb ready failed: ", said.as_str())),
        SourceConfig::Board { .. } => Some(concat("board source failed: ", said.as_str())),
        SourceConfig::Events { .. } => None,
        SourceConfig::Script { .. } => Some(concat("script source failed: ", said.as_str())),
    }
}

/// Some work: its kind and text.
pub struct Work {
    pub kind: QueueInputType,
    pub value: Seq<char>,
}

/// The task that an event is about, if its status is one that is waited for.
pub open spec fn event_task(
    slug: Option<Seq<char>>,
    status: Option<Seq<char>>,
    triggers: Seq<Seq<char>>,
) -> Option<Seq<char>> {
    let status = match status {
        Some(s) => s,
        None => ""@,
    };
    if slug is Some && (triggers.len() == 0 || triggers.contains(status)) {
        slug
    } else {
        None
    }
}

/// The task that an event is about, given what was read of it.
pub fn task_of_event(slug: Option<String>, status: Option<String>, triggers: &Vec<String>) -> (r:
    Option<String>)
    ensures
        strmap::opt_view(r) == event_task(
            strmap::opt_view(slug),
            strmap::opt_view(status),
            text::views(triggers@),
        ),
{
    let status = match status {
        Some(s) => s,
        None => "".to_owned(),
    };
    proof {
        assert(text::views(triggers@).len() == triggers@.len());
    }
    if triggers.len() == 0 || list_contains(triggers, status.as_str()) {
        slug
    } else {
        None
    }
}

/// The work that a line of a script stands for: a task, unless it says that it
/// is a prompt.
pub open spec fn script_work(line: Seq<char>) -> Work {
    if text::starts(line, "task "@) {
        Work { kind: QueueInputType::Task, value: line.skip("task "@.len() as int) }
    } else if text::starts(line, "prompt "@) {
        Work { kind: QueueInputType::Prompt, value: line.skip("prompt "@.len() as int) }
    } else {
        Work { kind: QueueInputType::Task, value: line }
    }
}

pub fn parse_script_line(line: &str) -> (r: (QueueInputType, String))
    ensures
        (Work { kind: r.0, value: r.1@ }) == script_work(line@),
{
    match strip_prefix(line, "task ") {
        Some(rest) => (QueueInputType::Task, rest),
        None => match strip_prefix(line, "prompt ") {
            Some(rest) => (QueueInputType::Prompt, rest),
            None => (QueueInputType::Task, line.to_owned()),
        },
    }
}

/// The work that a line of output stands for, if any.
pub open spec fn line_work(c: SourceConfig, line: Seq<char>) -> Option<Work> {
    let trimmed = text::trimmed(line);
    match c {
        SourceConfig::Events { trigger_on_status, .. } => match event_task(
            json::json_text(encode_utf8(line), "/slug"@),
            json::json_text(encode_utf8(line), "/status"@),
            text::views(trigger_on_status@),
        ) {
            Some(slug) => Some(Work { kind: QueueInputType::Task, value: slug }),
            None => None,
        },
        SourceConfig::Script { .. } => if queue::is_skipped(trimmed) {
            None
        } else {
            Some(script_work(trimmed))
        },
        _ => if trimmed.len() == 0 {
            None
        } else {
            Some(Work { kind: QueueInputType::Task, value: trimmed })
        },
    }
}

fn read_line(c: &SourceConfig, line: &str) -> (r: Option<(QueueInputType, String)>)
    ensures
        match line_work(*c, line@) {
            Some(w) => r matches Some(p) && p.0 == w.kind && p.1@ == w.value,
            None => r is None,
        },
{
    let trimmed = trim(line);
    match c {
        SourceConfig::Events { trigger_on_status, .. } => {
            let bytes = line.as_bytes_vec();
            let slug = text_at(&bytes, "/slug");
            let status = text_at(&bytes, "/status");
            match task_of_event(slug, status, trigger_on_status) {
                Some(slug) => Some((QueueInputType::Task, slug)),
                None => None,
            }
        },
        SourceConfig::Script { .. } => if skips(trimmed.as_str()) {
            None
        } else {
            Some(parse_script_line(trimmed.as_str()))
        },
        _ => if trimmed.as_str().unicode_len() == 0 {
            None
        } else {
            Some((QueueInputType::Task, trimmed))
        },
    }
}

/// The work in the first `n` lines of output.
pub open spec fn work_in(c: SourceConfig, lines: Seq<Seq<char>>, n: int) -> Seq<Work>
    decreases n,
{
    if n <= 0 {
        Seq::empty()
    } else {
        match line_work(c, lines[n - 1]) {
            Some(w) => work_in(c, lines, n - 1).push(w),
            None => work_in(c, lines, n - 1),
        }
    }
}

/// The items are the given work, asked for by a source.
pub open spec fn are_items(
    items: Seq<EnqueueItem>,
    work: Seq<Work>,
    queue: Seq<char>,
    source: Seq<char>,
) -> bool {
    &&& items.len() == work.len()
    &&& forall|i: int|
        0 <= i < items.len() ==> queue::is_source_item(
            #[trigger] items[i],
            queue,
            source,
            work[i].kind,
            work[i].value,
        )
}

/// The items that a source asks for, given the output of its program.
pub fn source_items(name: &str, c: &SourceConfig, queue_name: &str, stdout: &str) -> (r: Vec<
    EnqueueItem,
>)
    ensures
        are_items(
            r@,
            work_in(*c, text::lines_of(stdout@), text::lines_of(stdout@).len() as int),
            queue_name@,
            name@,
        ),
{
    let all_lines = lines(stdout);
    let ghost all = text::lines_of(stdout@);
    let mut out: Vec<EnqueueItem> = Vec::new();
    let mut i: usize = 0;
    proof {
        assert(all.len() == all_lines@.len());
    }
    while i < all_lines.len()
        invariant
            i <= all_lines.len(),
            all == text::views(all_lines@),
            are_items(out@, work_in(*c, all, i as int), queue_name@, name@),
        decreases all_lines.len() - i,
    {
        proof {
            assert(all[i as int] == all_lines@[i as int]@);
        }
        let ghost before = out@;
        if let Some((kind, value)) = read_line(c, all_lines[i].as_str()) {
            out.push(source_item(queue_name, name, kind, value));
            proof {
                let work = work_in(*c, all, i + 1);
                assert forall|j: int| 0 <= j < out@.len() implies queue::is_source_item(
                    #[trigger] out@[j],
                    queue_name@,
                    name@,
                    work[j].kind,
                    work[j].value,
                ) by {
                    if j < before.len() {
                        assert(out@[j] == before[j]);
                    }
                }
            }
        }
        i += 1;
    }
    out
}

/// What the file with the daemon's process number says: the number, if the
/// file was read and holds one.
pub open spec fn pid_in(contents: Option<Seq<char>>) -> Option<u32> {
    match contents {
        Some(c) => text::as_u32(text::trimmed(c)),
        None => None,
    }
}

pub fn read_pid(contents: Option<&str>) -> (r: Option<u32>)
    ensures
        r == pid_in(
            match contents {
                Some(c) => Some(c@),
                None => None,
            },
        ),
{
    match contents {
        Some(c) => parse_u32(trim(c).as_str()),
        None => None,
    }
}

/// A second daemon is refused while the first one lives.
pub fn check_pid(pid: Option<u32>, alive: bool) -> (r: Result<(), String>)
    ensures
        match pid {
            Some(p) => if alive {
                r matches Err(e) && e@ == "daemon already running (PID "@ + text::decimal(p as nat)
                    + "). Use 'atc daemon stop' first."@
            } else {
                r is Ok
            },
            None => r is Ok,
        },
{
    match pid {
        Some(p) => if alive {
            let mut out = concat("daemon already running (PID ", write_u64(p as u64).as_str());
            push_str(&mut out, "). Use 'atc daemon stop' first.");
            Err(out)
        } else {
            Ok(())
        },
        None => Ok(()),
    }
}

/// The process to stop.
pub fn pid_to_stop(contents: &str, path: &str) -> (r: Result<i32, String>)
    ensures
        match text::as_i32(text::trimmed(contents@)) {
            Some(p) => r == Ok::<i32, String>(p),
            None => r matches Err(e) && e@ == "invalid PID in "@ + path@,
        },
{
    match parse_i32(trim(contents).as_str()) {
        Some(p) => Ok(p),
        None => Err(concat("invalid PID in ", path)),
    }
}

/// What is said after a daemon was told to stop: whether it could be told.
pub fn stop_message(pid: Option<i32>, signalled: bool) -> (r: String)
    ensures
        r@ == match pid {
            None => "No daemon running (PID file not found)."@,
            Some(p) => if signalled {
                "Sent SIGTERM to daemon (PID "@ + text::decimal_int(p as int) + ")."@
            } else {
                "Daemon not running (stale PID file cleaned up)."@
            },
        },
{
    match pid {
        None => "No daemon running (PID file not found).".to_owned(),
        Some(p) => if signalled {
            let mut out = concat("Sent SIGTERM to daemon (PID ", write_i64(p as i64).as_str());
            push_str(&mut out, ").");
            out
        } else {
            "Daemon not running (stale PID file cleaned up).".to_owned()
        },
    }
}

/// A line for a queue and the number of items that wait in it.
pub open spec fn depth_line(queue: Seq<char>, pending: u64) -> Seq<char> {
    "Queue '"@ + queue + "': "@ + text::decimal(pending as nat) + " pending"@
}

fn write_depth(queue: &str, pending: u64) -> (r: String)
    ensures
        r@ == depth_line(queue@, pending),
{
    let mut out = concat("Queue '", queue);
    push_str(&mut out, "': ");
    push_str(&mut out, write_u64(pending).as_str());
    push_str(&mut out, " pending");
    out
}

/// The lines above the queues. `pid` is the number in the file of a daemon that
/// lives.
pub open spec fn state_lines(running: bool, pid: Option<Seq<char>>) -> Seq<Seq<char>> {
    seq![
        "Daemon: "@ + if running {
            "running"@
        } else {
            "stopped"@
        },
    ] + match pid {
        Some(p) => if running {
            seq!["PID:    "@ + text::trimmed(p)]
        } else {
            Seq::empty()
        },
        None => Seq::empty(),
    }
}

/// The lines below the queues.
pub open spec fn load_lines(active: usize, max_concurrent: usize) -> Seq<Seq<char>> {
    seq![
        "Active dispatches: "@ + text::decimal(active as nat),
        "Max concurrent:    "@ + text::decimal(max_concurrent as nat),
        "Available slots:   "@ + text::decimal(free_slots(max_concurrent, active) as nat),
    ]
}

/// What `atc daemon status` prints. `depths` holds, for each queue, the number
/// of items that wait in it.
pub fn status_lines(
    running: bool,
    pid: Option<&str>,
    queues: &Vec<String>,
    depths: &Vec<u64>,
    active: usize,
    max_concurrent: usize,
) -> (r: Vec<String>)
    requires
        queues@.len() == depths@.len(),
    ensures
        text::views(r@) == state_lines(
            running,
            match pid {
                Some(p) => Some(p@),
                None => None,
            },
        ) + Seq::new(queues@.len(), |i: int| depth_line(queues@[i]@, depths@[i])) + load_lines(
            active,
            max_concurrent,
        ),
{
    let mut out: Vec<String> = vec![
        concat(
            "Daemon: ",
            if running {
                "running"
            } else {
                "stopped"
            },
        ),
    ];
    if let Some(p) = pid {
        if running {
            let line = concat("PID:    ", trim(p).as_str());
            out.push(line);
        }
    }
    let ghost head = state_lines(
        running,
        match pid {
            Some(p) => Some(p@),
            None => None,
        },
    );
    let ghost mid = Seq::new(queues@.len(), |i: int| depth_line(queues@[i]@, depths@[i]));
    proof {
        assert(text::views(out@) =~= head + mid.take(0));
    }
    let mut i: usize = 0;
    while i < queues.len()
        invariant
            i <= queues.len(),
            queues@.len() == depths@.len(),
            mid == Seq::new(queues@.len(), |i: int| depth_line(queues@[i]@, depths@[i])),
            text::views(out@) == head + mid.take(i as int),
        decreases queues.len() - i,
    {
        let line = write_depth(queues[i].as_str(), depths[i]);
        proof {
            text::views_push(out@, line);
            assert(head + mid.take(i + 1) =~= (head + mid.take(i as int)).push(line@));
        }
        out.push(line);
        i += 1;
    }
    let ghost listed = text::views(out@);
    proof {
        assert(mid.take(i as int) =~= mid);
    }
    out.push(concat("Active dispatches: ", write_u64(active as u64).as_str()));
    out.push(concat("Max concurrent:    ", write_u64(max_concurrent as u64).as_str()));
    let free: usize = available_slots(max_concurrent, active);
    out.push(concat("Available slots:   ", write_u64(free as u64).as_str()));
    proof {
        assert(text::views(out@) =~= listed + load_lines(active, max_concurrent));
    }
    out
}

/// An event brings its task exactly where it names one and its status is waited for; where
/// none is, every event brings its task.
pub proof fn events_bring_their_tasks(
    slug: Option<Seq<char>>,
    status: Option<Seq<char>>,
    triggers: Seq<Seq<char>>,
)
    ensures
        slug is None ==> event_task(slug, status, triggers) is None,
        triggers.len() == 0 ==> event_task(slug, status, triggers) == slug,
        triggers.len() > 0 && status is Some ==> event_task(slug, status, triggers) == (
        if triggers.contains(status->0) {
            slug
        } else {
            None
        }),
        triggers.len() > 0 && status is None && !triggers.contains(""@) ==> event_task(
            slug,
            status,
            triggers,
        ) is None,
{
}

/// A line of a script is a prompt where it says so, and a task otherwise, with or without
/// saying so. Blank lines and comments stand for nothing. A line of any other source but
/// events is a task, unless it is blank.
pub proof fn lines_bring_their_work(c: SourceConfig, line: Seq<char>)
    ensures
        ({
            let said = text::trimmed(line);
            let work = line_work(c, line);
            &&& c is Script && (said.len() == 0 || said[0] == '#') ==> work is None
            &&& c is Script && said.len() > 0 && said[0] != '#' ==> work is Some
            &&& c is Script && text::starts(said, "prompt "@) ==> work->0.kind
                == QueueInputType::Prompt && "prompt "@ + work->0.value == said
            &&& c is Script && text::starts(said, "task "@) ==> work->0.kind
                == QueueInputType::Task && "task "@ + work->0.value == said
            &&& c is Script && said.len() > 0 && said[0] != '#' && !text::starts(said, "task "@)
                && !text::starts(said, "prompt "@) ==> work->0.kind == QueueInputType::Task
                && work->0.value == said
            &&& c is Ready || c is Board ==> if said.len() == 0 {
                work is None
            } else {
                work is Some && work->0.kind == QueueInputType::Task && work->0.value == said
            }
        }),
{
    reveal_strlit("task ");
    reveal_strlit("prompt ");
    reveal_strlit("#");
    let said = text::trimmed(line);
    if text::starts(said, "task "@) {
        assert(said.subrange(0, 5)[0] == 't');
        assert("task "@ + said.skip(5) =~= said);
    }
    if text::starts(said, "prompt "@) {
        assert(said.subrange(0, 7)[0] == 'p');
        assert("prompt "@ + said.skip(7) =~= said);
    }
    if said.len() > 0 {
        assert(text::starts(said, "#"@) <==> said[0] == '#') by {
            if said[0] == '#' {
                assert(said.subrange(0, 1) =~= "#"@);
            } else {
                assert(said.subrange(0, 1)[0] == said[0]);
            }
        }
    }
}

/// The work of a source is that of its lines, one after the other: the work of more lines
/// is that of the first ones, followed by that of the others.
pub proof fn work_comes_line_by_line(
    c: SourceConfig,
    a: Seq<Seq<char>>,
    b: Seq<Seq<char>>,
    n: int,
)
    requires
        0 <= n <= b.len(),
    ensures
        work_in(c, a + b, a.len() + n) == work_in(c, a, a.len() as int) + work_in(c, b, n),
        work_in(c, a, 0) == Seq::<Work>::empty(),
        n == 1 ==> work_in(c, b, n) == match line_work(c, b[0]) {
            Some(w) => seq![w],
            None => Seq::empty(),
        },
    decreases n,
{
    if n > 0 {
        work_comes_line_by_line(c, a, b, n - 1);
        assert((a + b)[a.len() + n - 1] == b[n - 1]);
        let front = work_in(c, a, a.len() as int);
        match line_work(c, b[n - 1]) {
            Some(w) => {
                assert(front + work_in(c, b, n - 1).push(w) =~= (front + work_in(
                    c,
                    b,
                    n - 1,
                )).push(w));
                if n == 1 {
                    assert(work_in(c, b, 0).push(w) =~= seq![w]);
                }
            },
            None => {},
        }
    } else {
        same_lines_same_work(c, a + b, a, a.len() as int);
        assert(work_in(c, a, a.len() as int) + work_in(c, b, 0) =~= work_in(
            c,
            a,
            a.len() as int,
        ));
    }
}

proof fn same_lines_same_work(c: SourceConfig, a: Seq<Seq<char>>, b: Seq<Seq<char>>, n: int)
    requires
        n <= a.len(),
        n <= b.len(),
        forall|i: int| 0 <= i < n ==> a[i] == b[i],
    ensures
        work_in(c, a, n) == work_in(c, b, n),
    decreases n,
{
    if n > 0 {
        same_lines_same_work(c, a, b, n - 1);
    }
}

/// A script runs in a shell as it is written; events are asked for of the path that is
/// watched; a board with a view is asked for that view.
pub proof fn sources_run_what_they_say(c: SourceConfig)
    ensures
        ({
            let (program, args) = source_command(c);
            &&& c is Script <==> program == "sh"@
            &&& !(c is Script) ==> program == "git"@ && args[0] == "kb"@
            &&& c matches SourceConfig::Script { command, .. } ==> args.len() == 2 && args[0]
                == "-c"@ && args[1] == command@
            &&& c matches SourceConfig::Events { path, .. } ==> args.len() == (if path is Some {
                8int
            } else {
                6
            }) && args[1] == "events"@ && args[3] == "json"@ && args[4] == "--since"@ && args[5]
                == "10s"@ && (path is Some ==> args[6] == "--path"@ && args[7] == path->0@)
            &&& c matches SourceConfig::Board { view, .. } ==> (view is Some ==> args.len() == 5
                && args[1] == "view"@ && args[2] == view->0@ && args[4] == "slugs"@) && (view
                is None ==> args[1] == "list"@)
            &&& c matches SourceConfig::Ready { limit, .. } ==> args.len() == 6 && args[1]
                == "ready"@ && args[2] == "--limit"@ && args[3] == text::decimal(limit as nat)
                && args[5] == "slugs"@
        }),
{
    reveal_strlit("sh");
    reveal_strlit("git");
    assert("sh"@.len() != "git"@.len());
}

/// Where no queue is named, the default one is drained; else those that are named.
/// Each source has the interval and the queue that it was given.
pub proof fn sources_keep_their_settings(c: SourceConfig, queues: Seq<Seq<char>>)
    ensures
        queue_names(Seq::empty()) == seq!["default"@],
        queues.len() > 0 ==> queue_names(queues) == queues,
        c matches SourceConfig::Ready { poll_interval_secs, queue, .. } ==> c.interval()
            == poll_interval_secs && c.queue_name() == queue@,
        c matches SourceConfig::Board { poll_interval_secs, queue, .. } ==> c.interval()
            == poll_interval_secs && c.queue_name() == queue@,
        c matches SourceConfig::Events { poll_interval_secs, queue, .. } ==> c.interval()
            == poll_interval_secs && c.queue_name() == queue@,
        c matches SourceConfig::Script { poll_interval_secs, queue, .. } ==> c.interval()
            == poll_interval_secs && c.queue_name() == queue@,
{
}

/// The sources that come with the daemon fill the default queue, at intervals of some
/// seconds, each in its own way.
pub proof fn builtin_sources_fill_the_default_queue(c: SourceConfig, name: Seq<char>)
    requires
        is_builtin(c, name),
    ensures
        c.queue_name() == "default"@,
        0 < c.interval() <= 10,
        c is Ready <==> name == "ready"@,
        c is Board <==> name == "board"@,
        c is Events <==> name == "events"@,
        !(c is Script),
{
    reveal_strlit("ready");
    reveal_strlit("board");
    reveal_strlit("events");
    assert("ready"@[0] != "board"@[0]);
    assert("ready"@[0] != "events"@[0]);
    assert("board"@[0] != "events"@[0]);
}

/// The process number is read from the file as it was written there, with space
/// around it if need be; nothing is read where there is no file.
pub proof fn process_numbers_are_read_back(pid: u32, space: Seq<char>)
    requires
        forall|i: int| 0 <= i < space.len() ==> text::is_space(#[trigger] space[i]),
    ensures
        pid_in(None) is None,
        pid_in(Some(text::decimal(pid as nat) + space)) == Some(pid),
        pid_in(Some(space)) is None,
{
    let none = Seq::<char>::empty();
    let d = text::decimal(pid as nat);
    text::decimal_is_plain(pid as nat);
    text::trimming_takes_space_off(none, d, space);
    assert(none + d + space =~= d + space);
    text::numbers_are_read_back(pid as nat, 0);
    text::trimming_takes_space_off(space, none, none);
    assert(space + none + none =~= space);
}

/// The status tells whether the daemon runs and, where it does, as which process; and
/// how many dispatches are active, are allowed, and may still be started.
pub proof fn daemons_tell_their_load(
    running: bool,
    pid: Seq<char>,
    active: usize,
    max_concurrent: usize,
)
    ensures
        state_lines(true, Some(pid)) == seq![
            "Daemon: "@ + "running"@,
            "PID:    "@ + text::trimmed(pid),
        ],
        state_lines(true, None) == seq!["Daemon: "@ + "running"@],
        state_lines(false, Some(pid)) == seq!["Daemon: "@ + "stopped"@],
        state_lines(false, None) == seq!["Daemon: "@ + "stopped"@],
        load_lines(active, max_concurrent)[0] == "Active dispatches: "@ + text::decimal(
            active as nat,
        ),
        load_lines(active, max_concurrent)[1] == "Max concurrent:    "@ + text::decimal(
            max_concurrent as nat,
        ),
        active <= max_concurrent ==> load_lines(active, max_concurrent)[2]
            == "Available slots:   "@ + text::decimal((max_concurrent - active) as nat),
        active > max_concurrent ==> load_lines(active, max_concurrent)[2]
            == "Available slots:   "@ + text::decimal(0),
{
    assert(state_lines(true, Some(pid)) =~= seq![
        "Daemon: "@ + "running"@,
        "PID:    "@ + text::trimmed(pid),
    ]);
    assert(state_lines(true, None) =~= seq!["Daemon: "@ + "running"@]);
    assert(state_lines(false, Some(pid)) =~= seq!["Daemon: "@ + "stopped"@]);
    assert(state_lines(false, None) =~= seq!["Daemon: "@ + "stopped"@]);
}

} // verus!
