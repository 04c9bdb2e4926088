//! `atc queue` - shows, drains and clears dispatch queues.

use vstd::prelude::*;
use crate::queue::{self, directive_of, load_params, Priority, QueueInputType, QueueRow};
use crate::strmap;
use crate::text::{
    self, concat, cut_bytes, pad_right, push_str, repeat_char, same, take_chars, write_u64,
};
use crate::types::RunOpts;

verus! {

/// Four cells at fixed places, and one behind them.
pub open spec fn queue_columns(
    a: Seq<char>,
    b: Seq<char>,
    c: Seq<char>,
    d: Seq<char>,
    e: Seq<char>,
) -> Seq<char> {
    text::padded_right(a, ' ', 24) + " "@ + text::padded_right(b, ' ', 10) + " "@
        + text::padded_right(c, ' ', 10) + " "@ + text::padded_right(d, ' ', 8) + " "@ + e
}

fn write_queue_columns(a: &str, b: &str, c: &str, d: &str, e: &str) -> (r: String)
    ensures
        r@ == queue_columns(a@, b@, c@, d@, e@),
{
    let mut out = pad_right(a, ' ', 24);
    push_str(&mut out, " ");
    push_str(&mut out, pad_right(b, ' ', 10).as_str());
    push_str(&mut out, " ");
    push_str(&mut out, pad_right(c, ' ', 10).as_str());
    push_str(&mut out, " ");
    push_str(&mut out, pad_right(d, ' ', 8).as_str());
    push_str(&mut out, " ");
    push_str(&mut out, e);
    out
}

/// An input as it is listed: a long one is cut.
pub open spec fn listed_input(s: Seq<char>) -> Seq<char> {
    if s.len() > 40 {
        s.take(37) + "..."@
    } else {
        s
    }
}

fn list_input(s: &str) -> (r: String)
    ensures
        r@ == listed_input(s@),
{
    if s.unicode_len() > 40 {
        let head = take_chars(s, 37);
        concat(head.as_str(), "...")
    } else {
        s.to_owned()
    }
}

/// The name of a priority, if it is known.
pub open spec fn priority_text(p: Option<Priority>) -> Seq<char> {
    match p {
        Some(p) => p.name(),
        None => "unknown"@,
    }
}

/// The name of an item is cut for the list after this many bytes.
pub open spec fn listed_id_bytes() -> nat {
    24
}

/// The name of the item can be cut for the list.
pub open spec fn is_listable(row: QueueRow) -> bool {
    exists|p: Seq<char>| text::byte_prefix(row.id@, listed_id_bytes(), p)
}

/// The line is that of the item.
pub open spec fn is_line_of(line: Seq<char>, row: QueueRow) -> bool {
    exists|id: Seq<char>|
        #![trigger text::byte_prefix(row.id@, listed_id_bytes(), id)]
        text::byte_prefix(row.id@, listed_id_bytes(), id) && line == queue_columns(
            id,
            row.input_type.name(),
            priority_text(row.priority),
            row.status@,
            listed_input(row.input_value@),
        )
}

/// The line of an item; nothing where its name cannot be cut.
pub fn list_line(row: &QueueRow) -> (r: Option<String>)
    ensures
        r is Some <==> is_listable(*row),
        r matches Some(line) ==> is_line_of(line@, *row),
{
    match cut_bytes(row.id.as_str(), 24) {
        None => None,
        Some(id) => {
            let priority = match row.priority {
                Some(p) => p.as_str(),
                None => "unknown",
            };
            let input = list_input(row.input_value.as_str());
            proof {
                assert(text::byte_prefix(row.id@, listed_id_bytes(), id@));
            }
            Some(
                write_queue_columns(
                    id.as_str(),
                    row.input_type.as_str(),
                    priority,
                    row.status.as_str(),
                    input.as_str(),
                ),
            )
        },
    }
}

/// The lines above the items of a queue, or the one line for an empty queue.
pub open spec fn list_head(queue: Seq<char>, n: nat) -> Seq<Seq<char>> {
    if n == 0 {
        seq!["Queue '"@ + queue + "' is empty."@]
    } else {
        seq![
            "Queue '"@ + queue + "' \u{2014} "@ + text::decimal(n) + " pending item(s):\n"@,
            queue_columns("ID"@, "TYPE"@, "PRIORITY"@, "STATUS"@, "INPUT"@),
            Seq::new(80, |i: int| '-'),
        ]
    }
}

pub fn write_list_head(queue: &str, n: usize) -> (r: Vec<String>)
    ensures
        text::views(r@) == list_head(queue@, n as nat),
{
    let mut first = concat("Queue '", queue);
    if n == 0 {
        push_str(&mut first, "' is empty.");
        let r = vec![first];
        proof {
            assert(text::views(r@) =~= list_head(queue@, n as nat));
        }
        return r;
    }
    push_str(&mut first, "' \u{2014} ");
    push_str(&mut first, write_u64(n as u64).as_str());
    push_str(&mut first, " pending item(s):\n");
    let rule = repeat_char('-', 80);
    let r = vec![first, write_queue_columns("ID", "TYPE", "PRIORITY", "STATUS", "INPUT"), rule];
    proof {
        assert(rule@ =~= Seq::new(80, |i: int| '-'));
        assert(text::views(r@) =~= list_head(queue@, n as nat));
    }
    r
}

/// What is said of a queue that was cleared.
pub fn cleared_message(queue: &str, count: u64) -> (r: String)
    ensures
        r@ == "Cleared "@ + text::decimal(count as nat) + " pending item(s) from queue '"@ + queue@
            + "'."@,
{
    let mut out = concat("Cleared ", write_u64(count).as_str());
    push_str(&mut out, " pending item(s) from queue '");
    push_str(&mut out, queue);
    push_str(&mut out, "'.");
    out
}

/// Which answer draining waits for. `left` counts the items at hand that are
/// still to be looked at.
#[derive(Clone, Copy, Debug, PartialEq, Eq, Structural)]
pub enum Phase {
    Recover,
    Peek,
    Claim { left: usize },
    Dispatch { left: usize },
    StoreId { left: usize },
    MarkDispatched { left: usize },
    MarkFailed { left: usize },
    Over,
}

/// What the last step brought.
#[derive(Clone, Copy, Debug, PartialEq, Eq, Structural)]
pub enum Event {
    Done,
    Failed,
    /// How many items are at hand.
    Items(usize),
    /// Whether the item is ours, or someone else's.
    Claimed(bool),
}

/// The next step. Items are taken in the order they came.
#[derive(Clone, Copy, Debug, PartialEq, Eq, Structural)]
pub enum Action {
    Recover,
    /// Look at up to ten items.
    Peek,
    /// Claim the next item at hand.
    Claim,
    Dispatch,
    /// Note the dispatch, so that it is found again after a crash.
    StoreId,
    MarkDispatched,
    MarkFailed,
    Report,
    /// The step failed; its own error is reported.
    Fail,
}

/// Draining a queue, and what came of it so far.
#[derive(Clone, Copy, Debug, PartialEq, Eq, Structural)]
pub struct Drain {
    pub phase: Phase,
    pub dispatched: u32,
    pub failed: u32,
}

/// The step after an item was dealt with.
pub open spec fn after_item(d: Drain, left: usize) -> (Drain, Action) {
    if left == 0 {
        (Drain { phase: Phase::Peek, ..d }, Action::Peek)
    } else {
        (Drain { phase: Phase::Claim { left }, ..d }, Action::Claim)
    }
}

/// The step that follows.
pub open spec fn next(d: Drain, event: Event) -> (Drain, Action) {
    match d.phase {
        Phase::Recover => if event == Event::Done {
            (Drain { phase: Phase::Peek, ..d }, Action::Peek)
        } else {
            (Drain { phase: Phase::Over, ..d }, Action::Fail)
        },
        Phase::Peek => match event {
            Event::Items(n) => if n == 0 {
                (Drain { phase: Phase::Over, ..d }, Action::Report)
            } else {
                after_item(d, n)
            },
            _ => (Drain { phase: Phase::Over, ..d }, Action::Fail),
        },
        Phase::Claim { left } => match event {
            Event::Claimed(ours) => if ours {
                (Drain { phase: Phase::Dispatch { left }, ..d }, Action::Dispatch)
            } else {
                after_item(d, (left - 1) as usize)
            },
            _ => (Drain { phase: Phase::Over, ..d }, Action::Fail),
        },
        Phase::Dispatch { left } => if event == Event::Done {
            (
                Drain {
                    phase: Phase::StoreId { left },
                    dispatched: (d.dispatched + 1) as u32,
                    ..d
                },
                Action::StoreId,
            )
        } else {
            (
                Drain { phase: Phase::MarkFailed { left }, failed: (d.failed + 1) as u32, ..d },
                Action::MarkFailed,
            )
        },
        Phase::StoreId { left } => (
            Drain { phase: Phase::MarkDispatched { left }, ..d },
            Action::MarkDispatched,
        ),
        Phase::MarkDispatched { left } => after_item(d, (left - 1) as usize),
        Phase::MarkFailed { left } => after_item(d, (left - 1) as usize),
        Phase::Over => (d, Action::Report),
    }
}

impl Drain {
    /// Items are counted from one.
    pub open spec fn wf(self) -> bool {
        match self.phase {
            Phase::Claim { left } => left > 0,
            Phase::Dispatch { left } => left > 0,
            Phase::StoreId { left } => left > 0,
            Phase::MarkDispatched { left } => left > 0,
            Phase::MarkFailed { left } => left > 0,
            _ => true,
        }
    }

    pub fn start() -> (r: (Drain, Action))
        ensures
            r.0 == (Drain { phase: Phase::Recover, dispatched: 0, failed: 0 }),
            r.1 == Action::Recover,
            r.0.wf(),
    {
        (Drain { phase: Phase::Recover, dispatched: 0, failed: 0 }, Action::Recover)
    }

    fn past_item(self, left: usize) -> (r: (Drain, Action))
        ensures
            r == after_item(self, left),
            r.0.wf(),
    {
        if left == 0 {
            (Drain { phase: Phase::Peek, ..self }, Action::Peek)
        } else {
            (Drain { phase: Phase::Claim { left }, ..self }, Action::Claim)
        }
    }

    /// Takes what the last step brought and gives the next one.
    pub fn step(self, event: Event) -> (r: (Drain, Action))
        requires
            self.wf(),
            self.dispatched < u32::MAX,
            self.failed < u32::MAX,
        ensures
            r == next(self, event),
            r.0.wf(),
    {
        match self.phase {
            Phase::Recover => if event == Event::Done {
                (Drain { phase: Phase::Peek, ..self }, Action::Peek)
            } else {
                (Drain { phase: Phase::Over, ..self }, Action::Fail)
            },
            Phase::Peek => match event {
                Event::Items(n) => if n == 0 {
                    (Drain { phase: Phase::Over, ..self }, Action::Report)
                } else {
                    self.past_item(n)
                },
                _ => (Drain { phase: Phase::Over, ..self }, Action::Fail),
            },
            Phase::Claim { left } => match event {
                Event::Claimed(ours) => if ours {
                    (Drain { phase: Phase::Dispatch { left }, ..self }, Action::Dispatch)
                } else {
                    self.past_item(left - 1)
                },
                _ => (Drain { phase: Phase::Over, ..self }, Action::Fail),
            },
            Phase::Dispatch { left } => if event == Event::Done {
                (
                    Drain {
                        phase: Phase::StoreId { left },
                        dispatched: self.dispatched + 1,
                        ..self
                    },
                    Action::StoreId,
                )
            } else {
                (
                    Drain { phase: Phase::MarkFailed { left }, failed: self.failed + 1, ..self },
                    Action::MarkFailed,
                )
            },
            Phase::StoreId { left } => (
                Drain { phase: Phase::MarkDispatched { left }, ..self },
                Action::MarkDispatched,
            ),
            Phase::MarkDispatched { left } => self.past_item(left - 1),
            Phase::MarkFailed { left } => self.past_item(left - 1),
            Phase::Over => (self, Action::Report),
        }
    }
}

/// An item is dispatched only if it was claimed, and counted exactly once.
pub proof fn claimed_items_are_counted_once(d: Drain, event: Event)
    requires
        d.wf(),
        d.dispatched < u32::MAX,
        d.failed < u32::MAX,
    ensures
        next(d, event).1 == Action::Dispatch ==> event == Event::Claimed(true),
        next(d, event).0.dispatched + next(d, event).0.failed == d.dispatched + d.failed + (
        if d.phase is Dispatch {
            1int
        } else {
            0
        }),
{
}

/// The draining of a queue after the given answers, and the steps that it asked for.
pub open spec fn history(events: Seq<Event>) -> (Drain, Seq<Action>)
    decreases events.len(),
{
    if events.len() == 0 {
        (Drain { phase: Phase::Recover, dispatched: 0, failed: 0 }, seq![Action::Recover])
    } else {
        let (d, actions) = history(events.drop_last());
        let (then, action) = next(d, events.last());
        (then, actions.push(action))
    }
}

/// The step that is to be answered: the last one asked for.
pub open spec fn asked(events: Seq<Event>) -> Action {
    history(events).1.last()
}

/// How many items at hand are still to be dealt with, the present one among them.
pub open spec fn items_left(phase: Phase) -> int {
    match phase {
        Phase::Claim { left } => left as int,
        Phase::Dispatch { left } => left as int,
        Phase::StoreId { left } => left as int,
        Phase::MarkDispatched { left } => left as int,
        Phase::MarkFailed { left } => left as int,
        _ => 0,
    }
}

spec fn fits(phase: Phase, action: Action) -> bool {
    match phase {
        Phase::Recover => action == Action::Recover,
        Phase::Peek => action == Action::Peek,
        Phase::Claim { .. } => action == Action::Claim,
        Phase::Dispatch { .. } => action == Action::Dispatch,
        Phase::StoreId { .. } => action == Action::StoreId,
        Phase::MarkDispatched { .. } => action == Action::MarkDispatched,
        Phase::MarkFailed { .. } => action == Action::MarkFailed,
        Phase::Over => action == Action::Report || action == Action::Fail,
    }
}

proof fn phase_fits(events: Seq<Event>)
    ensures
        history(events).0.wf(),
        fits(history(events).0.phase, asked(events)),
    decreases events.len(),
{
    if events.len() > 0 {
        phase_fits(events.drop_last());
    }
}

proof fn one_more(events: Seq<Event>, event: Event)
    ensures
        history(events).0.wf(),
        fits(history(events).0.phase, asked(events)),
        asked(events.push(event)) == next(history(events).0, event).1,
        history(events.push(event)).0 == next(history(events).0, event).0,
{
    phase_fits(events);
    assert(events.push(event).drop_last() =~= events);
}

/// A drain first recovers what an earlier one left, then looks at the queue until there
/// is nothing left in it. It ends with a report exactly where the queue is empty, and with
/// an error exactly where recovering, looking or claiming failed.
pub proof fn queues_are_drained_until_empty(events: Seq<Event>, event: Event)
    ensures
        ({
            let at = asked(events);
            let then = asked(events.push(event));
            &&& asked(Seq::empty()) == Action::Recover
            &&& at == Action::Recover && event == Event::Done ==> then == Action::Peek
            &&& at == Action::Peek && event is Items && event->Items_0 > 0 ==> then
                == Action::Claim
            &&& at != Action::Report && at != Action::Fail ==> (then == Action::Report <==> at
                == Action::Peek && event == Event::Items(0))
            &&& then == Action::Fail <==> (at == Action::Recover && event != Event::Done) || (at
                == Action::Peek && !(event is Items)) || (at == Action::Claim && !(event
                is Claimed))
        }),
{
    one_more(events, event);
}

/// An item that is ours is dispatched. Where that succeeded its dispatch is noted and the
/// item is marked dispatched, where it did not the item is marked failed; an item of
/// someone else is passed over.
pub proof fn items_are_marked_with_their_outcome(events: Seq<Event>, event: Event)
    ensures
        ({
            let at = asked(events);
            let then = asked(events.push(event));
            &&& then == Action::Dispatch <==> at == Action::Claim && event == Event::Claimed(true)
            &&& then == Action::StoreId <==> at == Action::Dispatch && event == Event::Done
            &&& then == Action::MarkFailed <==> at == Action::Dispatch && event != Event::Done
            &&& then == Action::MarkDispatched <==> at == Action::StoreId
        }),
{
    one_more(events, event);
}

/// Once an item is dealt with the next one at hand is claimed, or else the queue is looked
/// at again. A look brings as many items as it says, and each item dealt with is one less.
pub proof fn items_are_dealt_with_in_turn(events: Seq<Event>, event: Event)
    ensures
        ({
            let at = asked(events);
            let then = asked(events.push(event));
            let before = items_left(history(events).0.phase);
            let after = items_left(history(events.push(event)).0.phase);
            let dealt_with = (at == Action::Claim && event == Event::Claimed(false)) || at
                == Action::MarkDispatched || at == Action::MarkFailed;
            &&& dealt_with && before > 1 ==> then == Action::Claim && after == before - 1
            &&& dealt_with && before <= 1 ==> then == Action::Peek
            &&& at == Action::Peek && then == Action::Claim ==> after == event->Items_0
            &&& then == Action::Dispatch || then == Action::StoreId || then
                == Action::MarkDispatched || then == Action::MarkFailed ==> after == before
        }),
{
    one_more(events, event);
}

/// The report counts right: a dispatch that succeeded is one more dispatched, one that did
/// not is one more failed, and nothing else counts.
pub proof fn outcomes_are_counted(events: Seq<Event>, event: Event)
    requires
        history(events).0.dispatched < u32::MAX,
        history(events).0.failed < u32::MAX,
    ensures
        ({
            let d = history(events).0;
            let e = history(events.push(event)).0;
            &&& e.dispatched == d.dispatched + if asked(events) == Action::Dispatch && event
                == Event::Done {
                1int
            } else {
                0int
            }
            &&& e.failed == d.failed + if asked(events) == Action::Dispatch && event
                != Event::Done {
                1int
            } else {
                0int
            }
            &&& history(Seq::empty()).0.dispatched == 0 && history(Seq::empty()).0.failed == 0
        }),
{
    one_more(events, event);
}

/// What is said after a queue was drained.
pub fn drained_message(d: Drain) -> (r: String)
    ensures
        r@ == "Drain complete: "@ + text::decimal(d.dispatched as nat) + " dispatched, "@
            + text::decimal(d.failed as nat) + " failed."@,
{
    let mut out = concat("Drain complete: ", write_u64(d.dispatched as u64).as_str());
    push_str(&mut out, " dispatched, ");
    push_str(&mut out, write_u64(d.failed as u64).as_str());
    push_str(&mut out, " failed.");
    out
}

/// The options are those of the item.
pub open spec fn is_run_of(o: RunOpts, row: QueueRow) -> bool {
    &&& o.input@ == row.input_value@
    &&& o.directive == queue::asked_directive(strmap::opt_view(row.mode))
    &&& o.params@ == queue::params_stored(strmap::opt_view(row.params))
    &&& o.pr_url is None
    &&& o.repos@.len() == 0
    &&& !o.inline && !o.force && !o.dry_run && !o.no_worktree
    &&& o.directives is None
    &&& o.max_turns is None
    &&& o.resume is None
    &&& o.retries == 0
    &&& !o.list && !o.ephemeral && !o.json
    &&& o.timeout_secs is None
}

/// How an item is dispatched, and whether only a task resolver may take it:
/// that follows from the kind of the item, not from its text.
pub fn row_opts(row: &QueueRow) -> (r: (RunOpts, bool))
    ensures
        is_run_of(r.0, *row),
        r.1 == (row.input_type == QueueInputType::Task),
{
    let mut opts = RunOpts::plain(row.input_value.clone(), directive_of(&row.mode), None);
    opts.params = load_params(&row.params);
    (opts, row.input_type == QueueInputType::Task)
}

/// The positions of the resolvers that may take an item.
pub open spec fn eligible(names: Seq<Seq<char>>, force_task: bool, i: int) -> bool {
    0 <= i < names.len() && (force_task ==> names[i] == "task"@)
}

/// The positions are those of the resolvers that may take an item, in order.
pub open spec fn is_choice(chosen: Seq<usize>, names: Seq<Seq<char>>, force_task: bool) -> bool {
    &&& forall|k: int|
        0 <= k < chosen.len() ==> eligible(names, force_task, #[trigger] chosen[k] as int)
    &&& forall|k: int, l: int|
        0 <= k < l < chosen.len() ==> #[trigger] chosen[k] < #[trigger] chosen[l]
    &&& forall|i: int| #[trigger]
        eligible(names, force_task, i) ==> exists|k: int|
            0 <= k < chosen.len() && #[trigger] chosen[k] == i
}

/// Which of the resolvers may take an item: for a task only the task
/// resolvers, and there must be one.
pub fn choose_resolvers(names: &Vec<String>, force_task: bool) -> (r: Result<Vec<usize>, String>)
    ensures
        match r {
            Ok(chosen) => is_choice(chosen@, text::views(names@), force_task),
            Err(e) => e@ == "queue item requires task resolver but none is configured"@,
        },
        r is Err <==> force_task && forall|i: int| !#[trigger]
            eligible(text::views(names@), force_task, i),
{
    let ghost all = text::views(names@);
    let mut chosen: Vec<usize> = Vec::new();
    let mut i: usize = 0;
    while i < names.len()
        invariant
            i <= names.len(),
            all == text::views(names@),
            forall|k: int|
                0 <= k < chosen@.len() ==> eligible(all, force_task, #[trigger] chosen@[k] as int)
                    && chosen@[k] < i,
            forall|k: int, l: int|
                0 <= k < l < chosen@.len() ==> #[trigger] chosen@[k] < #[trigger] chosen@[l],
            forall|j: int| #[trigger]
                eligible(all, force_task, j) && j < i ==> exists|k: int|
                    0 <= k < chosen@.len() && #[trigger] chosen@[k] == j,
        decreases names.len() - i,
    {
        let ghost before = chosen@;
        proof {
            assert(all[i as int] == names@[i as int]@);
        }
        if !force_task || same(names[i].as_str(), "task") {
            chosen.push(i);
            proof {
                assert forall|j: int| #[trigger] eligible(all, force_task, j) && j < i + 1
                    implies exists|k: int| 0 <= k < chosen@.len() && #[trigger] chosen@[k] == j by {
                    if j == i {
                        assert(chosen@[before.len() as int] == j);
                    } else {
                        let k = choose|k: int| 0 <= k < before.len() && #[trigger] before[k] == j;
                        assert(chosen@[k] == j);
                    }
                }
            }
        }
        i += 1;
    }
    proof {
        assert(all.len() == names@.len());
        if chosen@.len() > 0 {
            assert(eligible(all, force_task, chosen@[0] as int));
        }
    }
    if force_task && chosen.len() == 0 {
        return Err("queue item requires task resolver but none is configured".to_owned());
    }
    proof {
        assert forall|j: int| #[trigger] eligible(text::views(names@), force_task, j)
            implies exists|k: int| 0 <= k < chosen@.len() && #[trigger] chosen@[k] == j by {
            assert(eligible(all, force_task, j) && j < i);
        }
        assert(is_choice(chosen@, text::views(names@), force_task));
    }
    Ok(chosen)
}

/// An item that says it is a task is tried with the resolver of tasks alone; any
/// other is tried with all of them, in their order.
pub proof fn tasks_are_tried_as_tasks(
    chosen: Seq<usize>,
    names: Seq<Seq<char>>,
    force_task: bool,
    i: usize,
)
    requires
        is_choice(chosen, names, force_task),
    ensures
        chosen.contains(i) <==> i < names.len() && (force_task ==> names[i as int] == "task"@),
        !force_task ==> chosen.len() == names.len(),
{
    if chosen.contains(i) {
        let k = choose|k: int| 0 <= k < chosen.len() && chosen[k] == i;
        assert(eligible(names, force_task, chosen[k] as int));
    }
    if i < names.len() && (force_task ==> names[i as int] == "task"@) {
        assert(eligible(names, force_task, i as int));
        let k = choose|k: int| 0 <= k < chosen.len() && #[trigger] chosen[k] == i as int;
        assert(chosen[k] == i);
    }
    if !force_task {
        all_are_chosen(chosen, names);
    }
}

proof fn all_are_chosen(chosen: Seq<usize>, names: Seq<Seq<char>>)
    requires
        is_choice(chosen, names, false),
    ensures
        chosen.len() == names.len(),
{
    all_before_are_chosen(chosen, names, names.len());
    if chosen.len() > names.len() {
        let last = chosen[names.len() as int];
        assert(eligible(names, false, last as int));
        assert(chosen[last as int] == last as int);
        assert(chosen[last as int] < chosen[names.len() as int]);
    }
}

proof fn all_before_are_chosen(chosen: Seq<usize>, names: Seq<Seq<char>>, n: nat)
    requires
        is_choice(chosen, names, false),
        n <= names.len(),
    ensures
        n <= chosen.len(),
        forall|k: int| 0 <= k < n ==> #[trigger] chosen[k] == k,
    decreases n,
{
    if n > 0 {
        let m = (n - 1) as nat;
        all_before_are_chosen(chosen, names, m);
        assert(eligible(names, false, m as int));
        let k = choose|k: int| 0 <= k < chosen.len() && #[trigger] chosen[k] == m as int;
        assert(k >= m) by {
            if k < m {
                assert(chosen[k] == k);
            }
        }
        if k > m {
            assert(chosen[m as int] < chosen[k]);
            let c = chosen[m as int] as int;
            assert(chosen[c] == c);
            assert(chosen[c] < chosen[m as int]);
        }
    }
}

/// An item is dispatched as it was put in the queue: its input, the directive that it
/// asks for if it is a known one, its parameters, and nothing that it does not say.
pub proof fn items_are_run_as_they_were_queued(o: RunOpts, row: QueueRow)
    requires
        is_run_of(o, row),
    ensures
        o.input@ == row.input_value@,
        row.mode is None ==> o.directive is None,
        o.directive matches Some(d) ==> strmap::opt_view(row.mode) == Some(d.name()),
        row.params is None ==> o.params@ == Map::<Seq<char>, Seq<char>>::empty(),
        o.pr_url is None,
        o.repos@.len() == 0,
        o.resume is None,
        !o.inline,
        !o.force,
        !o.dry_run,
        !o.ephemeral,
{
}

/// An item is listed with its input, cut to forty characters where it is longer.
pub proof fn long_inputs_are_cut(a: Seq<char>, b: Seq<char>)
    ensures
        a.len() <= 40 ==> listed_input(a) == a,
        a.len() == 37 && b.len() > 3 ==> listed_input(a + b) == a + "..."@,
        listed_input(a).len() <= 40,
{
    reveal_strlit("...");
    assert((a + b).take(37) =~= a || a.len() != 37);
}

/// A queue without items is told to be empty; any other is told with the number of its
/// items, above a table of them.
pub proof fn empty_queues_are_told_apart(queue: Seq<char>, n: nat)
    ensures
        list_head(queue, 0) == seq!["Queue '"@ + queue + "' is empty."@],
        n > 0 ==> list_head(queue, n).len() == 3 && list_head(queue, n)[0] == "Queue '"@ + queue
            + "' \u{2014} "@ + text::decimal(n) + " pending item(s):\n"@,
        n > 0 ==> text::starts(list_head(queue, n)[1], "ID"@) && text::ends(
            list_head(queue, n)[1],
            "INPUT"@,
        ),
{
    if n > 0 {
        let line = list_head(queue, n)[1];
        text::padding_fills_up("ID"@, ' ', 24);
        let padded = text::padded_right("ID"@, ' ', 24);
        assert(padded.subrange(0, "ID"@.len() as int) =~= "ID"@);
        assert(line.subrange(0, "ID"@.len() as int) =~= padded.subrange(0, "ID"@.len() as int));
        assert(line.subrange(line.len() - "INPUT"@.len(), line.len() as int) =~= "INPUT"@);
    }
}

} // verus!
