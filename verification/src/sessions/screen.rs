//! What the switchboard says, and how the terminal is given back.

use vstd::prelude::*;
use crate::strmap;
use crate::sessions::app::{Action, FilterEdit, PendingAction, SessionsApp};
use crate::sessions::snapshot::SessionRow;
use crate::sessions::view::{self, detail_text};
use crate::text::{self, concat, push_str};

verus! {

/// What the header says of the filters: the one being typed, or the keys.
pub open spec fn filter_hint(edit: Option<FilterEdit>) -> Seq<char> {
    match edit {
        Some(e) => "editing "@ + e.field.name() + ": "@ + e.value@,
        None =>
            "filters: / search  t task  w work-unit  b branch  p provider  S status  A all  g group"@,
    }
}

/// The header line.
pub open spec fn header(a: SessionsApp, cost: Seq<char>) -> Seq<char> {
    " ATC Sessions  "@ + a.snapshot.summary.in_words(cost) + "  group: "@ + a.snapshot.group.name()
        + "  "@ + filter_hint(a.filter_input) + " "@
}

/// The header line; `cost` is the total cost as it is written.
pub fn header_text(a: &SessionsApp, cost: &str) -> (r: String)
    ensures
        r@ == header(*a, cost@),
{
    let hint = match &a.filter_input {
        Some(e) => {
            let mut h = concat("editing ", e.field.label());
            push_str(&mut h, ": ");
            push_str(&mut h, e.value.as_str());
            h
        },
        None =>
            "filters: / search  t task  w work-unit  b branch  p provider  S status  A all  g group".to_owned(),
    };
    let mut out = concat(" ATC Sessions  ", a.snapshot.summary.human(cost).as_str());
    push_str(&mut out, "  group: ");
    push_str(&mut out, a.snapshot.group.label());
    push_str(&mut out, "  ");
    push_str(&mut out, hint.as_str());
    push_str(&mut out, " ");
    out
}

/// The footer: the details of the selected session, or the keys and the last
/// message.
pub open spec fn footer(a: SessionsApp) -> Seq<char> {
    if a.show_detail {
        if a.selected < a.snapshot.rows@.len() {
            let row = a.snapshot.rows@[a.selected as int];
            view::detail_head(row) + view::detail_tail(row)
        } else {
            "No session selected."@
        }
    } else {
        let keys =
            "Enter details  l logs  f follow  a attach  R resume  d redirect  s stop  c cleanup  / search  t/w/b/p/S filters  A all  g group  r refresh  q quit"@;
        match a.message {
            Some(m) => keys + "\n"@ + m@,
            None => keys,
        }
    }
}

pub fn footer_text(a: &SessionsApp) -> (r: String)
    ensures
        r@ == footer(*a),
{
    if a.show_detail {
        return match a.selected_row() {
            Some(row) => detail_text(row),
            None => "No session selected.".to_owned(),
        };
    }
    let mut out =
        "Enter details  l logs  f follow  a attach  R resume  d redirect  s stop  c cleanup  / search  t/w/b/p/S filters  A all  g group  r refresh  q quit".to_owned();
    if let Some(m) = &a.message {
        push_str(&mut out, "\n");
        push_str(&mut out, m.as_str());
    }
    out
}

/// What stands in place of the rows where there are none.
pub fn empty_text(a: &SessionsApp) -> (r: Option<String>)
    ensures
        strmap::opt_view(r) == if a.snapshot.rows@.len() == 0 {
            Some("No sessions found."@)
        } else {
            None
        },
{
    if a.snapshot.rows.len() == 0 {
        Some("No sessions found.".to_owned())
    } else {
        None
    }
}

/// What is said where the sessions could not be read again.
pub fn refresh_failed_message(error: &str) -> (r: String)
    ensures
        r@ == "refresh failed: "@ + error@,
{
    concat("refresh failed: ", error)
}

/// The question before an action that cannot be undone, and the keys that answer it.
pub fn confirmation_text(pending: PendingAction) -> (r: String)
    ensures
        r@ == "Confirm "@ + pending.name() + " selected dispatch?"@
            + "\n\nPress y to confirm, n or Esc to cancel."@,
{
    let mut out = concat("Confirm ", pending.label());
    push_str(&mut out, " selected dispatch?");
    push_str(&mut out, "\n\nPress y to confirm, n or Esc to cancel.");
    out
}

/// How an action ended.
pub enum ActionEnd {
    Done,
    /// No text was given where one was asked for.
    Cancelled,
    /// The session goes on as another dispatch.
    ResumedAs(String),
    Failed(String),
}

/// What is said of an action that ended.
pub open spec fn ending(action: Action, row: SessionRow, end: ActionEnd) -> Seq<char> {
    match end {
        ActionEnd::Failed(e) => "action failed: "@ + e@,
        ActionEnd::Cancelled => match action {
            Action::Redirect => "redirect cancelled"@,
            _ => "resume cancelled"@,
        },
        ActionEnd::ResumedAs(id) => "resumed "@ + row.id@ + " as "@ + id@,
        ActionEnd::Done => match action {
            Action::Logs => "viewed logs for "@ + row.id@,
            Action::FollowLogs => "followed logs for "@ + row.id@,
            Action::Attach => "attached to "@ + row.session@,
            Action::Redirect => "redirected message to "@ + row.id@,
            Action::Resume => "resumed "@ + row.id@,
            Action::Stop => "stopped "@ + row.id@,
            Action::Cleanup => "cleaned "@ + row.id@,
        },
    }
}

pub fn action_message(action: Action, row: &SessionRow, end: &ActionEnd) -> (r: String)
    ensures
        r@ == ending(action, *row, *end),
{
    match end {
        ActionEnd::Failed(e) => concat("action failed: ", e.as_str()),
        ActionEnd::Cancelled => match action {
            Action::Redirect => "redirect cancelled".to_owned(),
            _ => "resume cancelled".to_owned(),
        },
        ActionEnd::ResumedAs(id) => {
            let mut out = concat("resumed ", row.id.as_str());
            push_str(&mut out, " as ");
            push_str(&mut out, id.as_str());
            out
        },
        ActionEnd::Done => match action {
            Action::Logs => concat("viewed logs for ", row.id.as_str()),
            Action::FollowLogs => concat("followed logs for ", row.id.as_str()),
            Action::Attach => concat("attached to ", row.session.as_str()),
            Action::Redirect => concat("redirected message to ", row.id.as_str()),
            Action::Resume => concat("resumed ", row.id.as_str()),
            Action::Stop => concat("stopped ", row.id.as_str()),
            Action::Cleanup => concat("cleaned ", row.id.as_str()),
        },
    }
}

/// What has been done to the terminal and must be undone.
#[derive(Clone, Copy, Debug, PartialEq, Eq, Structural)]
pub struct TuiSetupCleanup {
    pub raw_mode_enabled: bool,
    pub alternate_screen_entered: bool,
}

/// The outcome of the step that is undone, or success where there is nothing
/// to undo.
pub open spec fn undone<F: FnOnce() -> Result<(), E>, E>(
    needed: bool,
    f: F,
    outcome: Result<(), E>,
) -> bool {
    if needed {
        call_ensures(f, (), outcome)
    } else {
        outcome == Ok::<(), E>(())
    }
}

/// The first failure of two steps.
pub open spec fn first_failure<E>(a: Result<(), E>, b: Result<(), E>) -> Result<(), E> {
    if a is Err {
        a
    } else {
        b
    }
}

impl TuiSetupCleanup {
    pub fn untouched() -> (r: TuiSetupCleanup)
        ensures
            !r.raw_mode_enabled,
            !r.alternate_screen_entered,
    {
        TuiSetupCleanup { raw_mode_enabled: false, alternate_screen_entered: false }
    }

    pub fn active() -> (r: TuiSetupCleanup)
        ensures
            r.raw_mode_enabled,
            r.alternate_screen_entered,
    {
        TuiSetupCleanup { raw_mode_enabled: true, alternate_screen_entered: true }
    }

    pub fn mark_raw_mode_enabled(&mut self)
        ensures
            *final(self) == (TuiSetupCleanup { raw_mode_enabled: true, ..*old(self) }),
    {
        self.raw_mode_enabled = true;
    }

    pub fn mark_alternate_screen_entered(&mut self)
        ensures
            *final(self) == (TuiSetupCleanup { alternate_screen_entered: true, ..*old(self) }),
    {
        self.alternate_screen_entered = true;
    }

    pub fn disarm(&mut self)
        ensures
            !final(self).raw_mode_enabled,
            !final(self).alternate_screen_entered,
    {
        self.raw_mode_enabled = false;
        self.alternate_screen_entered = false;
    }

    /// Undoes what was done and nothing else, the last step first. Both steps are
    /// undone even if the first of them fails; the first failure is reported. Only a
    /// step that was done has to be undoable, and raw mode only once the screen was
    /// left.
    pub fn cleanup_with_ops<LeaveAlternate, DisableRaw, E>(
        &mut self,
        leave_alternate: LeaveAlternate,
        disable_raw: DisableRaw,
    ) -> (r: Result<(), E>) where
        LeaveAlternate: FnOnce() -> Result<(), E>,
        DisableRaw: FnOnce() -> Result<(), E>,

        requires
            old(self).alternate_screen_entered ==> call_requires(leave_alternate, ()),
            old(self).raw_mode_enabled && !old(self).alternate_screen_entered ==> call_requires(
                disable_raw,
                (),
            ),
            old(self).raw_mode_enabled && old(self).alternate_screen_entered ==> forall|
                a: Result<(), E>,
            | #[trigger]
                call_ensures(leave_alternate, (), a) ==> call_requires(disable_raw, ()),
        ensures
            !final(self).raw_mode_enabled,
            !final(self).alternate_screen_entered,
            exists|a: Result<(), E>, b: Result<(), E>|
                #![trigger first_failure(a, b)]
                undone(old(self).alternate_screen_entered, leave_alternate, a) && undone(
                    old(self).raw_mode_enabled,
                    disable_raw,
                    b,
                ) && r == first_failure(a, b),
    {
        let first: Result<(), E> = if self.alternate_screen_entered {
            leave_alternate()
        } else {
            Ok(())
        };
        self.alternate_screen_entered = false;
        let second: Result<(), E> = if self.raw_mode_enabled {
            disable_raw()
        } else {
            Ok(())
        };
        self.raw_mode_enabled = false;
        let ghost g1 = first;
        let ghost g2 = second;
        let r = match first {
            Err(e) => Err(e),
            Ok(_) => second,
        };
        proof {
            assert(r == first_failure(g1, g2));
        }
        r
    }
}

/// What is said after an action names it, and the session it was about.
pub proof fn endings_name_their_session(action: Action, row: SessionRow, id: String, e: String)
    ensures
        ending(action, row, ActionEnd::Failed(e)) == "action failed: "@ + e@,
        ending(action, row, ActionEnd::ResumedAs(id)) == "resumed "@ + row.id@ + " as "@ + id@,
        ending(Action::Redirect, row, ActionEnd::Cancelled) == "redirect cancelled"@,
        ending(Action::Resume, row, ActionEnd::Cancelled) == "resume cancelled"@,
        ending(Action::Attach, row, ActionEnd::Done) == "attached to "@ + row.session@,
        action != Action::Attach ==> text::ends(ending(action, row, ActionEnd::Done), row.id@),
        ending(Action::Stop, row, ActionEnd::Done) == "stopped "@ + row.id@,
        ending(Action::Cleanup, row, ActionEnd::Done) == "cleaned "@ + row.id@,
{
    if action != Action::Attach {
        let all = ending(action, row, ActionEnd::Done);
        assert(all.subrange(all.len() - row.id@.len(), all.len() as int) =~= row.id@);
    }
}

/// Of two steps that both failed, the first failure is told; of two of which one
/// failed, that one; and where none failed there is none.
pub proof fn failures_are_told_in_order(a: Result<(), String>, b: Result<(), String>)
    ensures
        a is Err ==> first_failure(a, b) == a,
        a is Ok && b is Err ==> first_failure(a, b) == b,
        a is Ok && b is Ok ==> first_failure(a, b) is Ok,
{
}

} // verus!
