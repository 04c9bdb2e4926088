//! `atc retry` - a failed dispatch is tried again, with more room if it ran out.

use vstd::prelude::*;
use crate::text::{self, concat, push_str, same, write_i64, write_u64};
use crate::types::{Directive, DispatchRecord, Status};

verus! {

/// What the last attempt left in its log.
pub enum LastResult {
    /// The kind of its last result.
    Found(String),
    Missing,
    Unreadable,
}

/// What is changed for the next attempt.
#[derive(Clone, Copy, Debug, PartialEq, Eq, Structural)]
pub enum Overrides {
    Same,
    /// Twice the turns, as far as they can be counted.
    Turns { current: u32, doubled: u32 },
    /// Twice the budget.
    Budget,
}

/// Twice as many, or as many as can be counted.
pub open spec fn twice(n: u32) -> u32 {
    if n * 2 > u32::MAX {
        u32::MAX
    } else {
        (n * 2) as u32
    }
}

/// Only an attempt that ran into a limit gets a higher one. The limit is that
/// of the mode, or else the general one.
pub open spec fn overrides(mode_turns: Option<u32>, turns: u32, subtype: Seq<char>) -> Overrides {
    if subtype == "error_max_turns"@ {
        let current = match mode_turns {
            Some(t) => t,
            None => turns,
        };
        Overrides::Turns { current, doubled: twice(current) }
    } else if subtype == "error_max_budget_usd"@ {
        Overrides::Budget
    } else {
        Overrides::Same
    }
}

/// Decides what to change, given how the last attempt failed.
pub fn compute_overrides(mode_turns: Option<u32>, turns: u32, subtype: &str) -> (r: Overrides)
    ensures
        r == overrides(mode_turns, turns, subtype@),
{
    proof {
        reveal_strlit("error_max_turns");
        reveal_strlit("error_max_budget_usd");
        assert("error_max_turns"@.len() != "error_max_budget_usd"@.len());
    }
    if same(subtype, "error_max_turns") {
        let current: u32 = match mode_turns {
            Some(t) => t,
            None => turns,
        };
        let doubled: u32 = if current > 2_147_483_647 {
            u32::MAX
        } else {
            current * 2
        };
        Overrides::Turns { current, doubled }
    } else if same(subtype, "error_max_budget_usd") {
        Overrides::Budget
    } else {
        Overrides::Same
    }
}

/// What is changed for the next attempt, given what the last one left.
pub open spec fn overrides_after(
    mode_turns: Option<u32>,
    turns: u32,
    last: LastResult,
) -> Overrides {
    match last {
        LastResult::Found(subtype) => overrides(mode_turns, turns, subtype@),
        _ => Overrides::Same,
    }
}

pub fn classify_failure_overrides(mode_turns: Option<u32>, turns: u32, last: &LastResult) -> (r:
    Overrides)
    ensures
        r == overrides_after(mode_turns, turns, *last),
{
    match last {
        LastResult::Found(subtype) => compute_overrides(mode_turns, turns, subtype.as_str()),
        LastResult::Missing => Overrides::Same,
        LastResult::Unreadable => Overrides::Same,
    }
}

/// A limit is never lowered.
pub proof fn limits_only_grow(mode_turns: Option<u32>, turns: u32, last: LastResult)
    ensures
        overrides_after(mode_turns, turns, last) matches Overrides::Turns { current, doubled }
            ==> doubled >= current,
{
}

/// What is said of the last attempt. `budget` and `doubled_budget` are the
/// budget and its double as they are written.
pub open spec fn failure_text(
    last: LastResult,
    changed: Overrides,
    budget: Seq<char>,
    doubled_budget: Seq<char>,
) -> Seq<char> {
    match last {
        LastResult::Missing => "  No result event found. Retrying with same configuration."@,
        LastResult::Unreadable => "  Could not read log. Retrying with same configuration."@,
        LastResult::Found(subtype) => match changed {
            Overrides::Turns { current, doubled } =>
                "  Failure: max turns reached. Retrying with doubled max_turns ("@ + text::decimal(
                    current as nat,
                ) + " \u{2192} "@ + text::decimal(doubled as nat) + ")."@,
            Overrides::Budget =>
                "  Failure: budget exceeded. Retrying with doubled budget ($"@ + budget
                    + " \u{2192} $"@ + doubled_budget + ")."@,
            Overrides::Same => "  Failure: "@ + subtype@ + ". Retrying with same configuration."@,
        },
    }
}

pub fn failure_message(
    last: &LastResult,
    changed: Overrides,
    budget: &str,
    doubled_budget: &str,
) -> (r: String)
    ensures
        r@ == failure_text(*last, changed, budget@, doubled_budget@),
{
    match last {
        LastResult::Missing =>
            "  No result event found. Retrying with same configuration.".to_owned(),
        LastResult::Unreadable =>
            "  Could not read log. Retrying with same configuration.".to_owned(),
        LastResult::Found(subtype) => match changed {
            Overrides::Turns { current, doubled } => {
                let mut out = concat(
                    "  Failure: max turns reached. Retrying with doubled max_turns (",
                    write_u64(current as u64).as_str(),
                );
                push_str(&mut out, " \u{2192} ");
                push_str(&mut out, write_u64(doubled as u64).as_str());
                push_str(&mut out, ").");
                out
            },
            Overrides::Budget => {
                let mut out = concat(
                    "  Failure: budget exceeded. Retrying with doubled budget ($",
                    budget,
                );
                push_str(&mut out, " \u{2192} $");
                push_str(&mut out, doubled_budget);
                push_str(&mut out, ").");
                out
            },
            Overrides::Same => {
                let mut out = concat("  Failure: ", subtype.as_str());
                push_str(&mut out, ". Retrying with same configuration.");
                out
            },
        },
    }
}

/// Whether a dispatch is tried again.
#[derive(Clone, Copy, Debug, PartialEq, Eq, Structural)]
pub enum RetryPlan {
    Retry,
    /// It neither failed nor waits for someone.
    WrongStatus,
    /// It was tried often enough: it now waits for someone, and its task, if it
    /// has one, is given back.
    Exhausted { unassign: bool },
    NoSlug,
}

pub open spec fn retry_plan(record: DispatchRecord, max_retries: u32) -> RetryPlan {
    if record.status != Status::Failed && record.status != Status::NeedsHuman {
        RetryPlan::WrongStatus
    } else if record.retries >= max_retries {
        RetryPlan::Exhausted { unassign: record.task_slug is Some }
    } else if record.task_slug is None {
        RetryPlan::NoSlug
    } else {
        RetryPlan::Retry
    }
}

/// Decides whether a dispatch is tried again.
pub fn plan_retry(record: &DispatchRecord, max_retries: u32) -> (r: RetryPlan)
    ensures
        r == retry_plan(*record, max_retries),
{
    if record.status != Status::Failed && record.status != Status::NeedsHuman {
        RetryPlan::WrongStatus
    } else if record.retries >= max_retries {
        RetryPlan::Exhausted { unassign: record.task_slug.is_some() }
    } else if record.task_slug.is_none() {
        RetryPlan::NoSlug
    } else {
        RetryPlan::Retry
    }
}

/// No dispatch is tried more often than the limit allows.
pub proof fn retries_are_bounded(record: DispatchRecord, max_retries: u32)
    requires
        retry_plan(record, max_retries) == RetryPlan::Retry,
    ensures
        record.retries + 1 <= max_retries,
{
}

/// Why a dispatch is not tried again.
pub open spec fn refusal(record: DispatchRecord, max_retries: u32) -> Option<Seq<char>> {
    match retry_plan(record, max_retries) {
        RetryPlan::Retry => None,
        RetryPlan::WrongStatus => Some(
            "cannot retry dispatch "@ + record.id@ + ": status is '"@ + record.status.name()
                + "', expected 'failed' or 'needs-human'"@,
        ),
        RetryPlan::Exhausted { .. } => Some(
            "Dispatch "@ + record.id@ + " has reached max retries ("@ + text::decimal(
                max_retries as nat,
            ) + "). Marking needs-human."@,
        ),
        RetryPlan::NoSlug => Some(
            "cannot retry dispatch "@ + record.id@ + ": this dispatch has no task slug"@,
        ),
    }
}

pub fn refusal_message(record: &DispatchRecord, max_retries: u32) -> (r: Option<String>)
    ensures
        crate::strmap::opt_view(r) == refusal(*record, max_retries),
{
    match plan_retry(record, max_retries) {
        RetryPlan::Retry => None,
        RetryPlan::WrongStatus => {
            let mut out = concat("cannot retry dispatch ", record.id.as_str());
            push_str(&mut out, ": status is '");
            push_str(&mut out, record.status.as_str());
            push_str(&mut out, "', expected 'failed' or 'needs-human'");
            Some(out)
        },
        RetryPlan::Exhausted { .. } => {
            let mut out = concat("Dispatch ", record.id.as_str());
            push_str(&mut out, " has reached max retries (");
            push_str(&mut out, write_u64(max_retries as u64).as_str());
            push_str(&mut out, "). Marking needs-human.");
            Some(out)
        },
        RetryPlan::NoSlug => {
            let mut out = concat("cannot retry dispatch ", record.id.as_str());
            push_str(&mut out, ": this dispatch has no task slug");
            Some(out)
        },
    }
}

/// The next attempt at a task.
pub struct RetryOpts {
    pub slug: String,
    pub directive: Directive,
    pub pr_url: Option<String>,
    pub max_turns: Option<u32>,
    pub retries: u32,
}

/// The next attempt: the same task, directive and pull request, counted once
/// more.
pub fn retry_opts(record: &DispatchRecord, max_retries: u32, changed: Overrides) -> (r: Option<
    RetryOpts,
>)
    ensures
        r is Some <==> retry_plan(*record, max_retries) == RetryPlan::Retry,
        r matches Some(o) ==> o.slug@ == record.task_slug->0@ && o.directive == record.directive
            && crate::strmap::opt_view(o.pr_url) == (if record.pr_urls@.len() > 0 {
            Some(record.pr_urls@[0]@)
        } else {
            None
        }) && o.max_turns == (match changed {
            Overrides::Turns { doubled, .. } => Some(doubled),
            _ => None,
        }) && o.retries == record.retries + 1,
{
    if plan_retry(record, max_retries) != RetryPlan::Retry {
        return None;
    }
    match &record.task_slug {
        None => None,
        Some(slug) => Some(
            RetryOpts {
                slug: slug.clone(),
                directive: record.directive,
                pr_url: if record.pr_urls.len() > 0 {
                    Some(record.pr_urls[0].clone())
                } else {
                    None
                },
                max_turns: match changed {
                    Overrides::Turns { doubled, .. } => Some(doubled),
                    _ => None,
                },
                retries: record.retries + 1,
            },
        ),
    }
}

/// What is said before the next attempt.
pub fn redispatch_message(slug: &str, retry: u32, max_retries: u32) -> (r: String)
    ensures
        r@ == "Re-dispatching "@ + slug@ + " (retry "@ + text::decimal(retry as nat) + "/"@
            + text::decimal(max_retries as nat) + ")..."@,
{
    let mut out = concat("Re-dispatching ", slug);
    push_str(&mut out, " (retry ");
    push_str(&mut out, write_u64(retry as u64).as_str());
    push_str(&mut out, "/");
    push_str(&mut out, write_u64(max_retries as u64).as_str());
    push_str(&mut out, ")...");
    out
}

/// The status of the old record after the attempt: a record that was replaced
/// is stopped, so that it is not tried again; one that was not keeps its own.
pub open spec fn old_status_after(original: Status, dispatched: bool) -> Status {
    if dispatched {
        Status::Stopped
    } else {
        original
    }
}

pub fn status_after(original: Status, dispatched: bool) -> (r: Status)
    ensures
        r == old_status_after(original, dispatched),
{
    if dispatched {
        Status::Stopped
    } else {
        original
    }
}

/// A record that was replaced is not tried again.
pub proof fn replaced_records_are_not_retried(record: DispatchRecord, max_retries: u32)
    requires
        record.status == old_status_after(Status::Failed, true),
    ensures
        retry_plan(record, max_retries) == RetryPlan::WrongStatus,
{
}

/// A record that was replaced by another attempt is stopped, whatever it was; one that was
/// not is as it was.
pub proof fn replaced_records_are_stopped(original: Status, dispatched: bool)
    ensures
        dispatched ==> old_status_after(original, dispatched) == Status::Stopped,
        !dispatched ==> old_status_after(original, dispatched) == original,
{
}

/// A dispatch is tried again exactly where it failed or waits for someone, was not tried
/// as often as is allowed, and has a task. Each other plan says which of these is wrong,
/// the first of them.
pub proof fn retries_are_exact(record: DispatchRecord, max_retries: u32)
    ensures
        ({
            let plan = retry_plan(record, max_retries);
            let stuck = record.status == Status::Failed || record.status == Status::NeedsHuman;
            &&& plan == RetryPlan::Retry <==> stuck && record.retries < max_retries
                && record.task_slug is Some
            &&& plan == RetryPlan::WrongStatus <==> !stuck
            &&& plan is Exhausted <==> stuck && record.retries >= max_retries
            &&& plan is Exhausted ==> plan->unassign == (record.task_slug is Some)
            &&& plan == RetryPlan::NoSlug <==> stuck && record.retries < max_retries
                && record.task_slug is None
            &&& refusal(record, max_retries) is None <==> plan == RetryPlan::Retry
        }),
{
}

/// The limit that an attempt ran into is doubled, as far as can be counted, and no other
/// is changed: turns where it ran out of turns, counted from those of its mode if it has
/// its own, and the budget where it ran out of that. An attempt whose end is not known
/// changes nothing.
pub proof fn only_the_limit_that_was_hit_is_raised(
    mode_turns: Option<u32>,
    turns: u32,
    last: LastResult,
)
    ensures
        ({
            let changed = overrides_after(mode_turns, turns, last);
            let ended = match last {
                LastResult::Found(subtype) => subtype@,
                _ => ""@,
            };
            &&& changed is Turns <==> last is Found && ended == "error_max_turns"@
            &&& changed == Overrides::Budget <==> last is Found && ended
                == "error_max_budget_usd"@
            &&& changed matches Overrides::Turns { current, doubled } ==> {
                &&& mode_turns is Some ==> current == mode_turns->0
                &&& mode_turns is None ==> current == turns
                &&& current * 2 <= u32::MAX ==> doubled == current * 2
                &&& current * 2 > u32::MAX ==> doubled == u32::MAX
            }
        }),
{
    reveal_strlit("error_max_turns");
    reveal_strlit("error_max_budget_usd");
    assert("error_max_turns"@.len() != "error_max_budget_usd"@.len());
}

/// The error of an attempt that could not be dispatched. `rollback` is the error
/// of giving the old record its status back, if there was one.
pub fn dispatch_error(error: &str, rollback: Option<&str>) -> (r: String)
    ensures
        r@ == match rollback {
            None => error@,
            Some(e) => "dispatch failed during retry ("@ + error@
                + "); additionally failed to rollback status: "@ + e@,
        },
{
    match rollback {
        None => error.to_owned(),
        Some(e) => {
            let mut out = concat("dispatch failed during retry (", error);
            push_str(&mut out, "); additionally failed to rollback status: ");
            push_str(&mut out, e);
            out
        },
    }
}

/// An attempt that ran here fails with its exit code.
pub fn inline_result(exit_code: Option<i32>) -> (r: Result<(), String>)
    ensures
        match exit_code {
            Some(code) => if code != 0 {
                r matches Err(e) && e@ == "inline dispatch failed with exit code "@
                    + text::decimal_int(code as int)
            } else {
                r is Ok
            },
            None => r is Ok,
        },
{
    match exit_code {
        Some(code) => if code != 0 {
            Err(concat("inline dispatch failed with exit code ", write_i64(code as i64).as_str()))
        } else {
            Ok(())
        },
        None => Ok(()),
    }
}

/// What is said of the last attempt names the limit that was hit, and what it was and
/// is now.
pub proof fn raised_limits_are_told(
    subtype: String,
    current: u32,
    doubled: u32,
    budget: Seq<char>,
    doubled_budget: Seq<char>,
)
    ensures
        text::ends(
            failure_text(
                LastResult::Found(subtype),
                Overrides::Turns { current, doubled },
                budget,
                doubled_budget,
            ),
            "max_turns ("@ + text::decimal(current as nat) + " \u{2192} "@ + text::decimal(
                doubled as nat,
            ) + ")."@,
        ),
        text::ends(
            failure_text(LastResult::Found(subtype), Overrides::Budget, budget, doubled_budget),
            "budget ($"@ + budget + " \u{2192} $"@ + doubled_budget + ")."@,
        ),
        failure_text(LastResult::Found(subtype), Overrides::Same, budget, doubled_budget)
            == "  Failure: "@ + subtype@ + ". Retrying with same configuration."@,
{
    reveal_strlit("  Failure: max turns reached. Retrying with doubled max_turns (");
    reveal_strlit("max_turns (");
    reveal_strlit("  Failure: budget exceeded. Retrying with doubled budget ($");
    reveal_strlit("budget ($");
    let a = failure_text(
        LastResult::Found(subtype),
        Overrides::Turns { current, doubled },
        budget,
        doubled_budget,
    );
    let end = "max_turns ("@ + text::decimal(current as nat) + " \u{2192} "@ + text::decimal(
        doubled as nat,
    ) + ")."@;
    assert(a.subrange(a.len() - end.len(), a.len() as int) =~= end);
    let b = failure_text(LastResult::Found(subtype), Overrides::Budget, budget, doubled_budget);
    let end = "budget ($"@ + budget + " \u{2192} $"@ + doubled_budget + ")."@;
    assert(b.subrange(b.len() - end.len(), b.len() as int) =~= end);
}

} // verus!
