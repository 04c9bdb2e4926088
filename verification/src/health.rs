//! `atc health` - signals, transitions and what follows from them.

use vstd::prelude::*;
use crate::dispatch::list_contains;
use crate::order::{self, sort_by_keys, Newest};
use crate::strmap;
use crate::text::{self, concat, pad_right, push_str, same};
use crate::times::Span;
use crate::types::{Directive, DispatchRecord, HealthChecks, RunOpts, Status, Timestamp, WorkUnit, WorkUnitStatus};

verus! {

/// A record after its health was checked, and whether the check changed it.
pub struct HealthResult {
    pub record: DispatchRecord,
    pub changed: bool,
}

/// A signal as it is shown: met, not met, or not evaluated.
pub open spec fn signal_mark(evaluated: Option<bool>) -> Seq<char> {
    match evaluated {
        Some(true) => "\u{2713}"@,
        Some(false) => "\u{2717}"@,
        None => "-"@,
    }
}

/// Format a three-state signal value for display.
pub fn signal_display(evaluated: Option<bool>) -> (r: &'static str)
    ensures
        r@ == signal_mark(evaluated),
{
    match evaluated {
        Some(met) => if met {
            "\u{2713}"
        } else {
            "\u{2717}"
        },
        None => "-",
    }
}

/// The signals in the order they are checked.
pub open spec fn in_sequence(c: HealthChecks) -> Seq<bool> {
    seq![
        c.agent_exited_clean,
        c.branch_pushed,
        c.pr_created,
        c.ci_passed,
        c.reviews_approved,
        c.threads_resolved,
    ]
}

/// A signal counts as evaluated if all signals before it are met. Nothing is
/// evaluated on a record that waits for someone.
pub open spec fn signal(r: DispatchRecord, i: int) -> Option<bool> {
    let c = in_sequence(r.checks);
    if r.status == Status::NeedsHuman || exists|j: int| 0 <= j < i && !#[trigger] c[j] {
        None
    } else {
        Some(c[i])
    }
}

/// The display state of each signal of a record.
pub fn signal_values(record: &DispatchRecord) -> (r: [Option<bool>; 6])
    ensures
        forall|i: int| 0 <= i < 6 ==> #[trigger] r@[i] == signal(*record, i),
{
    let ghost s = in_sequence(record.checks);
    if record.status == Status::NeedsHuman {
        return [None, None, None, None, None, None];
    }
    let c = record.checks;
    let agent = Some(c.agent_exited_clean);
    if !c.agent_exited_clean {
        assert(!s[0]);
        return [agent, None, None, None, None, None];
    }
    let branch = Some(c.branch_pushed);
    if !c.branch_pushed {
        assert(!s[1]);
        return [agent, branch, None, None, None, None];
    }
    let pr = Some(c.pr_created);
    if !c.pr_created {
        assert(!s[2]);
        return [agent, branch, pr, None, None, None];
    }
    let ci = Some(c.ci_passed);
    if !c.ci_passed {
        assert(!s[3]);
        return [agent, branch, pr, ci, None, None];
    }
    let reviews = Some(c.reviews_approved);
    if !c.reviews_approved {
        assert(!s[4]);
        return [agent, branch, pr, ci, reviews, None];
    }
    let threads = Some(c.threads_resolved);
    [agent, branch, pr, ci, reviews, threads]
}

/// Behind a signal that is not met, or not evaluated, nothing is evaluated.
pub proof fn signals_stop_at_the_first_failure(r: DispatchRecord, i: int, j: int)
    requires
        0 <= i < j < 6,
        signal(r, i) != Some(true),
    ensures
        signal(r, j) is None,
{
    let c = in_sequence(r.checks);
    if r.status != Status::NeedsHuman {
        if exists|k: int| 0 <= k < i && !#[trigger] c[k] {
            let k = choose|k: int| 0 <= k < i && !#[trigger] c[k];
            assert(0 <= k < j && !c[k]);
        } else {
            assert(!c[i]);
        }
    }
}

/// Eight cells at fixed places, separated by a space.
pub open spec fn columns(cells: Seq<Seq<char>>) -> Seq<char> {
    text::padded_right(cells[0], ' ', 25) + " "@ + text::padded_right(cells[1], ' ', 14) + " "@
        + text::padded_right(cells[2], ' ', 14) + " "@ + text::padded_right(cells[3], ' ', 15)
        + " "@ + text::padded_right(cells[4], ' ', 12) + " "@ + text::padded_right(cells[5], ' ', 11)
        + " "@ + text::padded_right(cells[6], ' ', 18) + " "@ + text::padded_right(cells[7], ' ', 16)
}

fn write_columns(cells: [&str; 8]) -> (r: String)
    ensures
        r@ == columns(cells@.map_values(|s: &str| s@)),
{
    let mut out = pad_right(cells[0], ' ', 25);
    push_str(&mut out, " ");
    push_str(&mut out, pad_right(cells[1], ' ', 14).as_str());
    push_str(&mut out, " ");
    push_str(&mut out, pad_right(cells[2], ' ', 14).as_str());
    push_str(&mut out, " ");
    push_str(&mut out, pad_right(cells[3], ' ', 15).as_str());
    push_str(&mut out, " ");
    push_str(&mut out, pad_right(cells[4], ' ', 12).as_str());
    push_str(&mut out, " ");
    push_str(&mut out, pad_right(cells[5], ' ', 11).as_str());
    push_str(&mut out, " ");
    push_str(&mut out, pad_right(cells[6], ' ', 18).as_str());
    push_str(&mut out, " ");
    push_str(&mut out, pad_right(cells[7], ' ', 16).as_str());
    out
}

/// The headings of the health table.
pub open spec fn health_headings() -> Seq<Seq<char>> {
    seq![
        "id"@,
        "status"@,
        "agent_exited"@,
        "branch_pushed"@,
        "pr_created"@,
        "ci_passed"@,
        "reviews_approved"@,
        "threads_resolved"@,
    ]
}

/// The cells of a record in the health table.
pub open spec fn health_cells(r: DispatchRecord) -> Seq<Seq<char>> {
    seq![
        r.id@,
        r.status.name(),
        signal_mark(signal(r, 0)),
        signal_mark(signal(r, 1)),
        signal_mark(signal(r, 2)),
        signal_mark(signal(r, 3)),
        signal_mark(signal(r, 4)),
        signal_mark(signal(r, 5)),
    ]
}

fn health_line(r: &DispatchRecord) -> (s: String)
    ensures
        s@ == columns(health_cells(*r)),
{
    let v = signal_values(r);
    let cells = [
        r.id.as_str(),
        r.status.as_str(),
        signal_display(v[0]),
        signal_display(v[1]),
        signal_display(v[2]),
        signal_display(v[3]),
        signal_display(v[4]),
        signal_display(v[5]),
    ];
    proof {
        assert(v@[0] == signal(*r, 0));
        assert(v@[1] == signal(*r, 1));
        assert(v@[2] == signal(*r, 2));
        assert(v@[3] == signal(*r, 3));
        assert(v@[4] == signal(*r, 4));
        assert(v@[5] == signal(*r, 5));
        assert(cells@.map_values(|s: &str| s@) =~= health_cells(*r));
    }
    write_columns(cells)
}

/// The lines of the health table.
pub open spec fn health_table(records: Seq<DispatchRecord>) -> Seq<Seq<char>> {
    seq![columns(health_headings())] + records.map_values(
        |r: DispatchRecord| columns(health_cells(r)),
    )
}

/// Lays the records out in a table, one line each.
pub fn print_table(records: &Vec<DispatchRecord>) -> (r: Vec<String>)
    ensures
        text::views(r@) == health_table(records@),
{
    let head = [
        "id",
        "status",
        "agent_exited",
        "branch_pushed",
        "pr_created",
        "ci_passed",
        "reviews_approved",
        "threads_resolved",
    ];
    proof {
        assert(head@.map_values(|s: &str| s@) =~= health_headings());
    }
    let mut lines = vec![write_columns(head)];
    let ghost top = seq![columns(health_headings())];
    let ghost all = records@.map_values(|r: DispatchRecord| columns(health_cells(r)));
    let mut i: usize = 0;
    proof {
        assert(text::views(lines@) =~= top + all.take(0));
    }
    while i < records.len()
        invariant
            i <= records.len(),
            all == records@.map_values(|r: DispatchRecord| columns(health_cells(r))),
            text::views(lines@) == top + all.take(i as int),
        decreases records.len() - i,
    {
        let line = health_line(&records[i]);
        proof {
            text::views_push(lines@, line);
            assert(all.take(i + 1) =~= all.take(i as int).push(line@));
            assert(top + all.take(i + 1) =~= (top + all.take(i as int)).push(line@));
        }
        lines.push(line);
        i += 1;
    }
    proof {
        assert(all.take(i as int) =~= all);
    }
    lines
}

/// A record that waits for a review of its own making: it just came to that
/// state, has a task and a pull request, and is not a review fix itself.
pub open spec fn wants_review_fix(r: HealthResult) -> bool {
    &&& r.changed
    &&& r.record.status == Status::NeedsReview
    &&& r.record.pr_urls@.len() > 0
    &&& r.record.task_slug is Some
    &&& r.record.directive != Directive::ReviewFix
}

/// Determine which records should have a review fix dispatched.
pub fn collect_auto_review_candidates<'a>(results: &'a Vec<HealthResult>) -> (r: Vec<
    &'a DispatchRecord,
>)
    ensures
        r@.map_values(|d: &DispatchRecord| *d) == results@.filter(
            |h: HealthResult| wants_review_fix(h),
        ).map_values(|h: HealthResult| h.record),
{
    let ghost all = results@;
    let ghost keep = |h: HealthResult| wants_review_fix(h);
    let ghost pick = |h: HealthResult| h.record;
    let ghost deref = |d: &DispatchRecord| *d;
    let mut out: Vec<&'a DispatchRecord> = Vec::new();
    let mut i: usize = 0;
    proof {
        reveal(Seq::filter);
        assert(all.take(0) =~= Seq::empty());
        assert(out@.map_values(deref) =~= all.take(0).filter(keep).map_values(pick));
    }
    while i < results.len()
        invariant
            i <= results.len(),
            all == results@,
            keep == (|h: HealthResult| wants_review_fix(h)),
            pick == (|h: HealthResult| h.record),
            deref == (|d: &DispatchRecord| *d),
            out@.map_values(deref) == all.take(i as int).filter(keep).map_values(pick),
        decreases results.len() - i,
    {
        proof {
            reveal(Seq::filter);
            assert(all.take(i + 1).drop_last() =~= all.take(i as int));
            assert(all.take(i + 1).last() == results@[i as int]);
        }
        let r = &results[i];
        if r.changed && r.record.status == Status::NeedsReview && r.record.pr_urls.len() > 0
            && r.record.task_slug.is_some() && r.record.directive != Directive::ReviewFix {
            let ghost before = out@;
            let ghost kept = all.take(i as int).filter(keep);
            out.push(&r.record);
            proof {
                assert(out@.map_values(deref) =~= before.map_values(deref).push(r.record));
                assert(all.take(i + 1).filter(keep) =~= kept.push(*r));
                assert(kept.push(*r).map_values(pick) =~= kept.map_values(pick).push(r.record));
            }
        }
        i += 1;
    }
    proof {
        assert(all.take(i as int) =~= all);
    }
    out
}

/// A review fix never leads to another review fix.
pub proof fn review_fixes_do_not_loop(r: HealthResult)
    requires
        r.record.directive == Directive::ReviewFix,
    ensures
        !wants_review_fix(r),
{
}

/// The dispatch of a review fix for a record.
pub fn review_fix_opts(record: &DispatchRecord) -> (r: Option<RunOpts>)
    ensures
        match record.task_slug {
            None => r is None,
            Some(slug) => r matches Some(o) && o.is_plain() && o.input@ == "task "@ + slug@
                && o.directive == Some(Directive::ReviewFix) && strmap::opt_view(o.pr_url) == (
            if record.pr_urls@.len() > 0 {
                Some(record.pr_urls@[0]@)
            } else {
                None
            }),
        },
{
    match &record.task_slug {
        None => None,
        Some(slug) => {
            let pr_url = if record.pr_urls.len() > 0 {
                Some(record.pr_urls[0].clone())
            } else {
                None
            };
            Some(RunOpts::plain(concat("task ", slug.as_str()), Some(Directive::ReviewFix), pr_url))
        },
    }
}

/// What is said before a review fix is dispatched.
pub fn review_fix_notice(task_slug: &str) -> (r: String)
    ensures
        r@ == "Auto-triggering review-fix for "@ + task_slug@ + "..."@,
{
    let mut out = concat("Auto-triggering review-fix for ", task_slug);
    push_str(&mut out, "...");
    out
}

/// What is said of a review fix that was dispatched, or was not.
pub fn review_fix_outcome(task_slug: &str, outcome: &Result<String, String>) -> (r: String)
    ensures
        r@ == match *outcome {
            Ok(session) => "  Dispatched review-fix for "@ + task_slug@ + ": session="@ + session@,
            Err(e) => "  Warning: review-fix dispatch failed for "@ + task_slug@ + ": "@ + e@,
        },
{
    match outcome {
        Ok(session) => {
            let mut out = concat("  Dispatched review-fix for ", task_slug);
            push_str(&mut out, ": session=");
            push_str(&mut out, session.as_str());
            out
        },
        Err(e) => {
            let mut out = concat("  Warning: review-fix dispatch failed for ", task_slug);
            push_str(&mut out, ": ");
            push_str(&mut out, e.as_str());
            out
        },
    }
}

/// The warning for a record whose cost is over the threshold.
pub open spec fn cost_alarm(id: Seq<char>, amount: Seq<char>, threshold: Seq<char>) -> Seq<char> {
    "\u{26a0} "@ + id + " cost $"@ + amount + " (exceeds $"@ + threshold + " threshold)"@
}

/// The warning for a record, if its cost is known and over the threshold.
/// `threshold` is the threshold as it is written.
pub fn cost_warning(record: &DispatchRecord, over: bool, threshold: &str) -> (r: Option<String>)
    ensures
        strmap::opt_view(r) == match record.cost {
            Some(c) => if over {
                Some(cost_alarm(record.id@, c.amount@, threshold@))
            } else {
                None
            },
            None => None,
        },
{
    match &record.cost {
        Some(c) => if over {
            let mut out = concat("\u{26a0} ", record.id.as_str());
            push_str(&mut out, " cost $");
            push_str(&mut out, c.amount.as_str());
            push_str(&mut out, " (exceeds $");
            push_str(&mut out, threshold);
            push_str(&mut out, " threshold)");
            Some(out)
        } else {
            None
        },
        None => None,
    }
}

/// What is done about a record that ended without being wrapped up.
#[derive(Clone, Copy, Debug, PartialEq, Eq, Structural)]
pub enum Stale {
    /// Nothing: it has not ended, or is wrapped up.
    Fine,
    /// Extract what its log holds.
    Extract,
    /// Its log is missing: warn and go on.
    NoLog,
}

/// A record that ended cleanly, but has no artifacts, was not wrapped up.
pub open spec fn staleness(r: DispatchRecord, log_exists: bool) -> Stale {
    if r.checks.agent_exited_clean && (r.status == Status::Done || r.status == Status::Failed
        || r.status == Status::NeedsReview) && r.artifacts is None {
        if log_exists {
            Stale::Extract
        } else {
            Stale::NoLog
        }
    } else {
        Stale::Fine
    }
}

pub fn check_stale(r: &DispatchRecord, log_exists: bool) -> (s: Stale)
    ensures
        s == staleness(*r, log_exists),
{
    if r.checks.agent_exited_clean && matches!(
        r.status,
        Status::Done | Status::Failed | Status::NeedsReview
    ) && r.artifacts.is_none() {
        if log_exists {
            Stale::Extract
        } else {
            Stale::NoLog
        }
    } else {
        Stale::Fine
    }
}

/// The position of the first result from `i` on with the given name.
pub open spec fn result_at(results: Seq<HealthResult>, id: Seq<char>, i: int) -> Option<int>
    decreases results.len() - i,
{
    if i < 0 || i >= results.len() {
        None
    } else if results[i].record.id@ == id {
        Some(i)
    } else {
        result_at(results, id, i + 1)
    }
}

/// Puts a record that was read anew in the place of the old one.
pub fn refresh_result(results: &mut Vec<HealthResult>, fresh: DispatchRecord)
    ensures
        match result_at(old(results)@, fresh.id@, 0) {
            Some(i) => 0 <= i < old(results)@.len() && final(results)@ == old(results)@.update(
                i,
                HealthResult { record: fresh, changed: old(results)@[i].changed },
            ),
            None => final(results)@ == old(results)@,
        },
{
    let mut i: usize = 0;
    while i < results.len()
        invariant
            i <= results.len(),
            results@ == old(results)@,
            result_at(old(results)@, fresh.id@, 0) == result_at(
                old(results)@,
                fresh.id@,
                i as int,
            ),
        decreases results.len() - i,
    {
        if same(results[i].record.id.as_str(), fresh.id.as_str()) {
            let changed = results[i].changed;
            results.set(i, HealthResult { record: fresh, changed });
            return ;
        }
        i += 1;
    }
}

/// Costs are looked at on records that changed, or that were just wrapped up.
pub fn is_cost_checked(r: &HealthResult, refreshed: &Vec<String>) -> (b: bool)
    ensures
        b == (r.changed || text::views(refreshed@).contains(r.record.id@)),
{
    r.changed || list_contains(refreshed, r.record.id.as_str())
}

/// Whether a record with the given name is among the results.
pub open spec fn in_results(results: Seq<HealthResult>, id: Seq<char>) -> bool {
    exists|i: int| 0 <= i < results.len() && (#[trigger] results[i]).record.id@ == id
}

fn is_in_results(results: &Vec<HealthResult>, id: &str) -> (b: bool)
    ensures
        b == in_results(results@, id@),
{
    let mut i: usize = 0;
    while i < results.len()
        invariant
            i <= results.len(),
            forall|j: int| 0 <= j < i ==> (#[trigger] results@[j]).record.id@ != id@,
        decreases results.len() - i,
    {
        if same(results[i].record.id.as_str(), id) {
            return true;
        }
        i += 1;
    }
    false
}

/// Thirty days.
pub open spec fn cleanup_horizon() -> Span {
    Span { secs: 2_592_000, nanos: 0 }
}

/// A record that was done before this check, and not too long ago.
pub open spec fn done_before(
    r: DispatchRecord,
    results: Seq<HealthResult>,
    now: Timestamp,
) -> bool {
    !in_results(results, r.id@) && r.updated_at.total() > now.total() - cleanup_horizon().total()
}

/// The records whose worktrees may be cleaned up: those that are done, from
/// this check, and then those from before.
pub open spec fn done_records(
    results: Seq<HealthResult>,
    known: Seq<DispatchRecord>,
    now: Timestamp,
) -> Seq<DispatchRecord> {
    results.filter(|h: HealthResult| h.record.status == Status::Done).map_values(
        |h: HealthResult| h.record,
    ) + known.filter(|r: DispatchRecord| done_before(r, results, now))
}

fn done_in_results<'a>(results: &'a Vec<HealthResult>) -> (r: Vec<&'a DispatchRecord>)
    ensures
        r@.map_values(|d: &DispatchRecord| *d) == results@.filter(
            |h: HealthResult| h.record.status == Status::Done,
        ).map_values(|h: HealthResult| h.record),
{
    let ghost all = results@;
    let ghost keep = |h: HealthResult| h.record.status == Status::Done;
    let ghost pick = |h: HealthResult| h.record;
    let ghost deref = |d: &DispatchRecord| *d;
    let mut out: Vec<&'a DispatchRecord> = Vec::new();
    let mut i: usize = 0;
    proof {
        reveal(Seq::filter);
        assert(all.take(0) =~= Seq::empty());
        assert(out@.map_values(deref) =~= all.take(0).filter(keep).map_values(pick));
    }
    while i < results.len()
        invariant
            i <= results.len(),
            all == results@,
            keep == (|h: HealthResult| h.record.status == Status::Done),
            pick == (|h: HealthResult| h.record),
            deref == (|d: &DispatchRecord| *d),
            out@.map_values(deref) == all.take(i as int).filter(keep).map_values(pick),
        decreases results.len() - i,
    {
        proof {
            reveal(Seq::filter);
            assert(all.take(i + 1).drop_last() =~= all.take(i as int));
            assert(all.take(i + 1).last() == results@[i as int]);
        }
        let r = &results[i];
        if r.record.status == Status::Done {
            let ghost before = out@;
            let ghost kept = all.take(i as int).filter(keep);
            out.push(&r.record);
            proof {
                assert(out@.map_values(deref) =~= before.map_values(deref).push(r.record));
                assert(all.take(i + 1).filter(keep) =~= kept.push(*r));
                assert(kept.push(*r).map_values(pick) =~= kept.map_values(pick).push(r.record));
            }
        }
        i += 1;
    }
    proof {
        assert(all.take(i as int) =~= all);
    }
    out
}

/// Collects the records whose worktrees may be cleaned up. `known` holds the
/// records that are done as far as the registry knows.
pub fn collect_done<'a>(
    results: &'a Vec<HealthResult>,
    known: &'a Vec<DispatchRecord>,
    now: Timestamp,
) -> (r: Vec<&'a DispatchRecord>)
    ensures
        r@.map_values(|d: &DispatchRecord| *d) == done_records(results@, known@, now),
{
    let mut out = done_in_results(results);
    let ghost all = known@;
    let ghost deref = |d: &DispatchRecord| *d;
    let ghost head = out@.map_values(deref);
    let ghost keep = |r: DispatchRecord| done_before(r, results@, now);
    let horizon = Span { secs: 2_592_000, nanos: 0 };
    let cutoff: i128 = now.total_nanos() - horizon.total_nanos();
    let mut i: usize = 0;
    proof {
        reveal(Seq::filter);
        assert(all.take(0) =~= Seq::empty());
        assert(head + all.take(0).filter(keep) =~= head);
    }
    while i < known.len()
        invariant
            i <= known.len(),
            all == known@,
            deref == (|d: &DispatchRecord| *d),
            keep == (|r: DispatchRecord| done_before(r, results@, now)),
            cutoff == now.total() - cleanup_horizon().total(),
            out@.map_values(deref) == head + all.take(i as int).filter(keep),
        decreases known.len() - i,
    {
        proof {
            reveal(Seq::filter);
            assert(all.take(i + 1).drop_last() =~= all.take(i as int));
            assert(all.take(i + 1).last() == known@[i as int]);
        }
        let r = &known[i];
        if !is_in_results(results, r.id.as_str()) && r.updated_at.total_nanos() > cutoff {
            let ghost before = out@;
            let ghost kept = all.take(i as int).filter(keep);
            out.push(r);
            proof {
                assert(out@.map_values(deref) =~= before.map_values(deref).push(*r));
                assert(all.take(i + 1).filter(keep) =~= kept.push(*r));
                assert(head + kept.push(*r) =~= (head + kept).push(*r));
            }
        }
        i += 1;
    }
    proof {
        assert(all.take(i as int) =~= all);
    }
    out
}

/// A worktree is cleaned up only if it exists, there is a pull request, and
/// every pull request of the record was looked up and is over.
pub open spec fn removable(urls: nat, worktree_exists: bool, prs_done: Seq<bool>) -> bool {
    &&& urls > 0
    &&& worktree_exists
    &&& prs_done.len() == urls
    &&& forall|i: int| 0 <= i < prs_done.len() ==> #[trigger] prs_done[i]
}

/// Whether the pull requests of a record have to be looked up at all.
pub fn is_cleanup_candidate(record: &DispatchRecord, worktree_exists: bool) -> (r: bool)
    ensures
        r == (record.pr_urls@.len() > 0 && worktree_exists),
{
    record.pr_urls.len() > 0 && worktree_exists
}

/// Whether the worktree of a record is cleaned up. `prs_done` tells, for each
/// of its pull requests, whether it is merged or closed.
pub fn may_clean_up(record: &DispatchRecord, worktree_exists: bool, prs_done: &Vec<bool>) -> (r:
    bool)
    ensures
        r == removable(record.pr_urls@.len(), worktree_exists, prs_done@),
{
    if !is_cleanup_candidate(record, worktree_exists) || prs_done.len() != record.pr_urls.len() {
        return false;
    }
    let mut i: usize = 0;
    while i < prs_done.len()
        invariant
            i <= prs_done.len(),
            forall|j: int| 0 <= j < i ==> #[trigger] prs_done@[j],
        decreases prs_done.len() - i,
    {
        if !prs_done[i] {
            return false;
        }
        i += 1;
    }
    true
}

/// What becomes of a work unit.
#[derive(Clone, Copy, Debug, PartialEq, Eq, Structural)]
pub enum Transition {
    /// It stays as it is.
    Stay,
    /// The state of a pull request is not known: it stays as it is.
    Unknown,
    To(WorkUnitStatus),
}

/// The pull request is merged or closed.
pub open spec fn is_over(state: Option<Seq<char>>) -> bool {
    state == Some("MERGED"@) || state == Some("CLOSED"@)
}

/// The states of pull requests.
pub open spec fn states(v: Seq<Option<String>>) -> Seq<Option<Seq<char>>> {
    v.map_values(|s: Option<String>| strmap::opt_view(s))
}

/// A work unit is over when all its pull requests are: merged if one of them
/// is, else closed.
pub open spec fn transition(s: Seq<Option<Seq<char>>>) -> Transition {
    if s.len() == 0 {
        Transition::Stay
    } else if exists|i: int| 0 <= i < s.len() && (#[trigger] s[i]) is None {
        Transition::Unknown
    } else if exists|i: int| 0 <= i < s.len() && !is_over(#[trigger] s[i]) {
        Transition::Stay
    } else if exists|i: int| 0 <= i < s.len() && #[trigger] s[i] == Some("MERGED"@) {
        Transition::To(WorkUnitStatus::Merged)
    } else {
        Transition::To(WorkUnitStatus::Closed)
    }
}

/// Decides what becomes of a work unit whose pull requests are in the given
/// states.
pub fn unit_transition(pr_states: &Vec<Option<String>>) -> (r: Transition)
    ensures
        r == transition(states(pr_states@)),
{
    let ghost s = states(pr_states@);
    if pr_states.len() == 0 {
        return Transition::Stay;
    }
    let mut unknown = false;
    let mut all_over = true;
    let mut any_merged = false;
    let mut i: usize = 0;
    while i < pr_states.len()
        invariant
            i <= pr_states.len(),
            s == states(pr_states@),
            unknown == exists|j: int| 0 <= j < i && (#[trigger] s[j]) is None,
            !all_over == exists|j: int| 0 <= j < i && !is_over(#[trigger] s[j]),
            any_merged == exists|j: int| 0 <= j < i && #[trigger] s[j] == Some("MERGED"@),
        decreases pr_states.len() - i,
    {
        proof {
            assert(s[i as int] == strmap::opt_view(pr_states@[i as int]));
        }
        match &pr_states[i] {
            None => {
                unknown = true;
                all_over = false;
            },
            Some(state) => {
                if same(state.as_str(), "MERGED") {
                    any_merged = true;
                } else if !same(state.as_str(), "CLOSED") {
                    all_over = false;
                }
            },
        }
        i += 1;
    }
    if unknown {
        Transition::Unknown
    } else if !all_over {
        Transition::Stay
    } else if any_merged {
        Transition::To(WorkUnitStatus::Merged)
    } else {
        Transition::To(WorkUnitStatus::Closed)
    }
}

/// A work unit is given up only if every one of its pull requests is over.
pub proof fn open_units_stay_active(s: Seq<Option<Seq<char>>>, i: int)
    requires
        0 <= i < s.len(),
        !is_over(s[i]),
    ensures
        !(transition(s) is To),
{
}

/// What is said of a work unit that is over.
pub fn transition_message(unit: &WorkUnit, to: WorkUnitStatus) -> (r: String)
    ensures
        r@ == "Work unit "@ + (match unit.task_slug {
            Some(s) => s@,
            None => unit.id@,
        }) + " \u{2192} "@ + to.name() + " (all PRs done)"@,
{
    let name = match &unit.task_slug {
        Some(s) => s.as_str(),
        None => unit.id.as_str(),
    };
    let mut out = concat("Work unit ", name);
    push_str(&mut out, " \u{2192} ");
    push_str(&mut out, to.as_str());
    push_str(&mut out, " (all PRs done)");
    out
}

/// Whether a record with the given name is among the records.
pub open spec fn in_records(records: Seq<DispatchRecord>, id: Seq<char>) -> bool {
    exists|i: int| 0 <= i < records.len() && (#[trigger] records[i]).id@ == id
}

fn is_in_records(records: &Vec<DispatchRecord>, n: usize, id: &str) -> (b: bool)
    requires
        n <= records@.len(),
    ensures
        b == in_records(records@.take(n as int), id@),
{
    let mut i: usize = 0;
    while i < n
        invariant
            i <= n <= records@.len(),
            forall|j: int| 0 <= j < i ==> (#[trigger] records@[j]).id@ != id@,
        decreases n - i,
    {
        if same(records[i].id.as_str(), id) {
            proof {
                assert(records@.take(n as int)[i as int] == records@[i as int]);
            }
            return true;
        }
        i += 1;
    }
    false
}

/// The records to show: those that were checked, those that wait for someone,
/// and any others that are not among them.
pub open spec fn to_show(
    results: Seq<HealthResult>,
    needs_human: Seq<DispatchRecord>,
    others: Seq<DispatchRecord>,
) -> Seq<DispatchRecord> {
    let base = results.map_values(|h: HealthResult| h.record) + needs_human;
    base + others.filter(|r: DispatchRecord| !in_records(base, r.id@))
}

/// What the records are ordered by: the latest dispatch first.
pub open spec fn dispatch_times(records: Seq<DispatchRecord>) -> Seq<Newest> {
    records.map_values(|r: DispatchRecord| Newest(r.dispatched_at))
}

fn append(out: &mut Vec<DispatchRecord>, more: Vec<DispatchRecord>)
    ensures
        final(out)@ == old(out)@ + more@,
{
    let ghost head = out@;
    let ghost all = more@;
    let mut rest = order::reversed(more);
    proof {
        assert(head + all.take(0) =~= head);
    }
    while rest.len() > 0
        invariant
            rest@.len() <= all.len(),
            rest@ == all.reverse().take(rest@.len() as int),
            out@ == head + all.take(all.len() - rest@.len()),
        decreases rest.len(),
    {
        let ghost n = rest@.len() as int;
        match rest.pop() {
            Some(r) => {
                out.push(r);
                proof {
                    assert(rest@ =~= all.reverse().take(n - 1));
                    assert(out@ =~= head + all.take(all.len() - n + 1));
                }
            },
            None => {},
        }
    }
    proof {
        assert(all.take(all.len() as int) =~= all);
    }
}

fn checked_records(results: Vec<HealthResult>) -> (r: Vec<DispatchRecord>)
    ensures
        r@ == results@.map_values(|h: HealthResult| h.record),
{
    let ghost all = results@.map_values(|h: HealthResult| h.record);
    let ghost items = results@;
    let mut rest = order::reversed(results);
    let mut out: Vec<DispatchRecord> = Vec::new();
    proof {
        assert(all.take(0) =~= Seq::empty());
    }
    while rest.len() > 0
        invariant
            rest@.len() <= items.len(),
            all == items.map_values(|h: HealthResult| h.record),
            rest@ == items.reverse().take(rest@.len() as int),
            out@ == all.take(all.len() - rest@.len()),
        decreases rest.len(),
    {
        let ghost n = rest@.len() as int;
        match rest.pop() {
            Some(h) => {
                out.push(h.record);
                proof {
                    assert(rest@ =~= items.reverse().take(n - 1));
                    assert(out@ =~= all.take(all.len() - n + 1));
                }
            },
            None => {},
        }
    }
    proof {
        assert(all.take(all.len() as int) =~= all);
    }
    out
}

fn append_missing(out: &mut Vec<DispatchRecord>, others: Vec<DispatchRecord>)
    ensures
        final(out)@ == old(out)@ + others@.filter(
            |r: DispatchRecord| !in_records(old(out)@, r.id@),
        ),
{
    let ghost base = out@;
    let n: usize = out.len();
    let ghost all = others@;
    let ghost keep = |r: DispatchRecord| !in_records(base, r.id@);
    let mut rest = order::reversed(others);
    proof {
        reveal(Seq::filter);
        assert(all.take(0) =~= Seq::empty());
        assert(base + all.take(0).filter(keep) =~= base);
    }
    while rest.len() > 0
        invariant
            n == base.len(),
            rest@.len() <= all.len(),
            rest@ == all.reverse().take(rest@.len() as int),
            keep == (|r: DispatchRecord| !in_records(base, r.id@)),
            out@ == base + all.take(all.len() - rest@.len()).filter(keep),
        decreases rest.len(),
    {
        let ghost k = rest@.len() as int;
        match rest.pop() {
            Some(r) => {
                proof {
                    reveal(Seq::filter);
                    let at = all.len() - k;
                    assert(rest@ =~= all.reverse().take(k - 1));
                    assert(r == all[at]);
                    assert(all.take(at + 1).drop_last() =~= all.take(at));
                    assert(all.take(at + 1).last() == r);
                    assert(out@.take(n as int) =~= base);
                }
                if !is_in_records(out, n, r.id.as_str()) {
                    let ghost before = all.take(all.len() - k).filter(keep);
                    out.push(r);
                    proof {
                        assert((base + before).push(r) =~= base + before.push(r));
                    }
                }
            },
            None => {},
        }
    }
    proof {
        assert(all.take(all.len() as int) =~= all);
    }
}

/// The list, or an empty one.
pub open spec fn list_or_none(o: Option<Vec<DispatchRecord>>) -> Seq<DispatchRecord> {
    match o {
        Some(list) => list@,
        None => Seq::empty(),
    }
}

/// The records as they are shown, the latest dispatch first. `others` holds
/// further records if all are asked for.
pub fn assemble_display(
    results: Vec<HealthResult>,
    needs_human: Vec<DispatchRecord>,
    others: Option<Vec<DispatchRecord>>,
) -> (r: Vec<DispatchRecord>)
    ensures
        ({
            let shown = to_show(results@, needs_human@, list_or_none(others));
            exists|p: Seq<usize>|
                #![trigger order::arranged(shown, p)]
                order::is_order(dispatch_times(shown), p, shown.len() as int) && r@
                    == order::arranged(shown, p)
        }),
{
    let ghost more = list_or_none(others);
    let ghost shown = to_show(results@, needs_human@, more);
    let mut out = checked_records(results);
    append(&mut out, needs_human);
    let ghost base = out@;
    match others {
        Some(o) => append_missing(&mut out, o),
        None => {
            proof {
                reveal(Seq::filter);
                let none = more.filter(|r: DispatchRecord| !in_records(base, r.id@));
                assert(base + none =~= base);
            }
        },
    }
    proof {
        assert(out@ == shown);
    }
    let mut keys: Vec<Newest> = Vec::new();
    let mut i: usize = 0;
    while i < out.len()
        invariant
            i <= out.len(),
            out@ == shown,
            keys@ == dispatch_times(shown).take(i as int),
        decreases out.len() - i,
    {
        keys.push(Newest(out[i].dispatched_at));
        i += 1;
        proof {
            assert(keys@ =~= dispatch_times(shown).take(i as int));
        }
    }
    proof {
        assert(keys@ =~= dispatch_times(shown));
    }
    sort_by_keys(out, &keys)
}

/// No record is shown twice for having changed during the check: one that is
/// among the checked records is not taken from the others.
pub proof fn others_do_not_repeat(
    results: Seq<HealthResult>,
    needs_human: Seq<DispatchRecord>,
    others: Seq<DispatchRecord>,
    i: int,
)
    requires
        results.len() + needs_human.len() <= i < to_show(results, needs_human, others).len(),
    ensures
        !in_records(
            results.map_values(|h: HealthResult| h.record) + needs_human,
            to_show(results, needs_human, others)[i].id@,
        ),
{
    let base = results.map_values(|h: HealthResult| h.record) + needs_human;
    let keep = |r: DispatchRecord| !in_records(base, r.id@);
    others.lemma_filter_pred(keep, i - base.len());
}

/// The signals are the exit of the agent, the pushed branch, the pull request, its checks,
/// its reviews and its threads, in this order. Each is shown as it is exactly where the
/// record waits for nobody and all signals before it are met.
pub proof fn signals_are_shown_in_order(r: DispatchRecord)
    ensures
        ({
            let c = r.checks;
            let open = r.status != Status::NeedsHuman;
            &&& signal(r, 0) == if open {
                Some(c.agent_exited_clean)
            } else {
                None
            }
            &&& signal(r, 1) == if open && c.agent_exited_clean {
                Some(c.branch_pushed)
            } else {
                None
            }
            &&& signal(r, 2) == if open && c.agent_exited_clean && c.branch_pushed {
                Some(c.pr_created)
            } else {
                None
            }
            &&& signal(r, 3) == if open && c.agent_exited_clean && c.branch_pushed && c.pr_created {
                Some(c.ci_passed)
            } else {
                None
            }
            &&& signal(r, 4) == if open && c.agent_exited_clean && c.branch_pushed && c.pr_created
                && c.ci_passed {
                Some(c.reviews_approved)
            } else {
                None
            }
            &&& signal(r, 5) == if open && c.agent_exited_clean && c.branch_pushed && c.pr_created
                && c.ci_passed && c.reviews_approved {
                Some(c.threads_resolved)
            } else {
                None
            }
        }),
{
    let s = in_sequence(r.checks);
    if !r.checks.agent_exited_clean {
        assert(!s[0]);
    }
    if !r.checks.branch_pushed {
        assert(!s[1]);
    }
    if !r.checks.pr_created {
        assert(!s[2]);
    }
    if !r.checks.ci_passed {
        assert(!s[3]);
    }
    if !r.checks.reviews_approved {
        assert(!s[4]);
    }
}

/// A review fix follows exactly a record that just came to wait for a review, has a task
/// and a pull request, and is no review fix itself.
pub proof fn review_fixes_follow_reviews(r: HealthResult)
    ensures
        wants_review_fix(r) <==> (r.changed && r.record.status == Status::NeedsReview
            && r.record.pr_urls@.len() > 0 && r.record.task_slug is Some && r.record.directive
            != Directive::ReviewFix),
{
}

/// What a log holds is extracted exactly where the agent exited cleanly, the dispatch is
/// done, failed or in review, nothing was extracted before, and there is a log.
pub proof fn logs_are_extracted_once(r: DispatchRecord, log_exists: bool)
    ensures
        ({
            let owed = r.checks.agent_exited_clean && r.artifacts is None && (r.status
                == Status::Done || r.status == Status::Failed || r.status == Status::NeedsReview);
            &&& staleness(r, log_exists) == Stale::Extract <==> owed && log_exists
            &&& staleness(r, log_exists) == Stale::NoLog <==> owed && !log_exists
            &&& staleness(r, log_exists) == Stale::Fine <==> !owed
        }),
{
}

/// A record that was read anew takes the place of the first one of its name.
pub proof fn fresh_records_find_their_place(results: Seq<HealthResult>, id: Seq<char>, from: int)
    requires
        0 <= from <= results.len(),
    ensures
        match result_at(results, id, from) {
            Some(i) => from <= i < results.len() && results[i].record.id@ == id && forall|j: int|
                from <= j < i ==> (#[trigger] results[j]).record.id@ != id,
            None => forall|j: int|
                from <= j < results.len() ==> (#[trigger] results[j]).record.id@ != id,
        },
    decreases results.len() - from,
{
    if from < results.len() {
        fresh_records_find_their_place(results, id, from + 1);
    }
}

/// A worktree goes exactly where it is there and every one of the record's pull requests
/// is known to be over; one that is not is enough to keep it.
pub proof fn open_requests_keep_worktrees(urls: nat, worktree_exists: bool, prs_done: Seq<bool>)
    ensures
        removable(urls, worktree_exists, prs_done) <==> worktree_exists && urls > 0
            && prs_done.len() == urls && !prs_done.contains(false),
        !worktree_exists || urls == 0 ==> !removable(urls, worktree_exists, prs_done),
{
    if prs_done.contains(false) {
        let i = choose|i: int| 0 <= i < prs_done.len() && prs_done[i] == false;
        assert(!prs_done[i]);
    } else {
        assert forall|i: int| 0 <= i < prs_done.len() implies #[trigger] prs_done[i] by {
            if !prs_done[i] {
                assert(prs_done[i] == false);
            }
        }
    }
}

/// A work unit becomes merged exactly where all its pull requests are merged or closed and
/// one is merged, and closed exactly where all are closed; where one could not be looked
/// up nothing is decided.
pub proof fn units_end_with_their_requests(s: Seq<Option<Seq<char>>>)
    ensures
        transition(s) == Transition::To(WorkUnitStatus::Merged) <==> s.contains(Some("MERGED"@))
            && forall|i: int|
            0 <= i < s.len() ==> #[trigger] s[i] == Some("MERGED"@) || s[i] == Some("CLOSED"@),
        transition(s) == Transition::To(WorkUnitStatus::Closed) <==> s.len() > 0 && forall|i: int|
            0 <= i < s.len() ==> #[trigger] s[i] == Some("CLOSED"@),
        transition(s) == Transition::Unknown <==> s.contains(None),
        transition(s) is To ==> transition(s)->To_0 != WorkUnitStatus::Active,
{
    reveal_strlit("MERGED");
    reveal_strlit("CLOSED");
    assert("MERGED"@[0] != "CLOSED"@[0]);
    if s.contains(None) {
        let i = choose|i: int| 0 <= i < s.len() && s[i] is None;
        assert(s[i] is None);
    }
    if s.contains(Some("MERGED"@)) {
        let i = choose|i: int| 0 <= i < s.len() && s[i] == Some("MERGED"@);
        assert(s[i] == Some("MERGED"@));
    }
    if s.len() > 0 {
        assert(s[0] == s[0]);
    }
}

/// The worktrees that may be cleaned up are those of records that this check found done,
/// and of records that were done before, that it did not look at, and that changed within
/// thirty days.
pub proof fn done_records_are_those_of_a_month(
    results: Seq<HealthResult>,
    known: Seq<DispatchRecord>,
    now: Timestamp,
    r: DispatchRecord,
)
    ensures
        done_records(results, known, now).contains(r) <==> (exists|i: int|
            0 <= i < results.len() && (#[trigger] results[i]).record == r && r.status
                == Status::Done) || (known.contains(r) && !(exists|i: int|
            0 <= i < results.len() && (#[trigger] results[i]).record.id@ == r.id@)
            && r.updated_at.secs * 1_000_000_000 + r.updated_at.nanos > now.secs * 1_000_000_000
            + now.nanos - 30 * 24 * 3_600 * 1_000_000_000),
{
    let keep = |h: HealthResult| h.record.status == Status::Done;
    let pick = |h: HealthResult| h.record;
    let before = |d: DispatchRecord| done_before(d, results, now);
    let a = results.filter(keep).map_values(pick);
    let b = known.filter(before);
    let all = a + b;
    if all.contains(r) {
        let k = choose|k: int| 0 <= k < all.len() && all[k] == r;
        if k < a.len() {
            let h = results.filter(keep)[k];
            assert(results.filter(keep).contains(h));
            results.lemma_filter_contains_rev(keep, h);
            results.lemma_filter_pred(keep, k);
            let i = choose|i: int| 0 <= i < results.len() && results[i] == h;
            assert(results[i].record == r);
        } else {
            let j = k - a.len();
            assert(b[j] == r);
            assert(b.contains(r));
            known.lemma_filter_contains_rev(before, r);
            known.lemma_filter_pred(before, j);
        }
    }
    if exists|i: int| 0 <= i < results.len() && (#[trigger] results[i]).record == r && r.status
        == Status::Done {
        let i = choose|i: int|
            0 <= i < results.len() && (#[trigger] results[i]).record == r && r.status
                == Status::Done;
        results.lemma_filter_contains(keep, i);
        let f = results.filter(keep);
        let k = choose|k: int| 0 <= k < f.len() && f[k] == results[i];
        assert(all[k] == r);
    }
    if known.contains(r) && done_before(r, results, now) {
        let i = choose|i: int| 0 <= i < known.len() && known[i] == r;
        known.lemma_filter_contains(before, i);
        let k = choose|k: int| 0 <= k < b.len() && b[k] == r;
        assert(all[a.len() + k] == r);
    }
}

/// Every record that was checked or waits for someone is shown, every other one under its
/// name, and nothing else.
pub proof fn all_records_are_shown(
    results: Seq<HealthResult>,
    needs_human: Seq<DispatchRecord>,
    others: Seq<DispatchRecord>,
    r: DispatchRecord,
)
    ensures
        (exists|i: int| 0 <= i < results.len() && (#[trigger] results[i]).record == r)
            || needs_human.contains(r) ==> to_show(results, needs_human, others).contains(r),
        others.contains(r) ==> in_records(to_show(results, needs_human, others), r.id@),
        to_show(results, needs_human, others).contains(r) ==> (exists|i: int|
            0 <= i < results.len() && (#[trigger] results[i]).record == r) || needs_human.contains(
            r,
        ) || others.contains(r),
{
    let checked = results.map_values(|h: HealthResult| h.record);
    let base = checked + needs_human;
    let keep = |d: DispatchRecord| !in_records(base, d.id@);
    let rest = others.filter(keep);
    let all = to_show(results, needs_human, others);
    if exists|i: int| 0 <= i < results.len() && (#[trigger] results[i]).record == r {
        let i = choose|i: int| 0 <= i < results.len() && (#[trigger] results[i]).record == r;
        assert(all[i] == r);
    }
    if needs_human.contains(r) {
        let i = choose|i: int| 0 <= i < needs_human.len() && needs_human[i] == r;
        assert(all[checked.len() + i] == r);
    }
    if others.contains(r) {
        if in_records(base, r.id@) {
            let i = choose|i: int| 0 <= i < base.len() && (#[trigger] base[i]).id@ == r.id@;
            assert(all[i] == base[i]);
        } else {
            let i = choose|i: int| 0 <= i < others.len() && others[i] == r;
            others.lemma_filter_contains(keep, i);
            let k = choose|k: int| 0 <= k < rest.len() && rest[k] == r;
            assert(all[base.len() + k] == r);
        }
    }
    if all.contains(r) {
        let k = choose|k: int| 0 <= k < all.len() && all[k] == r;
        if k < checked.len() {
            assert(results[k].record == r);
        } else if k < base.len() {
            assert(needs_human[k - checked.len()] == r);
        } else {
            assert(rest[k - base.len()] == r);
            assert(rest.contains(r));
            others.lemma_filter_contains_rev(keep, r);
        }
    }
}

/// The row of a record shows its name, its status and its signals in their order, each
/// as met, not met or not looked at.
pub proof fn rows_show_the_signals(r: DispatchRecord, i: int)
    requires
        0 <= i < 6,
    ensures
        health_cells(r).len() == 8,
        health_cells(r)[0] == r.id@,
        health_cells(r)[1] == r.status.name(),
        signal(r, i) == Some(true) ==> health_cells(r)[i + 2] == "\u{2713}"@,
        signal(r, i) == Some(false) ==> health_cells(r)[i + 2] == "\u{2717}"@,
        signal(r, i) is None ==> health_cells(r)[i + 2] == "-"@,
{
}

/// Whatever the width of its cells, a row holds each of them.
pub proof fn rows_hold_their_cells(cells: Seq<Seq<char>>, i: int)
    requires
        cells.len() == 8,
        0 <= i < 8,
    ensures
        text::occurs(columns(cells), cells[i]),
{
    text::padding_fills_up(cells[0], ' ', 25);
    let p0 = text::padded_right(cells[0], ' ', 25);
    assert(text::occurs_at(p0, 0, cells[0]));
    text::padding_fills_up(cells[1], ' ', 14);
    let p1 = text::padded_right(cells[1], ' ', 14);
    assert(text::occurs_at(p1, 0, cells[1]));
    text::padding_fills_up(cells[2], ' ', 14);
    let p2 = text::padded_right(cells[2], ' ', 14);
    assert(text::occurs_at(p2, 0, cells[2]));
    text::padding_fills_up(cells[3], ' ', 15);
    let p3 = text::padded_right(cells[3], ' ', 15);
    assert(text::occurs_at(p3, 0, cells[3]));
    text::padding_fills_up(cells[4], ' ', 12);
    let p4 = text::padded_right(cells[4], ' ', 12);
    assert(text::occurs_at(p4, 0, cells[4]));
    text::padding_fills_up(cells[5], ' ', 11);
    let p5 = text::padded_right(cells[5], ' ', 11);
    assert(text::occurs_at(p5, 0, cells[5]));
    text::padding_fills_up(cells[6], ' ', 18);
    let p6 = text::padded_right(cells[6], ' ', 18);
    assert(text::occurs_at(p6, 0, cells[6]));
    text::padding_fills_up(cells[7], ' ', 16);
    let p7 = text::padded_right(cells[7], ' ', 16);
    assert(text::occurs_at(p7, 0, cells[7]));
    let s0 = p0;
    let s1 = s0 + " "@ + p1;
    let s2 = s1 + " "@ + p2;
    let s3 = s2 + " "@ + p3;
    let s4 = s3 + " "@ + p4;
    let s5 = s4 + " "@ + p5;
    let s6 = s5 + " "@ + p6;
    let s7 = s6 + " "@ + p7;
    text::sums_hold_what_is_in_them(s0, " "@, cells[i]);
    text::sums_hold_what_is_in_them(s0 + " "@, p1, cells[i]);
    text::sums_hold_what_is_in_them(s1, " "@, cells[i]);
    text::sums_hold_what_is_in_them(s1 + " "@, p2, cells[i]);
    text::sums_hold_what_is_in_them(s2, " "@, cells[i]);
    text::sums_hold_what_is_in_them(s2 + " "@, p3, cells[i]);
    text::sums_hold_what_is_in_them(s3, " "@, cells[i]);
    text::sums_hold_what_is_in_them(s3 + " "@, p4, cells[i]);
    text::sums_hold_what_is_in_them(s4, " "@, cells[i]);
    text::sums_hold_what_is_in_them(s4 + " "@, p5, cells[i]);
    text::sums_hold_what_is_in_them(s5, " "@, cells[i]);
    text::sums_hold_what_is_in_them(s5 + " "@, p6, cells[i]);
    text::sums_hold_what_is_in_them(s6, " "@, cells[i]);
    text::sums_hold_what_is_in_them(s6 + " "@, p7, cells[i]);
    assert(columns(cells) == s7);
}

} // verus!
