//! `atc history` - all dispatches of a work unit.

use vstd::prelude::*;
use crate::status::{self, format_duration, format_pr_list};
use crate::tables::{self, render_table};
use crate::text::{self, concat, join, push_str, write_u64};
use crate::times::{self, write_minutes};
use crate::types::{DispatchRecord, WorkUnit};

verus! {

/// A line, unless it is left out.
pub open spec fn line_if(shown: bool, label: Seq<char>, value: Seq<char>) -> Seq<char> {
    if shown {
        label + value + "\n"@
    } else {
        ""@
    }
}

fn push_if(out: &mut String, shown: bool, label: &str, value: &str)
    ensures
        final(out)@ == old(out)@ + line_if(shown, label@, value@),
{
    if shown {
        let mut line = concat(label, value);
        push_str(&mut line, "\n");
        push_str(out, line.as_str());
    } else {
        push_str(out, "");
    }
}

/// What is known of the work unit.
pub open spec fn unit_head(unit: WorkUnit) -> Seq<char> {
    line_if(
        true,
        "Work Unit: "@,
        match unit.task_slug {
            Some(s) => s@,
            None => unit.id@,
        },
    ) + line_if(
        unit.branch is Some,
        "  Branch: "@,
        match unit.branch {
            Some(b) => b@,
            None => ""@,
        },
    ) + line_if(
        unit.repos@.len() > 0,
        "  Repos:  "@,
        text::joined(text::views(unit.repos@), ", "@),
    ) + line_if(
        unit.pr_urls@.len() > 0,
        "  PRs:    "@,
        status::pr_cell(status::short_prs(text::views(unit.pr_urls@))),
    ) + line_if(true, "  Status: "@, unit.status.name()) + "\n"@
}

fn write_unit_head(unit: &WorkUnit) -> (out: String)
    ensures
        out@ == unit_head(*unit),
{
    let title = match &unit.task_slug {
        Some(s) => s.as_str(),
        None => unit.id.as_str(),
    };
    let branch = match &unit.branch {
        Some(b) => b.as_str(),
        None => "",
    };
    let mut out = String::new();
    push_if(&mut out, true, "Work Unit: ", title);
    proof {
        assert(out@ =~= line_if(
            true,
            "Work Unit: "@,
            match unit.task_slug {
                Some(s) => s@,
                None => unit.id@,
            },
        ));
    }
    push_if(&mut out, unit.branch.is_some(), "  Branch: ", branch);
    push_if(&mut out, unit.repos.len() > 0, "  Repos:  ", join(&unit.repos, ", ").as_str());
    push_if(
        &mut out,
        unit.pr_urls.len() > 0,
        "  PRs:    ",
        format_pr_list(&unit.pr_urls).as_str(),
    );
    push_if(&mut out, true, "  Status: ", unit.status.as_str());
    push_str(&mut out, "\n");
    out
}

/// The cells of a dispatch.
pub open spec fn history_cells(r: DispatchRecord) -> Seq<Seq<char>> {
    seq![
        times::or_dash(
            times::written_time(r.dispatched_at.secs, r.dispatched_at.nanos, "%Y-%m-%d %H:%M"@),
        ),
        r.directive.name(),
        r.status.name(),
        match r.cost {
            Some(c) => "$"@ + c.amount@,
            None => "-"@,
        },
        status::duration_cell(r.duration_ms),
        status::pr_cell(status::short_prs(text::views(r.pr_urls@))),
    ]
}

fn history_row(r: &DispatchRecord) -> (row: Vec<String>)
    ensures
        text::views(row@) == history_cells(*r),
{
    let cost = match &r.cost {
        Some(c) => concat("$", c.amount.as_str()),
        None => "-".to_owned(),
    };
    let duration = match r.duration_ms {
        Some(ms) => format_duration(ms),
        None => "-".to_owned(),
    };
    let row = vec![
        write_minutes(r.dispatched_at),
        r.directive.as_str().to_owned(),
        r.status.as_str().to_owned(),
        cost,
        duration,
        format_pr_list(&r.pr_urls),
    ];
    proof {
        assert(text::views(row@) =~= history_cells(*r));
    }
    row
}

/// The headings of the history.
pub open spec fn history_headings() -> Seq<Seq<char>> {
    seq!["dispatched_at"@, "directive"@, "status"@, "cost"@, "duration"@, "pr_urls"@]
}

/// The total of a number of dispatches.
pub open spec fn total_text(cost: Seq<char>, n: nat) -> Seq<char> {
    "\nTotal: $"@ + cost + " across "@ + text::decimal(n) + " dispatch"@ + if n == 1 {
        ""@
    } else {
        "es"@
    }
}

fn write_total(cost: &str, n: usize) -> (out: String)
    ensures
        out@ == total_text(cost@, n as nat),
{
    let mut out = concat("\nTotal: $", cost);
    push_str(&mut out, " across ");
    push_str(&mut out, write_u64(n as u64).as_str());
    push_str(&mut out, " dispatch");
    push_str(
        &mut out,
        if n == 1 {
            ""
        } else {
            "es"
        },
    );
    out
}

/// The history of a work unit.
pub open spec fn history_text(
    unit: WorkUnit,
    dispatches: Seq<DispatchRecord>,
    cost: Seq<char>,
) -> Seq<char> {
    unit_head(unit) + tables::table_text(
        history_headings(),
        dispatches.map_values(|r: DispatchRecord| history_cells(r)),
    ) + total_text(cost, dispatches.len())
}

/// Build the history table for a work unit's dispatches. `cost` is their total
/// cost as it is written.
pub fn build_history_table(unit: &WorkUnit, dispatches: &Vec<DispatchRecord>, cost: &str) -> (r:
    String)
    ensures
        r@ == history_text(*unit, dispatches@, cost@),
{
    let header = vec![
        "dispatched_at".to_owned(),
        "directive".to_owned(),
        "status".to_owned(),
        "cost".to_owned(),
        "duration".to_owned(),
        "pr_urls".to_owned(),
    ];
    proof {
        assert(text::views(header@) =~= history_headings());
    }
    let mut rows: Vec<Vec<String>> = Vec::new();
    let ghost all = dispatches@.map_values(|r: DispatchRecord| history_cells(r));
    let mut i: usize = 0;
    proof {
        assert(tables::grid(rows@) =~= all.take(0));
    }
    while i < dispatches.len()
        invariant
            i <= dispatches.len(),
            all == dispatches@.map_values(|r: DispatchRecord| history_cells(r)),
            tables::grid(rows@) == all.take(i as int),
        decreases dispatches.len() - i,
    {
        let row = history_row(&dispatches[i]);
        proof {
            tables::grid_push(rows@, row);
            assert(all.take(i + 1) =~= all.take(i as int).push(text::views(row@)));
        }
        rows.push(row);
        i += 1;
    }
    proof {
        assert(all.take(i as int) =~= all);
    }
    let mut out = write_unit_head(unit);
    push_str(&mut out, render_table(&header, &rows).as_str());
    push_str(&mut out, write_total(cost, dispatches.len()).as_str());
    out
}

/// How the work unit is looked up.
#[derive(Clone, Copy, Debug, PartialEq, Eq, Structural)]
pub enum Lookup {
    Task,
    PullRequest,
    Branch,
}

/// How the work unit is looked up: by task before pull request before branch.
pub fn choose_lookup(slug: Option<&str>, pr: Option<&str>, branch: Option<&str>) -> (r: Result<
    Lookup,
    String,
>)
    ensures
        if slug is Some {
            r == Ok::<Lookup, String>(Lookup::Task)
        } else if pr is Some {
            r == Ok::<Lookup, String>(Lookup::PullRequest)
        } else if branch is Some {
            r == Ok::<Lookup, String>(Lookup::Branch)
        } else {
            r matches Err(e) && e@ == "provide a task slug, --pr URL, or --branch name"@
        },
{
    if slug.is_some() {
        Ok(Lookup::Task)
    } else if pr.is_some() {
        Ok(Lookup::PullRequest)
    } else if branch.is_some() {
        Ok(Lookup::Branch)
    } else {
        Err("provide a task slug, --pr URL, or --branch name".to_owned())
    }
}

/// What is said where there is no such work unit.
pub fn not_found_message(slug: Option<&str>, pr: Option<&str>, branch: Option<&str>) -> (r: String)
    ensures
        r@ == "No work unit found for: "@ + match slug {
            Some(s) => s@,
            None => match pr {
                Some(p) => p@,
                None => match branch {
                    Some(b) => b@,
                    None => "(unknown)"@,
                },
            },
        },
{
    let target = match slug {
        Some(s) => s,
        None => match pr {
            Some(p) => p,
            None => match branch {
                Some(b) => b,
                None => "(unknown)",
            },
        },
    };
    concat("No work unit found for: ", target)
}

/// What is said of a work unit without dispatches.
pub fn empty_message(unit: &WorkUnit) -> (r: String)
    ensures
        r@ == "Work unit "@ + unit.id@ + " has no dispatches."@,
{
    let mut out = concat("Work unit ", unit.id.as_str());
    push_str(&mut out, " has no dispatches.");
    out
}

/// The history of a unit begins with its task, or else its name, and ends with what
/// all of its dispatches cost together.
pub proof fn histories_begin_with_their_unit(
    unit: WorkUnit,
    dispatches: Seq<DispatchRecord>,
    cost: Seq<char>,
)
    ensures
        unit.task_slug matches Some(t) ==> text::starts(
            history_text(unit, dispatches, cost),
            "Work Unit: "@ + t@ + "\n"@,
        ),
        unit.task_slug is None ==> text::starts(
            history_text(unit, dispatches, cost),
            "Work Unit: "@ + unit.id@ + "\n"@,
        ),
        dispatches.len() == 1 ==> text::ends(
            history_text(unit, dispatches, cost),
            "Total: $"@ + cost + " across "@ + text::decimal(1) + " dispatch"@,
        ),
        dispatches.len() != 1 ==> text::ends(
            history_text(unit, dispatches, cost),
            "Total: $"@ + cost + " across "@ + text::decimal(dispatches.len()) + " dispatches"@,
        ),
{
    let all = history_text(unit, dispatches, cost);
    let title = match unit.task_slug {
        Some(t) => t@,
        None => unit.id@,
    };
    let head = "Work Unit: "@ + title + "\n"@;
    assert(unit_head(unit).subrange(0, head.len() as int) =~= head);
    assert(all.subrange(0, head.len() as int) =~= unit_head(unit).subrange(0, head.len() as int));
    reveal_strlit("");
    reveal_strlit("es");
    reveal_strlit(" dispatch");
    reveal_strlit(" dispatches");
    reveal_strlit("\nTotal: $");
    reveal_strlit("Total: $");
    let end = if dispatches.len() == 1 {
        "Total: $"@ + cost + " across "@ + text::decimal(1) + " dispatch"@
    } else {
        "Total: $"@ + cost + " across "@ + text::decimal(dispatches.len()) + " dispatches"@
    };
    let total = total_text(cost, dispatches.len());
    assert(total.subrange(1, total.len() as int) =~= end);
    assert(all.subrange(all.len() - end.len(), all.len() as int) =~= total.subrange(
        1,
        total.len() as int,
    ));
}

/// A dispatch is shown with what it was told to do, how it went, and what it cost, each
/// under its heading; a dash stands for what is not known.
pub proof fn histories_show_each_dispatch(r: DispatchRecord)
    ensures
        history_cells(r).len() == history_headings().len(),
        history_headings()[1] == "directive"@ && history_cells(r)[1] == r.directive.name(),
        history_headings()[2] == "status"@ && history_cells(r)[2] == r.status.name(),
        history_headings()[3] == "cost"@,
        r.cost matches Some(c) ==> history_cells(r)[3] == "$"@ + c.amount@,
        r.cost is None ==> history_cells(r)[3] == "-"@,
        history_headings()[4] == "duration"@,
        r.duration_ms matches Some(ms) ==> history_cells(r)[4] == status::duration_text(ms),
        r.duration_ms is None ==> history_cells(r)[4] == "-"@,
{
}

} // verus!
