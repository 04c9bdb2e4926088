//! `atc info` - one dispatch in detail.

use vstd::prelude::*;
use crate::pipeline::report::SCHEMA_VERSION;
use crate::status::{self, format_duration};
use crate::text::{self, concat, join, pad_right, push_str, write_u64};
use crate::times::{self, write_rfc3339};
use crate::types::{DispatchRecord, HealthChecks};

verus! {

/// JSON envelope for `atc info --json`.
pub struct InfoOutputV1<'a> {
    pub schema_version: u32,
    pub record: &'a DispatchRecord,
}

pub fn info_output<'a>(record: &'a DispatchRecord) -> (r: InfoOutputV1<'a>)
    ensures
        r.schema_version == SCHEMA_VERSION,
        *r.record == *record,
{
    InfoOutputV1 { schema_version: SCHEMA_VERSION, record }
}

/// A labelled value.
pub open spec fn info_line(label: Seq<char>, value: Seq<char>) -> Seq<char> {
    "  "@ + text::padded_right(label + ":"@, ' ', 16) + value
}

/// A line, unless it is left out.
pub open spec fn line_if(shown: bool, label: Seq<char>, value: Seq<char>) -> Seq<Seq<char>> {
    if shown {
        seq![info_line(label, value)]
    } else {
        Seq::empty()
    }
}

fn push_line(lines: &mut Vec<String>, label: &str, value: &str)
    ensures
        text::views(final(lines)@) == text::views(old(lines)@) + line_if(true, label@, value@),
{
    let mut line = "  ".to_owned();
    let name = concat(label, ":");
    push_str(&mut line, pad_right(name.as_str(), ' ', 16).as_str());
    push_str(&mut line, value);
    proof {
        text::views_push(lines@, line);
        assert(text::views(lines@).push(line@) =~= text::views(lines@) + line_if(
            true,
            label@,
            value@,
        ));
    }
    lines.push(line);
}

/// A health check.
pub open spec fn check_line(label: Seq<char>, met: bool) -> Seq<char> {
    "    "@ + text::padded_right(label, ' ', 23) + if met {
        "\u{2713}"@
    } else {
        "\u{2717}"@
    }
}

fn write_check(label: &str, met: bool) -> (r: String)
    ensures
        r@ == check_line(label@, met),
{
    let mut line = "    ".to_owned();
    push_str(&mut line, pad_right(label, ' ', 23).as_str());
    push_str(
        &mut line,
        if met {
            "\u{2713}"
        } else {
            "\u{2717}"
        },
    );
    line
}

/// The health checks.
pub open spec fn check_lines(c: HealthChecks) -> Seq<Seq<char>> {
    seq![
        "  checks:"@,
        check_line("agent_exited_clean:"@, c.agent_exited_clean),
        check_line("branch_pushed:"@, c.branch_pushed),
        check_line("pr_created:"@, c.pr_created),
        check_line("ci_passed:"@, c.ci_passed),
        check_line("reviews_approved:"@, c.reviews_approved),
        check_line("threads_resolved:"@, c.threads_resolved),
    ]
}

fn push_checks(lines: &mut Vec<String>, c: HealthChecks)
    ensures
        text::views(final(lines)@) == text::views(old(lines)@) + check_lines(c),
{
    let ghost before = text::views(lines@);
    lines.push("  checks:".to_owned());
    lines.push(write_check("agent_exited_clean:", c.agent_exited_clean));
    lines.push(write_check("branch_pushed:", c.branch_pushed));
    lines.push(write_check("pr_created:", c.pr_created));
    lines.push(write_check("ci_passed:", c.ci_passed));
    lines.push(write_check("reviews_approved:", c.reviews_approved));
    lines.push(write_check("threads_resolved:", c.threads_resolved));
    proof {
        assert(text::views(lines@) =~= before + check_lines(c));
    }
}

/// The first lines: what the dispatch is, and where it runs.
pub open spec fn identity_lines(r: DispatchRecord) -> Seq<Seq<char>> {
    line_if(true, "id"@, r.id@) + line_if(
        r.task_slug is Some,
        "task_slug"@,
        match r.task_slug {
            Some(s) => s@,
            None => ""@,
        },
    ) + line_if(true, "status"@, r.status.name()) + line_if(
        true,
        "directive"@,
        r.directive.name(),
    ) + line_if(true, "branch"@, r.branch@) + line_if(true, "resolver"@, r.resolver@) + line_if(
        r.worktree_path@.len() > 0,
        "worktree_path"@,
        r.worktree_path@,
    ) + line_if(true, "session"@, r.session@)
}

fn push_identity(lines: &mut Vec<String>, r: &DispatchRecord)
    ensures
        text::views(final(lines)@) == text::views(old(lines)@) + identity_lines(*r),
{
    let ghost before = text::views(lines@);
    push_line(lines, "id", r.id.as_str());
    if let Some(slug) = &r.task_slug {
        push_line(lines, "task_slug", slug.as_str());
    }
    push_line(lines, "status", r.status.as_str());
    push_line(lines, "directive", r.directive.as_str());
    push_line(lines, "branch", r.branch.as_str());
    push_line(lines, "resolver", r.resolver.as_str());
    if r.worktree_path.as_str().unicode_len() > 0 {
        push_line(lines, "worktree_path", r.worktree_path.as_str());
    }
    push_line(lines, "session", r.session.as_str());
    proof {
        assert(text::views(lines@) =~= before + identity_lines(*r));
    }
}

/// The lines on what the dispatch brought and cost, as far as it is known.
pub open spec fn outcome_lines(r: DispatchRecord) -> Seq<Seq<char>> {
    line_if(
        r.pr_urls@.len() > 0,
        "pr_urls"@,
        text::joined(text::views(r.pr_urls@), ", "@),
    ) + line_if(
        r.cost is Some,
        "cost_usd"@,
        match r.cost {
            Some(c) => "$"@ + c.amount@,
            None => ""@,
        },
    ) + line_if(
        r.num_turns is Some,
        "num_turns"@,
        match r.num_turns {
            Some(n) => text::decimal(n as nat),
            None => ""@,
        },
    ) + line_if(
        r.duration_ms is Some,
        "duration"@,
        match r.duration_ms {
            Some(ms) => status::duration_text(ms),
            None => ""@,
        },
    ) + line_if(r.retries > 0, "retries"@, text::decimal(r.retries as nat))
}

fn push_outcome(lines: &mut Vec<String>, r: &DispatchRecord)
    ensures
        text::views(final(lines)@) == text::views(old(lines)@) + outcome_lines(*r),
{
    let ghost before = text::views(lines@);
    if r.pr_urls.len() > 0 {
        push_line(lines, "pr_urls", join(&r.pr_urls, ", ").as_str());
    }
    if let Some(c) = &r.cost {
        push_line(lines, "cost_usd", concat("$", c.amount.as_str()).as_str());
    }
    if let Some(n) = r.num_turns {
        push_line(lines, "num_turns", write_u64(n as u64).as_str());
    }
    if let Some(ms) = r.duration_ms {
        push_line(lines, "duration", format_duration(ms).as_str());
    }
    if r.retries > 0 {
        push_line(lines, "retries", write_u64(r.retries as u64).as_str());
    }
    proof {
        assert(text::views(lines@) =~= before + outcome_lines(*r));
    }
}

/// The lines on when the dispatch was made and last updated.
pub open spec fn time_lines(r: DispatchRecord) -> Seq<Seq<char>> {
    line_if(
        true,
        "dispatched_at"@,
        times::or_dash(times::rfc3339_time(r.dispatched_at.secs, r.dispatched_at.nanos)),
    ) + line_if(
        true,
        "updated_at"@,
        times::or_dash(times::rfc3339_time(r.updated_at.secs, r.updated_at.nanos)),
    )
}

/// All lines on a dispatch.
pub open spec fn info_lines(r: DispatchRecord) -> Seq<Seq<char>> {
    identity_lines(r) + outcome_lines(r) + time_lines(r) + check_lines(r.checks)
}

/// Format a dispatch record for display.
pub fn format_info(record: &DispatchRecord) -> (r: String)
    ensures
        r@ == text::joined(info_lines(*record), "\n"@),
{
    let mut lines: Vec<String> = Vec::new();
    proof {
        assert(text::views(lines@) =~= Seq::<Seq<char>>::empty());
    }
    push_identity(&mut lines, record);
    push_outcome(&mut lines, record);
    push_line(&mut lines, "dispatched_at", write_rfc3339(record.dispatched_at).as_str());
    push_line(&mut lines, "updated_at", write_rfc3339(record.updated_at).as_str());
    push_checks(&mut lines, record.checks);
    proof {
        assert(text::views(lines@) =~= info_lines(*record));
    }
    join(&lines, "\n")
}

/// A line shows its label in front and its value at its end.
pub proof fn lines_show_label_and_value(label: Seq<char>, value: Seq<char>, met: bool)
    ensures
        text::starts(info_line(label, value), "  "@ + label + ":"@),
        text::ends(info_line(label, value), value),
        text::starts(check_line(label, met), "    "@ + label),
        text::ends(check_line(label, true), "\u{2713}"@),
        text::ends(check_line(label, false), "\u{2717}"@),
{
    let all = info_line(label, value);
    let head = "  "@ + label + ":"@;
    text::padding_fills_up(label + ":"@, ' ', 16);
    let padded = text::padded_right(label + ":"@, ' ', 16);
    assert(padded.subrange(0, label.len() as int + ":"@.len()) =~= label + ":"@);
    assert(all.subrange(0, head.len() as int) =~= head) by {
        assert forall|i: int| 0 <= i < head.len() implies all[i] == head[i] by {
            if i >= "  "@.len() {
                assert(all[i] == padded[i - "  "@.len()]);
                assert(padded.subrange(0, label.len() as int + ":"@.len())[i - "  "@.len()]
                    == padded[i - "  "@.len()]);
            }
        }
    }
    assert(all.subrange(all.len() - value.len(), all.len() as int) =~= value);
    let line = check_line(label, met);
    let head = "    "@ + label;
    text::padding_fills_up(label, ' ', 23);
    let padded = text::padded_right(label, ' ', 23);
    assert(padded.subrange(0, label.len() as int) =~= label);
    assert(line.subrange(0, head.len() as int) =~= head) by {
        assert forall|i: int| 0 <= i < head.len() implies line[i] == head[i] by {
            if i >= "    "@.len() {
                assert(line[i] == padded[i - "    "@.len()]);
                assert(padded.subrange(0, label.len() as int)[i - "    "@.len()] == padded[i
                    - "    "@.len()]);
            }
        }
    }
    let met = check_line(label, true);
    let unmet = check_line(label, false);
    assert(met.subrange(met.len() - "\u{2713}"@.len(), met.len() as int) =~= "\u{2713}"@);
    assert(unmet.subrange(unmet.len() - "\u{2717}"@.len(), unmet.len() as int) =~= "\u{2717}"@);
}

/// What is told of a dispatch is what it is and where it runs; what it brought and cost
/// as far as that is known; and how each of its checks went.
pub proof fn dispatches_are_told_as_they_are(r: DispatchRecord)
    ensures
        ({
            let lines = info_lines(r);
            &&& lines[0] == info_line("id"@, r.id@)
            &&& r.task_slug matches Some(t) ==> lines.contains(info_line("task_slug"@, t@))
            &&& lines.contains(info_line("status"@, r.status.name()))
            &&& lines.contains(info_line("directive"@, r.directive.name()))
            &&& lines.contains(info_line("branch"@, r.branch@))
            &&& lines.contains(info_line("resolver"@, r.resolver@))
            &&& r.worktree_path@.len() > 0 ==> lines.contains(
                info_line("worktree_path"@, r.worktree_path@),
            )
            &&& lines.contains(info_line("session"@, r.session@))
            &&& r.cost matches Some(c) ==> lines.contains(info_line("cost_usd"@, "$"@ + c.amount@))
            &&& r.num_turns matches Some(n) ==> lines.contains(
                info_line("num_turns"@, text::decimal(n as nat)),
            )
            &&& r.retries > 0 ==> lines.contains(
                info_line("retries"@, text::decimal(r.retries as nat)),
            )
            &&& lines[lines.len() - 6] == check_line(
                "agent_exited_clean:"@,
                r.checks.agent_exited_clean,
            )
            &&& lines[lines.len() - 5] == check_line("branch_pushed:"@, r.checks.branch_pushed)
            &&& lines[lines.len() - 4] == check_line("pr_created:"@, r.checks.pr_created)
            &&& lines[lines.len() - 3] == check_line("ci_passed:"@, r.checks.ci_passed)
            &&& lines[lines.len() - 2] == check_line(
                "reviews_approved:"@,
                r.checks.reviews_approved,
            )
            &&& lines[lines.len() - 1] == check_line(
                "threads_resolved:"@,
                r.checks.threads_resolved,
            )
        }),
{
    let lines = info_lines(r);
    let task: int = if r.task_slug is Some {
        1
    } else {
        0
    };
    let place: int = if r.worktree_path@.len() > 0 {
        1
    } else {
        0
    };
    if let Some(t) = r.task_slug {
        assert(lines[1] == info_line("task_slug"@, t@));
    }
    assert(lines[1 + task] == info_line("status"@, r.status.name()));
    assert(lines[2 + task] == info_line("directive"@, r.directive.name()));
    assert(lines[3 + task] == info_line("branch"@, r.branch@));
    assert(lines[4 + task] == info_line("resolver"@, r.resolver@));
    if r.worktree_path@.len() > 0 {
        assert(lines[5 + task] == info_line("worktree_path"@, r.worktree_path@));
    }
    assert(lines[5 + task + place] == info_line("session"@, r.session@));
    let n = identity_lines(r).len() as int;
    assert(n == 6 + task + place);
    let prs: int = if r.pr_urls@.len() > 0 {
        1
    } else {
        0
    };
    let cost: int = if r.cost is Some {
        1
    } else {
        0
    };
    let turns: int = if r.num_turns is Some {
        1
    } else {
        0
    };
    let time: int = if r.duration_ms is Some {
        1
    } else {
        0
    };
    let out = outcome_lines(r);
    assert forall|i: int| 0 <= i < out.len() implies lines.contains(#[trigger] out[i]) by {
        assert(lines[n + i] == out[i]);
    }
    if let Some(c) = r.cost {
        assert(out[prs] == info_line("cost_usd"@, "$"@ + c.amount@));
    }
    if let Some(k) = r.num_turns {
        assert(out[prs + cost] == info_line("num_turns"@, text::decimal(k as nat)));
    }
    if r.retries > 0 {
        assert(out[prs + cost + turns + time] == info_line(
            "retries"@,
            text::decimal(r.retries as nat),
        ));
    }
    let checks = check_lines(r.checks);
    assert(checks.len() == 7);
    assert forall|i: int| 0 <= i < 7 implies #[trigger] lines[lines.len() - 7 + i] == checks[i] by {}
    assert(lines[lines.len() - 7 + 1] == checks[1]);
    assert(lines[lines.len() - 7 + 2] == checks[2]);
    assert(lines[lines.len() - 7 + 3] == checks[3]);
    assert(lines[lines.len() - 7 + 4] == checks[4]);
    assert(lines[lines.len() - 7 + 5] == checks[5]);
    assert(lines[lines.len() - 7 + 6] == checks[6]);
}

} // verus!
