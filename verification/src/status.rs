//! `atc status` - selection, ordering and rendering of dispatch records.

use vstd::prelude::*;
use crate::order::reversed;
use crate::style::{self, apply, dim, render_cost, render_status, render_work_unit_status, strong, Style};
use crate::tables::{self, render_table};
use crate::terminal_text::{self, is_control_char, is_dangerous_format_control};
use crate::text::{self, chars_of, concat, join, pad_left, push_str, same, split, take_chars, to_lower, write_u64};
use crate::times::{self, is_within, write_seconds, Span};
use crate::types::{Cost, DispatchRecord, Status, Timestamp, WorkUnit};

verus! {

/// Maximum PR URLs to render inline in a cell. Excess collapses to `+N more`.
pub const PR_LIST_INLINE_CAP: usize = 3;

/// The statuses shown by default: what runs and what waits for someone.
pub open spec fn shown_by_default(s: Status) -> bool {
    s == Status::Running || s == Status::Retrying || s == Status::NeedsHuman || s
        == Status::NeedsReview
}

pub fn is_shown_by_default(s: Status) -> (r: bool)
    ensures
        r == shown_by_default(s),
{
    matches!(s, Status::Running | Status::Retrying | Status::NeedsHuman | Status::NeedsReview)
}

/// Minutes and seconds, or seconds alone below a minute.
pub open spec fn duration_text(ms: u64) -> Seq<char> {
    let secs = ms / 1000;
    if secs / 60 > 0 {
        text::decimal((secs / 60) as nat) + "m "@ + text::padded_left(
            text::decimal((secs % 60) as nat),
            '0',
            2,
        ) + "s"@
    } else {
        text::decimal((secs % 60) as nat) + "s"@
    }
}

/// Format duration_ms as human-friendly "Nm NNs".
pub fn format_duration(ms: u64) -> (r: String)
    ensures
        r@ == duration_text(ms),
{
    let secs: u64 = ms / 1000;
    let minutes: u64 = secs / 60;
    let seconds: u64 = secs % 60;
    if minutes > 0 {
        let mut out = concat(write_u64(minutes).as_str(), "m ");
        push_str(&mut out, pad_left(write_u64(seconds).as_str(), '0', 2).as_str());
        push_str(&mut out, "s");
        out
    } else {
        concat(write_u64(seconds).as_str(), "s")
    }
}

/// At most `max_len` characters, and an ellipsis where some were cut off.
pub open spec fn truncated(s: Seq<char>, max_len: nat) -> Seq<char> {
    if s.len() <= max_len {
        s
    } else {
        s.take(max_len as int).push('\u{2026}')
    }
}

/// Truncate a string to `max_len` chars, appending an ellipsis if truncated.
pub fn truncate(s: &str, max_len: usize) -> (r: String)
    ensures
        r@ == truncated(s@, max_len as nat),
{
    if s.unicode_len() <= max_len {
        s.to_owned()
    } else {
        let mut out = take_chars(s, max_len);
        out.push('\u{2026}');
        out
    }
}

/// What `regex::Regex` says of a pattern and a text: whether the text matches,
/// or nothing where the pattern is no regular expression.
pub uninterp spec fn regex_match(pattern: Seq<char>, t: Seq<char>) -> Option<bool>;

/// `regex::Regex::new` and `regex::Regex::is_match`: whether the pattern matches
/// somewhere in the text. The outcome is named, not described.
#[verifier::external_body]
fn regex_is_match(pattern: &str, t: &str) -> (r: Option<bool>)
    ensures
        r == regex_match(pattern@, t@),
{
    regex::Regex::new(pattern).ok().map(|re| re.is_match(t))
}

/// The form of a pull request URL.
pub open spec fn pr_url_pattern() -> Seq<char> {
    "^https://github\\.com/[^/]+/[^/]+/pull/\\d+(#issuecomment-\\d+)?$"@
}

/// Strict GitHub PR URL validator. Allows optional `#issuecomment-NNN` suffix.
pub fn is_valid_github_pr_url(url: &str) -> (r: bool)
    ensures
        r == (regex_match(pr_url_pattern(), url@) == Some(true)),
{
    match regex_is_match("^https://github\\.com/[^/]+/[^/]+/pull/\\d+(#issuecomment-\\d+)?$", url) {
        Some(matched) => matched,
        None => false,
    }
}

/// What follows the scheme of a web address.
pub open spec fn after_scheme(url: Seq<char>) -> Option<Seq<char>> {
    if text::starts(url, "https://"@) {
        Some(url.skip("https://"@.len() as int))
    } else if text::starts(url, "http://"@) {
        Some(url.skip("http://"@.len() as int))
    } else {
        None
    }
}

/// A character that stands in an address: neither a space nor one that a terminal
/// would act upon.
pub open spec fn in_address(c: char) -> bool {
    !text::is_space(c) && terminal_text::is_safe(c)
}

/// The address of a page on a host other than GitHub.
pub open spec fn is_foreign(url: Seq<char>) -> bool {
    &&& after_scheme(url) matches Some(rest) && text::split_on(rest, '/')[0] != "github.com"@
    &&& forall|i: int| 0 <= i < url.len() ==> in_address(#[trigger] url[i])
}

fn is_foreign_url(url: &str) -> (r: bool)
    ensures
        r == is_foreign(url@),
{
    let rest = match text::strip_prefix(url, "https://") {
        Some(rest) => rest,
        None => match text::strip_prefix(url, "http://") {
            Some(rest) => rest,
            None => {
                return false;
            },
        },
    };
    let pieces = split(rest.as_str(), '/');
    proof {
        assert(text::views(pieces@)[0] == pieces@[0]@);
    }
    if same(pieces[0].as_str(), "github.com") {
        return false;
    }
    let chars = chars_of(url);
    let mut i: usize = 0;
    while i < chars.len()
        invariant
            i <= chars.len(),
            chars@ == url@,
            forall|j: int| 0 <= j < i ==> in_address(#[trigger] url@[j]),
        decreases chars.len() - i,
    {
        let c = chars[i];
        if text::space(c) || is_control_char(c) || is_dangerous_format_control(c) {
            proof {
                assert(!in_address(url@[i as int]));
            }
            return false;
        }
        i += 1;
    }
    true
}

/// A pull request URL in short: `repo#N`. An address on another host stands for
/// itself, and what is neither gets a mark.
pub open spec fn short_pr(url: Seq<char>, valid: bool) -> Seq<char> {
    let host = "https://github.com/"@;
    if is_foreign(url) {
        url
    } else if !valid || !text::starts(url, host) {
        "(invalid)"@
    } else {
        let parts = text::split_on(text::split_on(url.skip(host.len() as int), '#')[0], '/');
        if parts.len() >= 4 && parts[2] == "pull"@ {
            parts[1] + "#"@ + parts[3]
        } else {
            "(invalid)"@
        }
    }
}

/// The short form of a URL, given whether it is a valid pull request URL.
pub fn shorten_pr_url(url: &str, valid: bool) -> (r: String)
    ensures
        r@ == short_pr(url@, valid),
{
    if is_foreign_url(url) {
        return url.to_owned();
    }
    if !valid {
        return "(invalid)".to_owned();
    }
    match text::strip_prefix(url, "https://github.com/") {
        None => "(invalid)".to_owned(),
        Some(path) => {
            let pieces = split(path.as_str(), '#');
            proof {
                assert(text::views(pieces@)[0] == pieces@[0]@);
            }
            let parts = split(pieces[0].as_str(), '/');
            proof {
                assert(text::views(parts@).len() == parts@.len());
                if parts@.len() >= 4 {
                    assert(text::views(parts@)[1] == parts@[1]@);
                    assert(text::views(parts@)[2] == parts@[2]@);
                    assert(text::views(parts@)[3] == parts@[3]@);
                }
            }
            if parts.len() >= 4 && same(parts[2].as_str(), "pull") {
                let mut out = concat(parts[1].as_str(), "#");
                push_str(&mut out, parts[3].as_str());
                out
            } else {
                "(invalid)".to_owned()
            }
        },
    }
}

/// Format PR URLs as compact "repo#N" references. Addresses on other hosts are kept,
/// and malformed ones rejected.
pub fn format_pr_url(url: &str) -> (r: String)
    ensures
        r@ == short_pr(url@, regex_match(pr_url_pattern(), url@) == Some(true)),
{
    shorten_pr_url(url, is_valid_github_pr_url(url))
}

/// A list of rendered references in one cell: the first few, and how many more
/// there are.
pub open spec fn pr_cell(rendered: Seq<Seq<char>>) -> Seq<char> {
    if rendered.len() == 0 {
        "-"@
    } else if rendered.len() <= PR_LIST_INLINE_CAP {
        text::joined(rendered, ", "@)
    } else {
        text::joined(rendered.take(PR_LIST_INLINE_CAP as int), ", "@) + ", +"@ + text::decimal(
            (rendered.len() - PR_LIST_INLINE_CAP) as nat,
        ) + " more"@
    }
}

/// The cell for references that are rendered already.
pub fn join_pr_refs(rendered: &Vec<String>) -> (r: String)
    ensures
        r@ == pr_cell(text::views(rendered@)),
{
    let ghost all = text::views(rendered@);
    proof {
        assert(all.len() == rendered@.len());
    }
    if rendered.len() == 0 {
        return "-".to_owned();
    }
    if rendered.len() <= PR_LIST_INLINE_CAP {
        return join(rendered, ", ");
    }
    let mut head: Vec<String> = Vec::new();
    head.push(rendered[0].clone());
    head.push(rendered[1].clone());
    head.push(rendered[2].clone());
    proof {
        assert(text::views(head@) =~= all.take(3));
    }
    let mut out = join(&head, ", ");
    push_str(&mut out, ", +");
    push_str(&mut out, write_u64((rendered.len() - PR_LIST_INLINE_CAP) as u64).as_str());
    push_str(&mut out, " more");
    out
}

/// Each URL in short.
pub open spec fn short_prs(urls: Seq<Seq<char>>) -> Seq<Seq<char>> {
    urls.map_values(
        |u: Seq<char>| short_pr(u, regex_match(pr_url_pattern(), u) == Some(true)),
    )
}

/// Format a list of PR URLs as a comma-separated compact string, or "-" if empty.
///
/// When more than [`PR_LIST_INLINE_CAP`] URLs are present, the excess collapses
/// into `+N more`. Invalid URLs render as `(invalid)`.
pub fn format_pr_list(urls: &Vec<String>) -> (r: String)
    ensures
        r@ == pr_cell(short_prs(text::views(urls@))),
{
    let mut rendered: Vec<String> = Vec::new();
    let ghost all = short_prs(text::views(urls@));
    let mut i: usize = 0;
    proof {
        assert(text::views(rendered@) =~= all.take(0));
    }
    while i < urls.len()
        invariant
            i <= urls.len(),
            all == short_prs(text::views(urls@)),
            text::views(rendered@) == all.take(i as int),
        decreases urls.len() - i,
    {
        let s = format_pr_url(urls[i].as_str());
        proof {
            assert(text::views(urls@)[i as int] == urls@[i as int]@);
            assert(all[i as int] == s@);
            text::views_push(rendered@, s);
            assert(all.take(i + 1) =~= all.take(i as int).push(s@));
        }
        rendered.push(s);
        i += 1;
    }
    proof {
        assert(all.take(i as int) =~= all);
    }
    join_pr_refs(&rendered)
}

/// How many of the records have the status.
pub open spec fn tally(rs: Seq<Status>, s: Status) -> nat
    decreases rs.len(),
{
    if rs.len() == 0 {
        0
    } else {
        tally(rs.drop_last(), s) + if rs.last() == s {
            1nat
        } else {
            0nat
        }
    }
}

proof fn tally_bound(rs: Seq<Status>, s: Status)
    ensures
        tally(rs, s) <= rs.len(),
    decreases rs.len(),
{
    if rs.len() > 0 {
        tally_bound(rs.drop_last(), s);
    }
}

/// Aggregated counts used for both the human summary and the JSON envelope.
#[derive(Clone, Copy, Debug, PartialEq, Eq, Structural)]
pub struct StatusSummary {
    pub running: u32,
    pub done: u32,
    pub failed: u32,
    pub needs_human: u32,
    pub needs_review: u32,
    pub stopped: u32,
    pub retrying: u32,
    pub total: u32,
}

impl StatusSummary {
    /// The counts are those of the given statuses.
    pub open spec fn counts(self, rs: Seq<Status>) -> bool {
        &&& self.running == tally(rs, Status::Running)
        &&& self.done == tally(rs, Status::Done)
        &&& self.failed == tally(rs, Status::Failed)
        &&& self.needs_human == tally(rs, Status::NeedsHuman)
        &&& self.needs_review == tally(rs, Status::NeedsReview)
        &&& self.stopped == tally(rs, Status::Stopped)
        &&& self.retrying == tally(rs, Status::Retrying)
        &&& self.total == rs.len()
    }

    /// Counts the statuses.
    pub fn from_statuses(rs: &Vec<Status>) -> (r: StatusSummary)
        requires
            rs@.len() <= u32::MAX,
        ensures
            r.counts(rs@),
    {
        let mut s = StatusSummary {
            running: 0,
            done: 0,
            failed: 0,
            needs_human: 0,
            needs_review: 0,
            stopped: 0,
            retrying: 0,
            total: 0,
        };
        let mut i: usize = 0;
        while i < rs.len()
            invariant
                i <= rs.len(),
                rs@.len() <= u32::MAX,
                s.counts(rs@.take(i as int)),
            decreases rs.len() - i,
        {
            proof {
                let next = rs@.take(i + 1);
                assert(next.drop_last() =~= rs@.take(i as int));
                assert(next.last() == rs@[i as int]);
                tally_bound(rs@.take(i as int), rs@[i as int]);
            }
            match rs[i] {
                Status::Running => {
                    s.running = s.running + 1;
                },
                Status::Done => {
                    s.done = s.done + 1;
                },
                Status::Failed => {
                    s.failed = s.failed + 1;
                },
                Status::NeedsHuman => {
                    s.needs_human = s.needs_human + 1;
                },
                Status::NeedsReview => {
                    s.needs_review = s.needs_review + 1;
                },
                Status::Stopped => {
                    s.stopped = s.stopped + 1;
                },
                Status::Retrying => {
                    s.retrying = s.retrying + 1;
                },
            }
            s.total = s.total + 1;
            i += 1;
        }
        proof {
            assert(rs@.take(i as int) =~= rs@);
        }
        s
    }

    /// Counts the records by status.
    pub fn from_records(records: &Vec<DispatchRecord>) -> (r: StatusSummary)
        requires
            records@.len() <= u32::MAX,
        ensures
            r.counts(statuses(records@)),
    {
        let mut rs: Vec<Status> = Vec::new();
        let mut i: usize = 0;
        while i < records.len()
            invariant
                i <= records.len(),
                rs@ == statuses(records@).take(i as int),
            decreases records.len() - i,
        {
            rs.push(records[i].status);
            i += 1;
            proof {
                assert(rs@ =~= statuses(records@).take(i as int));
            }
        }
        proof {
            assert(rs@ =~= statuses(records@));
        }
        StatusSummary::from_statuses(&rs)
    }
}

/// The statuses of the records.
pub open spec fn statuses(records: Seq<DispatchRecord>) -> Seq<Status> {
    records.map_values(|r: DispatchRecord| r.status)
}

/// Every record is counted under exactly one status.
pub proof fn counts_add_up(s: StatusSummary, rs: Seq<Status>)
    requires
        s.counts(rs),
    ensures
        s.running + s.done + s.failed + s.needs_human + s.needs_review + s.stopped + s.retrying
            == s.total,
{
    tallies_add_up(rs);
}

proof fn tallies_add_up(rs: Seq<Status>)
    ensures
        tally(rs, Status::Running) + tally(rs, Status::Done) + tally(rs, Status::Failed) + tally(
            rs,
            Status::NeedsHuman,
        ) + tally(rs, Status::NeedsReview) + tally(rs, Status::Stopped) + tally(
            rs,
            Status::Retrying,
        ) == rs.len(),
    decreases rs.len(),
{
    if rs.len() > 0 {
        tallies_add_up(rs.drop_last());
    }
}

/// `N label`, unless there are none.
pub open spec fn count_part(n: nat, label: Seq<char>) -> Seq<Seq<char>> {
    if n > 0 {
        seq![text::decimal(n) + " "@ + label]
    } else {
        Seq::empty()
    }
}

pub fn push_count(parts: &mut Vec<String>, n: u32, label: &str)
    ensures
        text::views(final(parts)@) == text::views(old(parts)@) + count_part(n as nat, label@),
{
    if n > 0 {
        let mut p = concat(write_u64(n as u64).as_str(), " ");
        push_str(&mut p, label);
        proof {
            text::views_push(parts@, p);
            assert(text::views(parts@).push(p@) =~= text::views(parts@) + count_part(n as nat, label@));
        }
        parts.push(p);
    } else {
        proof {
            assert(text::views(parts@) + Seq::<Seq<char>>::empty() =~= text::views(parts@));
        }
    }
}

/// The parts joined, or a word for none, with the total and the cost behind.
pub open spec fn summary_line(
    parts: Seq<Seq<char>>,
    none: Seq<char>,
    total: nat,
    cost: Seq<char>,
) -> Seq<char> {
    (if parts.len() == 0 {
        none
    } else {
        text::joined(parts, ", "@)
    }) + " (of "@ + text::decimal(total) + " total, $"@ + cost + ")"@
}

pub fn write_summary_line(parts: &Vec<String>, none: &str, total: u32, cost: &str) -> (r: String)
    ensures
        r@ == summary_line(text::views(parts@), none@, total as nat, cost@),
{
    proof {
        assert(text::views(parts@).len() == parts@.len());
    }
    let mut out = if parts.len() == 0 {
        none.to_owned()
    } else {
        join(parts, ", ")
    };
    push_str(&mut out, " (of ");
    push_str(&mut out, write_u64(total as u64).as_str());
    push_str(&mut out, " total, $");
    push_str(&mut out, cost);
    push_str(&mut out, ")");
    out
}

/// The summary line of some statuses.
pub open spec fn summary_of(rs: Seq<Status>, cost: Seq<char>) -> Seq<char> {
    summary_line(
        count_part(tally(rs, Status::Running), "running"@) + count_part(
            tally(rs, Status::Done),
            "done"@,
        ) + count_part(tally(rs, Status::Failed), "failed"@) + count_part(
            tally(rs, Status::NeedsHuman),
            "needs-human"@,
        ) + count_part(tally(rs, Status::NeedsReview), "needs-review"@) + count_part(
            tally(rs, Status::Stopped),
            "stopped"@,
        ) + count_part(tally(rs, Status::Retrying), "retrying"@),
        "0 records"@,
        rs.len(),
        cost,
    )
}

/// Build the summary line. `cost` is the total cost as it is written.
pub fn build_summary(records: &Vec<DispatchRecord>, cost: &str) -> (r: String)
    requires
        records@.len() <= u32::MAX,
    ensures
        r@ == summary_of(statuses(records@), cost@),
{
    let s = StatusSummary::from_records(records);
    let mut parts: Vec<String> = Vec::new();
    proof {
        assert(text::views(parts@) =~= Seq::<Seq<char>>::empty());
        let first = count_part(s.running as nat, "running"@);
        assert(Seq::<Seq<char>>::empty() + first =~= first);
    }
    push_count(&mut parts, s.running, "running");
    push_count(&mut parts, s.done, "done");
    push_count(&mut parts, s.failed, "failed");
    push_count(&mut parts, s.needs_human, "needs-human");
    push_count(&mut parts, s.needs_review, "needs-review");
    push_count(&mut parts, s.stopped, "stopped");
    push_count(&mut parts, s.retrying, "retrying");
    write_summary_line(&parts, "0 records", s.total, cost)
}

/// JSON envelope for `atc status --json`. Stable across v1 of the schema.
pub struct StatusOutputV1<'a> {
    pub schema_version: u32,
    pub records: &'a Vec<DispatchRecord>,
    pub work_units: &'a Vec<WorkUnit>,
    pub summary: StatusSummary,
}

/// Options of the `status` command.
pub struct StatusOpts {
    pub status_filter: Option<String>,
    pub json: bool,
    pub flat: bool,
    pub all: bool,
    pub include_done: bool,
    pub since: Option<String>,
    pub reverse: bool,
    pub no_pager: bool,
}

/// A record that was updated within the bound, if there is one.
pub open spec fn recent(r: DispatchRecord, since: Option<Span>, now: Timestamp) -> bool {
    match since {
        Some(span) => times::within(now, span, r.updated_at),
        None => true,
    }
}

/// Which records are listed.
///
/// A status that is asked for, or all of them, are bounded by recency. By
/// default what runs or waits for someone is listed in any case, and the rest
/// only if it is asked for or recent.
pub open spec fn selected(
    r: DispatchRecord,
    explicit: Option<Status>,
    all: bool,
    include_done: bool,
    since: Option<Span>,
    now: Timestamp,
) -> bool {
    match explicit {
        Some(s) => r.status == s && recent(r, since, now),
        None => if all {
            recent(r, since, now)
        } else if include_done {
            r.status != Status::Stopped && (shown_by_default(r.status) || recent(r, since, now))
        } else {
            shown_by_default(r.status) || (since is Some && recent(r, since, now))
        },
    }
}

pub fn is_selected(
    r: &DispatchRecord,
    explicit: Option<Status>,
    all: bool,
    include_done: bool,
    since: Option<Span>,
    now: Timestamp,
) -> (b: bool)
    ensures
        b == selected(*r, explicit, all, include_done, since, now),
{
    let fresh = match since {
        Some(span) => is_within(now, span, r.updated_at),
        None => true,
    };
    if let Some(s) = explicit {
        return r.status == s && fresh;
    }
    if all {
        return fresh;
    }
    let by_default = is_shown_by_default(r.status);
    if include_done {
        r.status != Status::Stopped && (by_default || fresh)
    } else {
        by_default || (since.is_some() && fresh)
    }
}

/// A status named without regard to case.
pub open spec fn status_asked_for(s: Seq<char>) -> Result<Status, Seq<char>> {
    match Status::named(text::lowered(s)) {
        Some(status) => Ok(status),
        None => Err("unknown status '"@ + s + "'"@),
    }
}

/// Reads the status that is asked for.
pub fn parse_status_filter(s: &str) -> (r: Result<Status, String>)
    ensures
        times::result_view(r) == status_asked_for(s@),
{
    match Status::parse(to_lower(s).as_str()) {
        Some(status) => Ok(status),
        None => {
            let mut e = concat("unknown status '", s);
            push_str(&mut e, "'");
            Err(e)
        },
    }
}

/// The records that are listed, in the order they came.
pub open spec fn selection(
    records: Seq<DispatchRecord>,
    explicit: Option<Status>,
    all: bool,
    include_done: bool,
    since: Option<Span>,
    now: Timestamp,
) -> Seq<DispatchRecord> {
    records.filter(|r: DispatchRecord| selected(r, explicit, all, include_done, since, now))
}

/// Apply CLI filters to a registry result set.
///
/// `--since` is honored even when `--status` or `--all` narrows the set -
/// status selection narrows the set; it does not disable the recency bound.
pub fn apply_filters(
    records: Vec<DispatchRecord>,
    explicit_status: Option<&str>,
    all: bool,
    include_done: bool,
    since: Option<Span>,
    now: Timestamp,
) -> (r: Result<Vec<DispatchRecord>, String>)
    ensures
        match explicit_status {
            None => r matches Ok(kept) && kept@ == selection(
                records@,
                None,
                all,
                include_done,
                since,
                now,
            ),
            Some(s) => match status_asked_for(s@) {
                Ok(status) => r matches Ok(kept) && kept@ == selection(
                    records@,
                    Some(status),
                    all,
                    include_done,
                    since,
                    now,
                ),
                Err(e) => r matches Err(m) && m@ == e,
            },
        },
{
    let explicit: Option<Status> = match explicit_status {
        Some(s) => match parse_status_filter(s) {
            Ok(status) => Some(status),
            Err(e) => {
                return Err(e);
            },
        },
        None => None,
    };
    let ghost all_records = records@;
    let ghost keep = |r: DispatchRecord| selected(r, explicit, all, include_done, since, now);
    let mut rest = reversed(records);
    let mut kept: Vec<DispatchRecord> = Vec::new();
    proof {
        reveal(Seq::filter);
        assert(all_records.take(0) =~= Seq::empty());
    }
    while rest.len() > 0
        invariant
            rest@.len() <= all_records.len(),
            rest@ == all_records.reverse().take(rest@.len() as int),
            keep == (|r: DispatchRecord|
                selected(r, explicit, all, include_done, since, now)),
            kept@ == all_records.take(all_records.len() - rest@.len()).filter(keep),
        decreases rest.len(),
    {
        let ghost n = rest@.len() as int;
        match rest.pop() {
            Some(record) => {
                proof {
                    reveal(Seq::filter);
                    let at = all_records.len() - n;
                    assert(rest@ =~= all_records.reverse().take(n - 1));
                    assert(record == all_records[at]);
                    let next = all_records.take(at + 1);
                    assert(next.drop_last() =~= all_records.take(at));
                    assert(next.last() == record);
                }
                if is_selected(&record, explicit, all, include_done, since, now) {
                    kept.push(record);
                }
            },
            None => {},
        }
    }
    proof {
        assert(all_records.take(all_records.len() as int) =~= all_records);
    }
    Ok(kept)
}

/// What one record shows does not depend on the others: a record is listed
/// exactly if it is selected.
pub proof fn selection_is_exact(
    records: Seq<DispatchRecord>,
    explicit: Option<Status>,
    all: bool,
    include_done: bool,
    since: Option<Span>,
    now: Timestamp,
    r: DispatchRecord,
)
    ensures
        selection(records, explicit, all, include_done, since, now).contains(r) <==> (
        records.contains(r) && selected(r, explicit, all, include_done, since, now)),
{
    let keep = |r: DispatchRecord| selected(r, explicit, all, include_done, since, now);
    let kept = records.filter(keep);
    if kept.contains(r) {
        records.lemma_filter_contains_rev(keep, r);
        let i = choose|i: int| 0 <= i < kept.len() && kept[i] == r;
        records.lemma_filter_pred(keep, i);
    }
    if records.contains(r) && keep(r) {
        let i = choose|i: int| 0 <= i < records.len() && records[i] == r;
        records.lemma_filter_contains(keep, i);
    }
}

/// Running work is never hidden by the default filter.
pub proof fn running_work_is_listed(
    r: DispatchRecord,
    include_done: bool,
    since: Option<Span>,
    now: Timestamp,
)
    requires
        r.status == Status::Running,
    ensures
        selected(r, None, false, include_done, since, now),
{
}

/// Whatever the filters, a recency bound never adds to an explicit selection.
pub proof fn recency_only_narrows(
    r: DispatchRecord,
    explicit: Option<Status>,
    include_done: bool,
    since: Option<Span>,
    now: Timestamp,
)
    requires
        selected(r, explicit, true, include_done, since, now),
    ensures
        selected(r, explicit, true, include_done, None, now),
{
}

/// Order records for rendering. Records come newest first; by default the
/// newest is shown last.
pub fn order_for_render(records: Vec<DispatchRecord>, reverse: bool) -> (r: Vec<DispatchRecord>)
    ensures
        r@ == if reverse {
            records@
        } else {
            records@.reverse()
        },
{
    if reverse {
        records
    } else {
        reversed(records)
    }
}

/// A text cut to fit where there is little room.
pub open spec fn fitted(s: Seq<char>, narrow: bool) -> Seq<char> {
    if narrow {
        truncated(s, 40)
    } else {
        s
    }
}

fn fit(s: &str, narrow: bool) -> (r: String)
    ensures
        r@ == fitted(s@, narrow),
{
    if narrow {
        truncate(s, 40)
    } else {
        s.to_owned()
    }
}

/// What a record is listed under: its task, or else its own name.
pub open spec fn record_title(r: DispatchRecord) -> Seq<char> {
    match r.task_slug {
        Some(t) => t@,
        None => r.id@,
    }
}

fn title_of(r: &DispatchRecord) -> (t: &str)
    ensures
        t@ == record_title(*r),
{
    match &r.task_slug {
        Some(t) => t.as_str(),
        None => r.id.as_str(),
    }
}

/// The number of turns, or a dash.
pub open spec fn turns_cell(n: Option<u32>) -> Seq<char> {
    match n {
        Some(n) => text::decimal(n as nat),
        None => "-"@,
    }
}

/// The duration, or a dash.
pub open spec fn duration_cell(ms: Option<u64>) -> Seq<char> {
    match ms {
        Some(ms) => duration_text(ms),
        None => "-"@,
    }
}

/// The cells of a record in the flat table.
pub open spec fn record_cells(r: DispatchRecord, narrow: bool, colors: bool) -> Seq<Seq<char>> {
    seq![
        times::or_dash(
            times::written_time(r.dispatched_at.secs, r.dispatched_at.nanos, "%Y-%m-%dT%H:%M:%S"@),
        ),
        style::shown(r.status.name(), style::style_of_status(r.status), colors),
        style::shown(fitted(record_title(r), narrow), Style::Bold, colors),
        r.directive.name(),
        pr_cell(short_prs(text::views(r.pr_urls@))),
        style::shown_cost(r.cost, colors),
        turns_cell(r.num_turns),
        duration_cell(r.duration_ms),
        fitted(r.worktree_path@, narrow),
    ]
}

fn record_row(r: &DispatchRecord, narrow: bool, colors: bool) -> (row: Vec<String>)
    ensures
        text::views(row@) == record_cells(*r, narrow, colors),
{
    let title = fit(title_of(r), narrow);
    let turns = match r.num_turns {
        Some(n) => write_u64(n as u64),
        None => "-".to_owned(),
    };
    let duration = match r.duration_ms {
        Some(ms) => format_duration(ms),
        None => "-".to_owned(),
    };
    let row = vec![
        write_seconds(r.dispatched_at),
        render_status(r.status, colors),
        apply(title.as_str(), strong(), colors),
        r.directive.as_str().to_owned(),
        format_pr_list(&r.pr_urls),
        render_cost(&r.cost, colors),
        turns,
        duration,
        fit(r.worktree_path.as_str(), narrow),
    ];
    proof {
        assert(text::views(row@) =~= record_cells(*r, narrow, colors));
    }
    row
}

/// Headings, dimmed.
pub open spec fn headings(names: Seq<Seq<char>>, colors: bool) -> Seq<Seq<char>> {
    names.map_values(|n: Seq<char>| style::shown(n, Style::Dimmed, colors))
}

pub fn dim_headings(names: &Vec<&str>, colors: bool) -> (r: Vec<String>)
    ensures
        text::views(r@) == headings(names@.map_values(|n: &str| n@), colors),
{
    let mut out: Vec<String> = Vec::new();
    let ghost all = headings(names@.map_values(|n: &str| n@), colors);
    let mut i: usize = 0;
    proof {
        assert(text::views(out@) =~= all.take(0));
    }
    while i < names.len()
        invariant
            i <= names.len(),
            all == headings(names@.map_values(|n: &str| n@), colors),
            text::views(out@) == all.take(i as int),
        decreases names.len() - i,
    {
        let h = apply(names[i], dim(), colors);
        proof {
            assert(all[i as int] == h@);
            text::views_push(out@, h);
            assert(all.take(i + 1) =~= all.take(i as int).push(h@));
        }
        out.push(h);
        i += 1;
    }
    proof {
        assert(all.take(i as int) =~= all);
    }
    out
}

/// The headings of the flat table.
pub open spec fn flat_headings() -> Seq<Seq<char>> {
    seq![
        "dispatched_at"@,
        "status"@,
        "task"@,
        "directive"@,
        "pr_urls"@,
        "cost"@,
        "turns"@,
        "duration"@,
        "worktree"@,
    ]
}

/// The rows of the flat table.
pub open spec fn flat_rows(
    records: Seq<DispatchRecord>,
    narrow: bool,
    colors: bool,
) -> Seq<Seq<Seq<char>>> {
    records.map_values(|r: DispatchRecord| record_cells(r, narrow, colors))
}

/// The flat table; below 120 columns long cells are cut.
pub open spec fn flat_table(records: Seq<DispatchRecord>, width: u16, colors: bool) -> Seq<char> {
    tables::table_text(
        headings(flat_headings(), colors),
        flat_rows(records, width < 120, colors),
    )
}

/// Build the status table.
pub fn build_table(records: &Vec<DispatchRecord>, width: u16, colors: bool) -> (r: String)
    ensures
        r@ == flat_table(records@, width, colors),
{
    let narrow = width < 120;
    let names = vec![
        "dispatched_at",
        "status",
        "task",
        "directive",
        "pr_urls",
        "cost",
        "turns",
        "duration",
        "worktree",
    ];
    proof {
        assert(names@.map_values(|n: &str| n@) =~= flat_headings());
    }
    let header = dim_headings(&names, colors);
    let mut rows: Vec<Vec<String>> = Vec::new();
    let ghost all = flat_rows(records@, narrow, colors);
    let mut i: usize = 0;
    proof {
        assert(tables::grid(rows@) =~= all.take(0));
    }
    while i < records.len()
        invariant
            i <= records.len(),
            all == flat_rows(records@, narrow, colors),
            tables::grid(rows@) == all.take(i as int),
        decreases records.len() - i,
    {
        let row = record_row(&records[i], narrow, colors);
        proof {
            tables::grid_push(rows@, row);
            assert(all.take(i + 1) =~= all.take(i as int).push(text::views(row@)));
        }
        rows.push(row);
        i += 1;
    }
    proof {
        assert(all.take(i as int) =~= all);
    }
    render_table(&header, &rows)
}

/// The record belongs to the work unit with the given name.
pub open spec fn belongs(r: DispatchRecord, unit_id: Seq<char>) -> bool {
    r.work_unit_id matches Some(id) && id@ == unit_id
}

fn is_of_unit(r: &DispatchRecord, unit_id: &str) -> (b: bool)
    ensures
        b == belongs(*r, unit_id@),
{
    match &r.work_unit_id {
        Some(id) => same(id.as_str(), unit_id),
        None => false,
    }
}

/// The records of a work unit.
pub open spec fn runs_of(records: Seq<DispatchRecord>, unit_id: Seq<char>) -> Seq<DispatchRecord> {
    records.filter(|r: DispatchRecord| belongs(r, unit_id))
}

/// Whether any of the records has a cost.
pub open spec fn any_cost(records: Seq<DispatchRecord>) -> bool {
    exists|i: int| 0 <= i < records.len() && (#[trigger] records[i]).cost is Some
}

/// How many records a work unit has, and whether one of them has a cost.
fn count_runs(records: &Vec<DispatchRecord>, unit_id: &str) -> (r: (usize, bool))
    ensures
        r.0 == runs_of(records@, unit_id@).len(),
        r.1 == any_cost(runs_of(records@, unit_id@)),
{
    let mut n: usize = 0;
    let mut costs = false;
    let mut i: usize = 0;
    let ghost all = records@;
    proof {
        reveal(Seq::filter);
        assert(all.take(0) =~= Seq::empty());
    }
    while i < records.len()
        invariant
            i <= records.len(),
            all == records@,
            n <= i,
            n == runs_of(all.take(i as int), unit_id@).len(),
            costs == any_cost(runs_of(all.take(i as int), unit_id@)),
        decreases records.len() - i,
    {
        let ghost before = runs_of(all.take(i as int), unit_id@);
        let ghost after = runs_of(all.take(i + 1), unit_id@);
        proof {
            reveal(Seq::filter);
            assert(all.take(i + 1).drop_last() =~= all.take(i as int));
            assert(all.take(i + 1).last() == records@[i as int]);
        }
        if is_of_unit(&records[i], unit_id) {
            proof {
                assert(after =~= before.push(records@[i as int]));
                assert(after.last() == records@[i as int]);
                if any_cost(before) {
                    let k = choose|k: int| 0 <= k < before.len() && (#[trigger] before[k]).cost is Some;
                    assert(after[k] == before[k]);
                }
                if any_cost(after) && records@[i as int].cost is None {
                    let k = choose|k: int| 0 <= k < after.len() && (#[trigger] after[k]).cost is Some;
                    assert(before[k] == after[k]);
                }
            }
            n += 1;
            costs = costs || records[i].cost.is_some();
        }
        i += 1;
    }
    proof {
        assert(all.take(i as int) =~= all);
    }
    (n, costs)
}

/// `N run`, or `N runs`.
pub open spec fn runs_label(n: nat) -> Seq<char> {
    text::decimal(n) + " run"@ + if n == 1 {
        ""@
    } else {
        "s"@
    }
}

fn write_runs(n: usize) -> (r: String)
    ensures
        r@ == runs_label(n as nat),
{
    let mut out = concat(write_u64(n as u64).as_str(), " run");
    push_str(
        &mut out,
        if n == 1 {
            ""
        } else {
            "s"
        },
    );
    out
}

/// The cells of a work unit in the grouped table. `sum` is the cost of its
/// records, shown if one of them has a cost.
pub open spec fn unit_cells(
    unit: WorkUnit,
    sum: Cost,
    records: Seq<DispatchRecord>,
    colors: bool,
) -> Seq<Seq<char>> {
    let runs = runs_of(records, unit.id@);
    seq![
        style::shown(
            match unit.task_slug {
                Some(t) => t@,
                None => "(none)"@,
            },
            Style::Bold,
            colors,
        ),
        match unit.branch {
            Some(b) => b@,
            None => "-"@,
        },
        pr_cell(short_prs(text::views(unit.pr_urls@))),
        runs_label(runs.len()),
        style::shown(unit.status.name(), style::style_of_unit_status(unit.status), colors),
        style::shown_cost(
            if any_cost(runs) {
                Some(sum)
            } else {
                None
            },
            colors,
        ),
    ]
}

fn unit_row(
    unit: &WorkUnit,
    sum: &Cost,
    records: &Vec<DispatchRecord>,
    colors: bool,
) -> (row: Vec<String>)
    ensures
        text::views(row@) == unit_cells(*unit, *sum, records@, colors),
{
    let (n, costs) = count_runs(records, unit.id.as_str());
    let task = match &unit.task_slug {
        Some(t) => t.as_str(),
        None => "(none)",
    };
    let branch = match &unit.branch {
        Some(b) => b.as_str(),
        None => "-",
    };
    let cost = if costs {
        let amount = concat("$", sum.amount.as_str());
        apply(amount.as_str(), style::cost_style(sum.band), colors)
    } else {
        style::render_dash(colors)
    };
    let row = vec![
        apply(task, strong(), colors),
        branch.to_owned(),
        format_pr_list(&unit.pr_urls),
        write_runs(n),
        render_work_unit_status(unit.status, colors),
        cost,
    ];
    proof {
        assert(text::views(row@) =~= unit_cells(*unit, *sum, records@, colors));
    }
    row
}

/// The cells of a record without a work unit in the grouped table.
pub open spec fn orphan_cells(r: DispatchRecord, colors: bool) -> Seq<Seq<char>> {
    seq![
        style::shown(record_title(r), Style::Bold, colors),
        r.branch@,
        pr_cell(short_prs(text::views(r.pr_urls@))),
        "1 run"@,
        style::shown(r.status.name(), style::style_of_status(r.status), colors),
        style::shown_cost(r.cost, colors),
    ]
}

fn orphan_row(r: &DispatchRecord, colors: bool) -> (row: Vec<String>)
    ensures
        text::views(row@) == orphan_cells(*r, colors),
{
    let row = vec![
        apply(title_of(r), strong(), colors),
        r.branch.clone(),
        format_pr_list(&r.pr_urls),
        "1 run".to_owned(),
        render_status(r.status, colors),
        render_cost(&r.cost, colors),
    ];
    proof {
        assert(text::views(row@) =~= orphan_cells(*r, colors));
    }
    row
}

/// The records that belong to no work unit.
pub open spec fn orphans(records: Seq<DispatchRecord>) -> Seq<DispatchRecord> {
    records.filter(|r: DispatchRecord| r.work_unit_id is None)
}

/// The headings of the grouped table.
pub open spec fn grouped_headings() -> Seq<Seq<char>> {
    seq!["task"@, "branch"@, "PRs"@, "dispatches"@, "status"@, "cost"@]
}

/// The rows of the grouped table: the work units, then the records without one.
pub open spec fn grouped_rows(
    units: Seq<WorkUnit>,
    sums: Seq<Cost>,
    records: Seq<DispatchRecord>,
    colors: bool,
) -> Seq<Seq<Seq<char>>> {
    Seq::new(units.len(), |i: int| unit_cells(units[i], sums[i], records, colors)) + orphans(
        records,
    ).map_values(|r: DispatchRecord| orphan_cells(r, colors))
}

pub open spec fn grouped_table(
    units: Seq<WorkUnit>,
    sums: Seq<Cost>,
    records: Seq<DispatchRecord>,
    colors: bool,
) -> Seq<char> {
    tables::table_text(
        headings(grouped_headings(), colors),
        grouped_rows(units, sums, records, colors),
    )
}

/// Build a work-unit-grouped status table. `sums` holds, for each work unit,
/// the cost of its records.
pub fn build_grouped_table(
    work_units: &Vec<WorkUnit>,
    sums: &Vec<Cost>,
    records: &Vec<DispatchRecord>,
    colors: bool,
) -> (r: String)
    requires
        sums@.len() == work_units@.len(),
    ensures
        r@ == grouped_table(work_units@, sums@, records@, colors),
{
    let names = vec!["task", "branch", "PRs", "dispatches", "status", "cost"];
    proof {
        assert(names@.map_values(|n: &str| n@) =~= grouped_headings());
    }
    let header = dim_headings(&names, colors);
    let mut rows: Vec<Vec<String>> = Vec::new();
    let ghost head = Seq::new(
        work_units@.len(),
        |i: int| unit_cells(work_units@[i], sums@[i], records@, colors),
    );
    let mut i: usize = 0;
    proof {
        assert(tables::grid(rows@) =~= head.take(0));
    }
    while i < work_units.len()
        invariant
            i <= work_units.len(),
            sums@.len() == work_units@.len(),
            head == Seq::new(
                work_units@.len(),
                |i: int| unit_cells(work_units@[i], sums@[i], records@, colors),
            ),
            tables::grid(rows@) == head.take(i as int),
        decreases work_units.len() - i,
    {
        let row = unit_row(&work_units[i], &sums[i], records, colors);
        proof {
            tables::grid_push(rows@, row);
            assert(head[i as int] == text::views(row@));
            assert(head.take(i + 1) =~= head.take(i as int).push(text::views(row@)));
        }
        rows.push(row);
        i += 1;
    }
    let ghost all = records@;
    let ghost cells = |r: DispatchRecord| orphan_cells(r, colors);
    let mut j: usize = 0;
    proof {
        reveal(Seq::filter);
        assert(head.take(i as int) =~= head);
        assert(all.take(0) =~= Seq::empty());
        assert(tables::grid(rows@) =~= head + orphans(all.take(0)).map_values(cells));
    }
    while j < records.len()
        invariant
            j <= records.len(),
            all == records@,
            cells == (|r: DispatchRecord| orphan_cells(r, colors)),
            tables::grid(rows@) == head + orphans(all.take(j as int)).map_values(cells),
        decreases records.len() - j,
    {
        proof {
            reveal(Seq::filter);
            assert(all.take(j + 1).drop_last() =~= all.take(j as int));
            assert(all.take(j + 1).last() == records@[j as int]);
        }
        if records[j].work_unit_id.is_none() {
            let row = orphan_row(&records[j], colors);
            proof {
                let before = orphans(all.take(j as int));
                let after = orphans(all.take(j + 1));
                assert(after =~= before.push(records@[j as int]));
                assert(after.map_values(cells) =~= before.map_values(cells).push(
                    text::views(row@),
                ));
                tables::grid_push(rows@, row);
                assert(head + after.map_values(cells) =~= (head + before.map_values(cells)).push(
                    text::views(row@),
                ));
            }
            rows.push(row);
        }
        j += 1;
    }
    proof {
        assert(all.take(j as int) =~= all);
    }
    render_table(&header, &rows)
}

/// The work unit is that of one of the records.
pub open spec fn is_visible(unit: WorkUnit, records: Seq<DispatchRecord>) -> bool {
    exists|i: int| 0 <= i < records.len() && belongs(#[trigger] records[i], unit.id@)
}

/// The work units of the records, in the order they came.
pub open spec fn visible_units(units: Seq<WorkUnit>, records: Seq<DispatchRecord>) -> Seq<WorkUnit> {
    units.filter(|u: WorkUnit| is_visible(u, records))
}

fn any_of_unit(records: &Vec<DispatchRecord>, unit_id: &str) -> (b: bool)
    ensures
        b == exists|i: int| 0 <= i < records@.len() && belongs(#[trigger] records@[i], unit_id@),
{
    let mut i: usize = 0;
    while i < records.len()
        invariant
            i <= records.len(),
            forall|j: int| 0 <= j < i ==> !belongs(#[trigger] records@[j], unit_id@),
        decreases records.len() - i,
    {
        if is_of_unit(&records[i], unit_id) {
            return true;
        }
        i += 1;
    }
    false
}

/// Keeps the work units of the records that are shown.
pub fn retain_visible(units: Vec<WorkUnit>, records: &Vec<DispatchRecord>) -> (r: Vec<WorkUnit>)
    ensures
        r@ == visible_units(units@, records@),
{
    let ghost all = units@;
    let ghost keep = |u: WorkUnit| is_visible(u, records@);
    let mut rest = reversed(units);
    let mut kept: Vec<WorkUnit> = Vec::new();
    proof {
        reveal(Seq::filter);
        assert(all.take(0) =~= Seq::empty());
    }
    while rest.len() > 0
        invariant
            rest@.len() <= all.len(),
            rest@ == all.reverse().take(rest@.len() as int),
            keep == (|u: WorkUnit| is_visible(u, records@)),
            kept@ == all.take(all.len() - rest@.len()).filter(keep),
        decreases rest.len(),
    {
        let ghost n = rest@.len() as int;
        match rest.pop() {
            Some(unit) => {
                proof {
                    reveal(Seq::filter);
                    let at = all.len() - n;
                    assert(rest@ =~= all.reverse().take(n - 1));
                    assert(unit == all[at]);
                    let next = all.take(at + 1);
                    assert(next.drop_last() =~= all.take(at));
                    assert(next.last() == unit);
                }
                if any_of_unit(records, unit.id.as_str()) {
                    kept.push(unit);
                }
            },
            None => {},
        }
    }
    proof {
        assert(all.take(all.len() as int) =~= all);
    }
    kept
}

/// How the records are shown.
#[derive(Clone, Copy, Debug, PartialEq, Eq, Structural)]
pub enum Listing {
    Json,
    Nothing { hint: bool },
    Flat,
    Grouped,
}

/// How the records are shown: as JSON if that is asked for, else as a table,
/// grouped by work unit unless there is none among them.
pub open spec fn listing_of(opts: StatusOpts, any_records: bool, any_units: bool) -> Listing {
    if opts.json {
        Listing::Json
    } else if !any_records {
        Listing::Nothing { hint: !opts.all && opts.status_filter is None }
    } else if opts.flat || !any_units {
        Listing::Flat
    } else {
        Listing::Grouped
    }
}

pub fn choose_listing(opts: &StatusOpts, any_records: bool, any_units: bool) -> (r: Listing)
    ensures
        r == listing_of(*opts, any_records, any_units),
{
    if opts.json {
        Listing::Json
    } else if !any_records {
        Listing::Nothing { hint: !opts.all && opts.status_filter.is_none() }
    } else if opts.flat || !any_units {
        Listing::Flat
    } else {
        Listing::Grouped
    }
}

/// What is printed where no record is selected.
pub open spec fn nothing_lines(hint: bool) -> Seq<Seq<char>> {
    if hint {
        seq![
            "No dispatch records found."@,
            "(default filter: status \u{2208} {running, retrying, needs-human, needs-review})."@,
            "hint: try `atc status --all` or `atc status --since 24h`."@,
        ]
    } else {
        seq!["No dispatch records found."@]
    }
}

/// What `atc status` prints for people.
pub open spec fn status_lines(
    opts: StatusOpts,
    records: Seq<DispatchRecord>,
    units: Seq<WorkUnit>,
    sums: Seq<Cost>,
    cost: Seq<char>,
    width: u16,
    colors: bool,
) -> Seq<Seq<char>> {
    match listing_of(opts, records.len() > 0, units.len() > 0) {
        Listing::Json => Seq::empty(),
        Listing::Nothing { hint } => nothing_lines(hint),
        Listing::Flat => seq![flat_table(records, width, colors), summary_of(statuses(records), cost)],
        Listing::Grouped => seq![
            grouped_table(units, sums, records, colors),
            summary_of(statuses(records), cost),
        ],
    }
}

/// The lines to print. `units` holds the visible work units, `sums` the cost of
/// each, and `cost` the cost of all records.
pub fn print_status(
    opts: &StatusOpts,
    records: &Vec<DispatchRecord>,
    units: &Vec<WorkUnit>,
    sums: &Vec<Cost>,
    cost: &str,
    width: u16,
    colors: bool,
) -> (r: Vec<String>)
    requires
        records@.len() <= u32::MAX,
        sums@.len() == units@.len(),
    ensures
        text::views(r@) == status_lines(*opts, records@, units@, sums@, cost@, width, colors),
{
    let lines: Vec<String> = match choose_listing(opts, records.len() > 0, units.len() > 0) {
        Listing::Json => Vec::new(),
        Listing::Nothing { hint } => if hint {
            vec![
                "No dispatch records found.".to_owned(),
                "(default filter: status \u{2208} {running, retrying, needs-human, needs-review}).".to_owned(),
                "hint: try `atc status --all` or `atc status --since 24h`.".to_owned(),
            ]
        } else {
            vec!["No dispatch records found.".to_owned()]
        },
        Listing::Flat => vec![build_table(records, width, colors), build_summary(records, cost)],
        Listing::Grouped => vec![
            build_grouped_table(units, sums, records, colors),
            build_summary(records, cost),
        ],
    };
    proof {
        assert(text::views(lines@) =~= status_lines(
            *opts,
            records@,
            units@,
            sums@,
            cost@,
            width,
            colors,
        ));
    }
    lines
}

/// Every record without a work unit, and every visible work unit, has a row of
/// its own in the grouped table.
pub proof fn grouped_table_is_complete(
    units: Seq<WorkUnit>,
    sums: Seq<Cost>,
    records: Seq<DispatchRecord>,
    colors: bool,
)
    ensures
        grouped_rows(units, sums, records, colors).len() == units.len() + orphans(records).len(),
        forall|i: int|
            0 <= i < units.len() ==> grouped_rows(units, sums, records, colors)[i] == unit_cells(
                #[trigger] units[i],
                sums[i],
                records,
                colors,
            ),
{
}

/// A record was updated no longer ago than the span says, or there is none.
pub open spec fn fresh_enough(r: DispatchRecord, since: Option<Span>, now: Timestamp) -> bool {
    since is Some ==> (r.updated_at.secs - now.secs) * 1_000_000_000 + (r.updated_at.nanos
        - now.nanos) + since->0.secs * 1_000_000_000 + since->0.nanos >= 0
}

/// A status that is asked for, or all of them, are listed as far as they are recent. Else
/// what runs, is about to run again, or waits for someone is always listed; what is done
/// or failed too where that is asked for and recent, but not what was stopped; and
/// anything recent where a bound is given.
pub proof fn listings_show_what_is_asked_for(
    r: DispatchRecord,
    explicit: Option<Status>,
    all: bool,
    include_done: bool,
    since: Option<Span>,
    now: Timestamp,
)
    ensures
        ({
            let listed = selected(r, explicit, all, include_done, since, now);
            let open = r.status == Status::Running || r.status == Status::Retrying || r.status
                == Status::NeedsHuman || r.status == Status::NeedsReview;
            let fresh = fresh_enough(r, since, now);
            &&& explicit is Some ==> (listed <==> r.status == explicit->0 && fresh)
            &&& explicit is None && all ==> (listed <==> fresh)
            &&& explicit is None && !all && open ==> listed
            &&& explicit is None && !all && !include_done && !open ==> (listed <==> since is Some
                && fresh)
            &&& explicit is None && !all && include_done && !open ==> (listed <==> r.status
                != Status::Stopped && fresh)
        }),
{
    if since is Some {
        assert(r.updated_at.total() - now.total() == (r.updated_at.secs - now.secs)
            * 1_000_000_000 + (r.updated_at.nanos - now.nanos));
    }
}

/// A count is the number of records that have the status: that of two lists is the sum of
/// theirs, and one record counts once under its own status and under no other.
pub proof fn counts_are_numbers_of_records(a: Seq<Status>, b: Seq<Status>, s: Status, one: Status)
    ensures
        tally(a + b, s) == tally(a, s) + tally(b, s),
        tally(seq![one], s) == if one == s {
            1nat
        } else {
            0nat
        },
        tally(Seq::empty(), s) == 0,
    decreases b.len(),
{
    assert(seq![one].drop_last() =~= Seq::<Status>::empty());
    assert(tally(seq![one].drop_last(), s) == 0);
    if b.len() > 0 {
        counts_are_numbers_of_records(a, b.drop_last(), s, one);
        assert((a + b).drop_last() =~= a + b.drop_last());
    } else {
        assert(a + b =~= a);
    }
}

/// Records are shown as JSON exactly where that is asked for, grouped exactly where there
/// are records and units and no flat list is asked for, and a hint is given exactly where
/// the default selection is empty.
pub proof fn listings_take_their_form(opts: StatusOpts, any_records: bool, any_units: bool)
    ensures
        ({
            let l = listing_of(opts, any_records, any_units);
            &&& l == Listing::Json <==> opts.json
            &&& l is Nothing <==> !opts.json && !any_records
            &&& l matches Listing::Nothing { hint } ==> (hint <==> !opts.all && opts.status_filter
                is None)
            &&& l == Listing::Grouped <==> !opts.json && any_records && any_units && !opts.flat
            &&& l == Listing::Flat <==> !opts.json && any_records && (!any_units || opts.flat)
        }),
{
}

/// A work unit is shown exactly where one of the records belongs to it.
pub proof fn units_of_records_are_visible(
    units: Seq<WorkUnit>,
    records: Seq<DispatchRecord>,
    u: WorkUnit,
)
    ensures
        visible_units(units, records).contains(u) <==> units.contains(u) && exists|i: int|
            0 <= i < records.len() && (#[trigger] records[i]).work_unit_id is Some
                && records[i].work_unit_id->0@ == u.id@,
{
    let keep = |u: WorkUnit| is_visible(u, records);
    let kept = units.filter(keep);
    assert(is_visible(u, records) <==> exists|i: int|
        0 <= i < records.len() && (#[trigger] records[i]).work_unit_id is Some
            && records[i].work_unit_id->0@ == u.id@) by {
        if is_visible(u, records) {
            let i = choose|i: int| 0 <= i < records.len() && belongs(#[trigger] records[i], u.id@);
            assert(records[i].work_unit_id is Some);
        }
        if exists|i: int|
            0 <= i < records.len() && (#[trigger] records[i]).work_unit_id is Some
                && records[i].work_unit_id->0@ == u.id@ {
            let i = choose|i: int|
                0 <= i < records.len() && (#[trigger] records[i]).work_unit_id is Some
                    && records[i].work_unit_id->0@ == u.id@;
            assert(belongs(records[i], u.id@));
        }
    }
    if kept.contains(u) {
        units.lemma_filter_contains_rev(keep, u);
        let k = choose|k: int| 0 <= k < kept.len() && kept[k] == u;
        units.lemma_filter_pred(keep, k);
    }
    if units.contains(u) && keep(u) {
        let i = choose|i: int| 0 <= i < units.len() && units[i] == u;
        units.lemma_filter_contains(keep, i);
    }
}

/// A text that fits is kept, and of any other exactly as much as fits is kept, with
/// a mark that something is missing.
pub proof fn long_texts_are_cut(a: Seq<char>, b: Seq<char>)
    ensures
        truncated(a, a.len()) == a,
        truncated(a, a.len() + b.len()) == a,
        b.len() > 0 ==> truncated(a + b, a.len()) == a.push('\u{2026}'),
        fitted(a, false) == a,
        fitted(a, true) == truncated(a, 40),
{
    assert((a + b).take(a.len() as int) =~= a);
}

/// A duration is told in whole seconds, and from a minute on in minutes and two
/// digits for the seconds.
pub proof fn durations_are_minutes_and_seconds(minutes: nat, seconds: nat, rest: nat)
    requires
        seconds < 60,
        rest < 1000,
        (minutes * 60 + seconds) * 1000 + rest <= u64::MAX,
    ensures
        ({
            let shown = duration_text(((minutes * 60 + seconds) * 1000 + rest) as u64);
            &&& minutes == 0 ==> shown == text::decimal(seconds) + "s"@
            &&& minutes > 0 && seconds >= 10 ==> shown == text::decimal(minutes) + "m "@
                + text::decimal(seconds) + "s"@
            &&& minutes > 0 && seconds < 10 ==> shown == text::decimal(minutes) + "m "@ + (seq!['0']
                + text::decimal(seconds)) + "s"@
        }),
{
    let ms = ((minutes * 60 + seconds) * 1000 + rest) as u64;
    assert(ms / 1000 == minutes * 60 + seconds);
    assert((ms / 1000) / 60 == minutes);
    assert((ms / 1000) % 60 == seconds);
    let d = text::decimal(seconds);
    if seconds < 10 {
        assert(d.len() == 1);
        assert(text::padded_left(d, '0', 2) =~= seq!['0'] + d);
    } else {
        assert(seconds / 10 < 10);
        assert(text::decimal(seconds / 10).len() == 1);
        assert(d == text::decimal(seconds / 10).push(text::digit((seconds % 10) as int)));
        assert(d.len() == 2);
    }
}

proof fn parts_hold(parts: Seq<Seq<char>>, i: int, none: Seq<char>, total: nat, cost: Seq<char>)
    requires
        0 <= i < parts.len(),
    ensures
        text::occurs(summary_line(parts, none, total, cost), parts[i]),
{
    text::joined_holds_its_pieces(parts, ", "@, i);
    let front = text::joined(parts, ", "@);
    let all = summary_line(parts, none, total, cost);
    let k = choose|k: int| text::occurs_at(front, k, parts[i]);
    assert(all.subrange(k, k + parts[i].len()) =~= front.subrange(k, k + parts[i].len()));
    assert(text::occurs_at(all, k, parts[i]));
}

/// A summary tells how many records there are of each status that occurs, and of all
/// together, and what they cost.
pub proof fn summaries_tell_the_counts(rs: Seq<Status>, cost: Seq<char>, s: Status)
    ensures
        rs.contains(s) ==> text::occurs(
            summary_of(rs, cost),
            text::decimal(tally(rs, s)) + " "@ + s.name(),
        ),
        text::ends(
            summary_of(rs, cost),
            " (of "@ + text::decimal(rs.len()) + " total, $"@ + cost + ")"@,
        ),
        rs.len() == 0 ==> text::starts(summary_of(rs, cost), "0 records"@),
{
    let p1 = count_part(tally(rs, Status::Running), "running"@);
    let p2 = count_part(tally(rs, Status::Done), "done"@);
    let p3 = count_part(tally(rs, Status::Failed), "failed"@);
    let p4 = count_part(tally(rs, Status::NeedsHuman), "needs-human"@);
    let p5 = count_part(tally(rs, Status::NeedsReview), "needs-review"@);
    let p6 = count_part(tally(rs, Status::Stopped), "stopped"@);
    let p7 = count_part(tally(rs, Status::Retrying), "retrying"@);
    let parts = p1 + p2 + p3 + p4 + p5 + p6 + p7;
    let n = rs.len();
    let all = summary_of(rs, cost);
    if rs.contains(s) {
        occurring_statuses_count(rs, s);
        let i: int = match s {
            Status::Running => 0,
            Status::Done => p1.len() as int,
            Status::Failed => p1.len() + p2.len() as int,
            Status::NeedsHuman => p1.len() + p2.len() + p3.len() as int,
            Status::NeedsReview => p1.len() + p2.len() + p3.len() + p4.len() as int,
            Status::Stopped => p1.len() + p2.len() + p3.len() + p4.len() + p5.len() as int,
            Status::Retrying => p1.len() + p2.len() + p3.len() + p4.len() + p5.len() + p6.len()
                as int,
        };
        assert(parts[i] == text::decimal(tally(rs, s)) + " "@ + s.name());
        parts_hold(parts, i, "0 records"@, n, cost);
    }
    let end = " (of "@ + text::decimal(n) + " total, $"@ + cost + ")"@;
    assert(all.subrange(all.len() - end.len(), all.len() as int) =~= end);
    if n == 0 {
        assert(parts.len() == 0);
        assert(all.subrange(0, "0 records"@.len() as int) =~= "0 records"@);
    }
}

proof fn occurring_statuses_count(rs: Seq<Status>, s: Status)
    requires
        rs.contains(s),
    ensures
        tally(rs, s) > 0,
    decreases rs.len(),
{
    let i = choose|i: int| 0 <= i < rs.len() && rs[i] == s;
    if i < rs.len() - 1 {
        assert(rs.drop_last()[i] == s);
        assert(rs.drop_last().contains(s));
        occurring_statuses_count(rs.drop_last(), s);
    }
}

/// A cell shows up to three references, each of them, and tells how many more there
/// are.
pub proof fn references_are_shown_or_counted(refs: Seq<Seq<char>>, i: int)
    ensures
        pr_cell(Seq::empty()) == "-"@,
        pr_cell(seq![refs[0]]) == refs[0],
        0 <= i < refs.len() && i < 3 ==> text::occurs(pr_cell(refs), refs[i]),
        refs.len() > 3 ==> text::ends(
            pr_cell(refs),
            ", +"@ + text::decimal((refs.len() - 3) as nat) + " more"@,
        ),
        0 < refs.len() <= 3 ==> pr_cell(refs) == text::joined(refs, ", "@),
{
    assert(text::joined(seq![refs[0]], ", "@) =~= refs[0]);
    let all = pr_cell(refs);
    if refs.len() > 3 {
        let end = ", +"@ + text::decimal((refs.len() - 3) as nat) + " more"@;
        assert(all.subrange(all.len() - end.len(), all.len() as int) =~= end);
    }
    if 0 <= i < refs.len() && i < 3 {
        let head = if refs.len() <= 3 {
            refs
        } else {
            refs.take(3)
        };
        assert(head[i] == refs[i]);
        text::joined_holds_its_pieces(head, ", "@, i);
        let front = text::joined(head, ", "@);
        let k = choose|k: int| text::occurs_at(front, k, refs[i]);
        assert(all.subrange(k, k + refs[i].len()) =~= front.subrange(k, k + refs[i].len()));
        assert(text::occurs_at(all, k, refs[i]));
    }
}

/// A pull request on GitHub is told as its repository and its number, unless its
/// address is malformed. What does not begin like an address at all gets a mark.
pub proof fn pull_requests_are_told_in_short(
    owner: Seq<char>,
    repo: Seq<char>,
    number: Seq<char>,
    url: Seq<char>,
)
    requires
        !owner.contains('/') && !repo.contains('/') && !number.contains('/'),
        !owner.contains('#') && !repo.contains('#') && !number.contains('#'),
    ensures
        ({
            let pr = "https://github.com/"@ + owner + "/"@ + repo + "/pull/"@ + number;
            &&& short_pr(pr, true) == repo + "#"@ + number
            &&& short_pr(pr, false) == "(invalid)"@
        }),
        !text::starts(url, "https://"@) && !text::starts(url, "http://"@) ==> short_pr(url, true)
            == "(invalid)"@ && short_pr(url, false) == "(invalid)"@,
{
    reveal_strlit("https://github.com/");
    reveal_strlit("https://");
    reveal_strlit("http://");
    reveal_strlit("github.com");
    reveal_strlit("/pull/");
    reveal_strlit("pull");
    reveal_strlit("/");
    let host = "https://github.com/"@;
    let path = owner + "/"@ + repo + "/pull/"@ + number;
    let pr = host + owner + "/"@ + repo + "/pull/"@ + number;
    assert(pr =~= host + path);
    assert(pr.skip(host.len() as int) =~= path);
    assert(pr.subrange(0, host.len() as int) =~= host);
    assert(pr.subrange(0, 8) =~= "https://"@);
    let rest = pr.skip(8);
    let site = "github.com"@;
    assert(!site.contains('/'));
    assert(rest =~= site.push('/') + path);
    text::pieces_end_at_separators(site, '/', path);
    assert(text::split_on(rest, '/')[0] == site);
    assert(!is_foreign(pr));
    assert(!path.contains('#')) by {
        if path.contains('#') {
            let i = choose|i: int| 0 <= i < path.len() && path[i] == '#';
            let a = owner.len() as int;
            let b = a + 1 + repo.len();
            if i < a {
                assert(owner.contains(owner[i]));
            } else if i > a && i < b {
                assert(repo.contains(repo[i - a - 1]));
            } else if i >= b + 6 {
                assert(number.contains(number[i - b - 6]));
            } else if i >= b {
                assert("/pull/"@[i - b] == '#');
            }
        }
    }
    text::pieces_end_at_separators(path, '#', Seq::empty());
    let p3 = number;
    let pull = "pull"@;
    assert(!pull.contains('/'));
    let p2 = pull.push('/') + number;
    let p1 = repo.push('/') + p2;
    assert(path =~= owner.push('/') + p1);
    text::pieces_end_at_separators(owner, '/', p1);
    text::pieces_end_at_separators(repo, '/', p2);
    text::pieces_end_at_separators(pull, '/', number);
    text::pieces_end_at_separators(number, '/', Seq::empty());
    let parts = text::split_on(path, '/');
    assert(parts =~= seq![owner, repo, pull, number]);
    if !text::starts(url, "https://"@) && !text::starts(url, "http://"@) {
        if text::starts(url, host) {
            assert(url.subrange(0, 8) =~= url.subrange(0, host.len() as int).subrange(0, 8));
            assert(host.subrange(0, 8) =~= "https://"@);
        }
    }
}

/// A record is listed under its task where it has one, and what is not known has a
/// dash. A unit shows the sum of its records' costs only where one of them has a cost.
pub proof fn unknown_values_have_a_dash(r: DispatchRecord, n: u32, ms: u64)
    ensures
        r.task_slug matches Some(t) ==> record_title(r) == t@,
        r.task_slug is None ==> record_title(r) == r.id@,
        turns_cell(None) == "-"@,
        turns_cell(Some(n)) == text::decimal(n as nat),
        duration_cell(None) == "-"@,
        duration_cell(Some(ms)) == duration_text(ms),
        runs_label(1) == "1 run"@,
        n != 1 ==> runs_label(n as nat) == text::decimal(n as nat) + " runs"@,
{
    reveal_strlit("");
    reveal_strlit(" run");
    reveal_strlit("1 run");
    reveal_strlit("s");
    reveal_strlit(" runs");
    assert(text::decimal(1) =~= seq!['1']);
    assert(runs_label(1) =~= "1 run"@);
    if n != 1 {
        assert(runs_label(n as nat) =~= text::decimal(n as nat) + " runs"@);
    }
}

/// The runs of a unit are the records that name it, each of them.
pub proof fn runs_are_those_of_the_unit(
    records: Seq<DispatchRecord>,
    unit_id: Seq<char>,
    r: DispatchRecord,
)
    ensures
        runs_of(records, unit_id).contains(r) <==> records.contains(r) && (
        r.work_unit_id matches Some(id) && id@ == unit_id),
{
    let keep = |r: DispatchRecord| belongs(r, unit_id);
    let kept = records.filter(keep);
    if kept.contains(r) {
        records.lemma_filter_contains_rev(keep, r);
        let i = choose|i: int| 0 <= i < kept.len() && kept[i] == r;
        records.lemma_filter_pred(keep, i);
    }
    if records.contains(r) && keep(r) {
        let i = choose|i: int| 0 <= i < records.len() && records[i] == r;
        records.lemma_filter_contains(keep, i);
    }
}

/// A row of the flat table shows what its record holds, column by column.
pub proof fn rows_show_their_records(r: DispatchRecord, narrow: bool)
    ensures
        ({
            let cells = record_cells(r, narrow, false);
            &&& cells.len() == flat_headings().len()
            &&& flat_headings()[1] == "status"@ && cells[1] == r.status.name()
            &&& flat_headings()[2] == "task"@ && (!narrow ==> cells[2] == match r.task_slug {
                Some(t) => t@,
                None => r.id@,
            })
            &&& flat_headings()[3] == "directive"@ && cells[3] == r.directive.name()
            &&& flat_headings()[6] == "turns"@ && (r.num_turns matches Some(n) ==> cells[6]
                == text::decimal(n as nat))
            &&& flat_headings()[7] == "duration"@ && (r.duration_ms matches Some(ms) ==> cells[7]
                == duration_text(ms))
            &&& flat_headings()[8] == "worktree"@ && (!narrow ==> cells[8] == r.worktree_path@)
        }),
{
}

/// A status is asked for by its name, in whatever case; what is none is told.
pub proof fn statuses_are_asked_for_by_name(s: Status, said: Seq<char>)
    ensures
        text::lowered(said) == s.name() ==> status_asked_for(said) == Ok::<Status, Seq<char>>(s),
        status_asked_for(said) matches Ok(found) ==> text::lowered(said) == found.name(),
        status_asked_for(said) matches Err(e) ==> e == "unknown status '"@ + said + "'"@,
{
    s.parse_undoes_as_str();
}

/// Where no record is selected it is told, with a way to see more where the filter is
/// the usual one; else there is a table and below it a summary.
pub proof fn listings_are_tables_with_a_summary(
    opts: StatusOpts,
    records: Seq<DispatchRecord>,
    units: Seq<WorkUnit>,
    sums: Seq<Cost>,
    cost: Seq<char>,
    width: u16,
    colors: bool,
)
    ensures
        ({
            let lines = status_lines(opts, records, units, sums, cost, width, colors);
            let form = listing_of(opts, records.len() > 0, units.len() > 0);
            &&& form is Json ==> lines.len() == 0
            &&& form matches Listing::Nothing { hint } ==> lines[0] == "No dispatch records found."@
                && lines.len() == (if hint {
                3int
            } else {
                1
            })
            &&& form is Flat || form is Grouped ==> lines.len() == 2 && lines[1] == summary_of(
                statuses(records),
                cost,
            )
            &&& form is Flat ==> lines[0] == tables::table_text(
                headings(flat_headings(), colors),
                records.map_values(|r: DispatchRecord| record_cells(r, width < 120, colors)),
            )
        }),
{
}

} // verus!
