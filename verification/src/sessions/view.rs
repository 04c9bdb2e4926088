//! The sessions in text.

use vstd::prelude::*;
use crate::sessions::actions::{self, enabled_action_labels, ActionAvailability, SessionActionState};
use crate::sessions::snapshot::{SessionRow, SessionSnapshot};
use crate::status::{self, format_pr_list};
use crate::tables::{self, render_fitted_table};
use crate::text::{self, chars_of, concat, join, push_str, slice_chars};
use crate::times::{self, format_age};
use crate::types::{Cost, Timestamp};

verus! {

/// A text cut in the middle, so that the ends stay.
pub open spec fn cut_middle(s: Seq<char>, max: nat) -> Seq<char> {
    if s.len() <= max {
        s
    } else if max <= 1 {
        seq!['\u{2026}']
    } else {
        let left = (max - 1) / 2;
        let right = max - 1 - left;
        s.take(left).push('\u{2026}') + s.skip(s.len() - right)
    }
}

pub fn truncate_middle(value: &str, max_chars: usize) -> (r: String)
    ensures
        r@ == cut_middle(value@, max_chars as nat),
{
    let v = chars_of(value);
    if v.len() <= max_chars {
        return value.to_owned();
    }
    let mut out = String::new();
    if max_chars <= 1 {
        out.push('\u{2026}');
        proof {
            assert(out@ =~= seq!['\u{2026}']);
        }
        return out;
    }
    let left: usize = (max_chars - 1) / 2;
    let right: usize = max_chars - 1 - left;
    let mut head = slice_chars(&v, 0, left);
    head.push('\u{2026}');
    let tail = slice_chars(&v, v.len() - right, v.len());
    proof {
        assert(v@.subrange(0, left as int) =~= value@.take(left as int));
        assert(v@.subrange(v@.len() - right, v@.len() as int) =~= value@.skip(
            value@.len() - right,
        ));
    }
    push_str(&mut head, tail.as_str());
    head
}

/// A cut text is no longer than it may be.
pub proof fn cut_text_fits(s: Seq<char>, max: nat)
    requires
        max > 0,
    ensures
        cut_middle(s, max).len() <= max,
{
}

/// A cost, or a dash.
pub open spec fn cost_text(cost: Option<Cost>) -> Seq<char> {
    match cost {
        Some(c) => "$"@ + c.amount@,
        None => "-"@,
    }
}

pub fn format_cost(cost: &Option<Cost>) -> (r: String)
    ensures
        r@ == cost_text(*cost),
{
    match cost {
        Some(c) => concat("$", c.amount.as_str()),
        None => "-".to_owned(),
    }
}

/// The cells of a session in the printed table.
pub open spec fn once_cells(row: SessionRow, now: Timestamp) -> Seq<Seq<char>> {
    seq![
        row.group_key@,
        row.task_text(),
        row.provider@,
        row.status.name(),
        times::age_text(times::age_secs(now, row.updated_at)),
        cost_text(row.cost),
        cut_middle(row.session@, 40),
        text::joined(actions::labels(row.actions), ","@),
    ]
}

fn once_row(row: &SessionRow, now: Timestamp) -> (r: Vec<String>)
    ensures
        text::views(r@) == once_cells(*row, now),
{
    let labels = enabled_action_labels(&row.actions);
    let r = vec![
        row.group_key.clone(),
        row.display_task().to_owned(),
        row.provider.clone(),
        row.status.as_str().to_owned(),
        format_age(now, row.updated_at),
        format_cost(&row.cost),
        truncate_middle(row.session.as_str(), 40),
        join(&labels, ","),
    ];
    proof {
        assert(text::views(r@) =~= once_cells(*row, now));
    }
    r
}

/// The headings of the printed table.
pub open spec fn once_headings() -> Seq<Seq<char>> {
    seq!["group"@, "task"@, "provider"@, "status"@, "age"@, "cost"@, "session"@, "actions"@]
}

/// What is printed of the sessions.
pub open spec fn once_text(
    s: SessionSnapshot,
    now: Timestamp,
    cost: Seq<char>,
    width: Option<u16>,
) -> Seq<char> {
    "ATC Sessions  "@ + s.summary.in_words(cost) + "  group: "@ + s.group.name() + "\n\n"@ + (
    if s.rows@.len() == 0 {
        "No sessions found.\n"@
    } else {
        tables::fitted_table(
            once_headings(),
            s.rows@.map_values(|row: SessionRow| once_cells(row, now)),
            width,
        ) + "\n"@
    })
}

/// The sessions as they are printed once. `cost` is the total cost as it is
/// written, and `width` that of the terminal, if there is one.
pub fn render_once(
    snapshot: &SessionSnapshot,
    now: Timestamp,
    cost: &str,
    width: Option<u16>,
) -> (r: String)
    ensures
        r@ == once_text(*snapshot, now, cost@, width),
{
    let mut out = concat("ATC Sessions  ", snapshot.summary.human(cost).as_str());
    push_str(&mut out, "  group: ");
    push_str(&mut out, snapshot.group.label());
    push_str(&mut out, "\n\n");
    if snapshot.rows.len() == 0 {
        push_str(&mut out, "No sessions found.\n");
        return out;
    }
    let header = vec![
        "group".to_owned(),
        "task".to_owned(),
        "provider".to_owned(),
        "status".to_owned(),
        "age".to_owned(),
        "cost".to_owned(),
        "session".to_owned(),
        "actions".to_owned(),
    ];
    proof {
        assert(text::views(header@) =~= once_headings());
    }
    let ghost all = snapshot.rows@.map_values(|row: SessionRow| once_cells(row, now));
    let mut rows: Vec<Vec<String>> = Vec::new();
    let mut i: usize = 0;
    proof {
        assert(tables::grid(rows@) =~= all.take(0));
    }
    while i < snapshot.rows.len()
        invariant
            i <= snapshot.rows.len(),
            all == snapshot.rows@.map_values(|row: SessionRow| once_cells(row, now)),
            tables::grid(rows@) == all.take(i as int),
        decreases snapshot.rows.len() - i,
    {
        let row = once_row(&snapshot.rows[i], now);
        proof {
            tables::grid_push(rows@, row);
            assert(all.take(i + 1) =~= all.take(i as int).push(text::views(row@)));
        }
        rows.push(row);
        i += 1;
    }
    proof {
        assert(all.take(i as int) =~= all);
    }
    let mut body = render_fitted_table(&header, &rows, width);
    push_str(&mut body, "\n");
    push_str(&mut out, body.as_str());
    out
}

/// An action, with the reason if it is not available.
pub open spec fn action_word(a: ActionAvailability, name: Seq<char>) -> Seq<char> {
    if a.enabled {
        name
    } else {
        name + "("@ + (match a.reason {
            Some(r) => r@,
            None => "disabled"@,
        }) + ")"@
    }
}

fn write_action(a: &ActionAvailability, name: &str) -> (r: String)
    ensures
        r@ == action_word(*a, name@),
{
    if a.enabled {
        return name.to_owned();
    }
    let mut out = concat(name, "(");
    match &a.reason {
        Some(r) => push_str(&mut out, r.as_str()),
        None => push_str(&mut out, "disabled"),
    }
    push_str(&mut out, ")");
    out
}

/// All actions but the details themselves.
pub open spec fn action_words(s: SessionActionState) -> Seq<Seq<char>> {
    seq![
        action_word(s.logs, "logs"@),
        action_word(s.follow_logs, "follow"@),
        action_word(s.attach, "attach"@),
        action_word(s.redirect, "redirect"@),
        action_word(s.resume, "resume"@),
        action_word(s.stop, "stop"@),
        action_word(s.cleanup, "cleanup"@),
    ]
}

fn write_actions(s: &SessionActionState) -> (r: String)
    ensures
        r@ == text::joined(action_words(*s), ", "@),
{
    let words = vec![
        write_action(&s.logs, "logs"),
        write_action(&s.follow_logs, "follow"),
        write_action(&s.attach, "attach"),
        write_action(&s.redirect, "redirect"),
        write_action(&s.resume, "resume"),
        write_action(&s.stop, "stop"),
        write_action(&s.cleanup, "cleanup"),
    ];
    proof {
        assert(text::views(words@) =~= action_words(*s));
    }
    join(&words, ", ")
}

/// The first half of the details of a session.
pub open spec fn detail_head(row: SessionRow) -> Seq<char> {
    "id: "@ + row.id@ + "\ntask: "@ + row.task_text() + "\nwork_unit: "@ + row.work_unit_text()
        + "\nprovider: "@ + row.provider@ + "  provider_session: "@ + row.provider_session_text()
        + "\nstatus: "@ + row.status.name() + "  directive: "@ + row.directive@ + "  resolver: "@
        + row.resolver@
}

/// The second half of the details of a session.
pub open spec fn detail_tail(row: SessionRow) -> Seq<char> {
    "\nbranch: "@ + row.branch@ + "\nworktree: "@ + row.worktree_path@ + "\nlog: "@ + (
    match row.log_file {
        Some(l) => l@,
        None => "-"@,
    }) + "\nprs: "@ + status::pr_cell(status::short_prs(text::views(row.pr_urls@)))
        + "\nresume_of: "@ + (match row.resume_of_dispatch_id {
        Some(d) => d@,
        None => "-"@,
    }) + "\nactions: "@ + text::joined(action_words(row.actions), ", "@)
}

fn write_detail_head(row: &SessionRow) -> (out: String)
    ensures
        out@ == detail_head(*row),
{
    let mut out = concat("id: ", row.id.as_str());
    push_str(&mut out, "\ntask: ");
    push_str(&mut out, row.display_task());
    push_str(&mut out, "\nwork_unit: ");
    push_str(&mut out, row.display_work_unit());
    push_str(&mut out, "\nprovider: ");
    push_str(&mut out, row.provider.as_str());
    push_str(&mut out, "  provider_session: ");
    push_str(&mut out, row.display_provider_session());
    push_str(&mut out, "\nstatus: ");
    push_str(&mut out, row.status.as_str());
    push_str(&mut out, "  directive: ");
    push_str(&mut out, row.directive.as_str());
    push_str(&mut out, "  resolver: ");
    push_str(&mut out, row.resolver.as_str());
    out
}

fn write_detail_tail(row: &SessionRow) -> (out: String)
    ensures
        out@ == detail_tail(*row),
{
    let mut out = concat("\nbranch: ", row.branch.as_str());
    push_str(&mut out, "\nworktree: ");
    push_str(&mut out, row.worktree_path.as_str());
    push_str(&mut out, "\nlog: ");
    match &row.log_file {
        Some(l) => push_str(&mut out, l.as_str()),
        None => push_str(&mut out, "-"),
    }
    push_str(&mut out, "\nprs: ");
    push_str(&mut out, format_pr_list(&row.pr_urls).as_str());
    push_str(&mut out, "\nresume_of: ");
    match &row.resume_of_dispatch_id {
        Some(d) => push_str(&mut out, d.as_str()),
        None => push_str(&mut out, "-"),
    }
    push_str(&mut out, "\nactions: ");
    push_str(&mut out, write_actions(&row.actions).as_str());
    out
}

/// The details of a session.
pub fn detail_text(row: &SessionRow) -> (r: String)
    ensures
        r@ == detail_head(*row) + detail_tail(*row),
{
    concat(write_detail_head(row).as_str(), write_detail_tail(row).as_str())
}

/// The cells of a session on the screen.
pub open spec fn screen_cells(row: SessionRow) -> Seq<Seq<char>> {
    seq![
        row.task_text() + "  "@ + row.work_unit_text(),
        row.provider@,
        row.status.name(),
        cost_text(row.cost),
        cut_middle(row.session@, 42),
    ]
}

pub fn screen_row(row: &SessionRow) -> (r: Vec<String>)
    ensures
        text::views(r@) == screen_cells(*row),
{
    let mut task = concat(row.display_task(), "  ");
    push_str(&mut task, row.display_work_unit());
    let r = vec![
        task,
        row.provider.clone(),
        row.status.as_str().to_owned(),
        format_cost(&row.cost),
        truncate_middle(row.session.as_str(), 42),
    ];
    proof {
        assert(text::views(r@) =~= screen_cells(*row));
    }
    r
}

/// An action that is not available is shown with its reason.
pub proof fn unavailable_actions_have_a_reason(a: ActionAvailability, name: Seq<char>)
    ensures
        a.enabled ==> action_word(a, name) == name,
        !a.enabled && a.reason is Some ==> action_word(a, name) == name + "("@ + a.reason->0@
            + ")"@,
        !a.enabled && a.reason is None ==> action_word(a, name) == name + "("@ + "disabled"@ + ")"@,
{
}

/// A session is shown with its task, its provider, its status and its cost, each in its
/// place; what is not there has a dash or a word.
pub proof fn sessions_are_shown_as_they_are(row: SessionRow, now: Timestamp)
    ensures
        once_cells(row, now).len() == once_headings().len(),
        once_headings()[0] == "group"@ && once_cells(row, now)[0] == row.group_key@,
        once_headings()[1] == "task"@,
        row.task_slug matches Some(t) ==> once_cells(row, now)[1] == t@,
        row.task_slug is None ==> once_cells(row, now)[1] == "(no task)"@,
        once_headings()[2] == "provider"@ && once_cells(row, now)[2] == row.provider@,
        once_headings()[3] == "status"@ && once_cells(row, now)[3] == row.status.name(),
        once_headings()[5] == "cost"@,
        row.cost matches Some(c) ==> once_cells(row, now)[5] == "$"@ + c.amount@,
        row.cost is None ==> once_cells(row, now)[5] == "-"@,
        once_headings()[6] == "session"@,
        row.session@.len() <= 40 ==> once_cells(row, now)[6] == row.session@,
        screen_cells(row)[1] == row.provider@,
        screen_cells(row)[2] == row.status.name(),
        screen_cells(row)[3] == once_cells(row, now)[5],
        row.session@.len() <= 42 ==> screen_cells(row)[4] == row.session@,
{
}

/// A text that is cut keeps its beginning and its end.
pub proof fn cut_texts_keep_their_ends(a: Seq<char>, gap: Seq<char>, b: Seq<char>)
    requires
        gap.len() > 1,
        b.len() == a.len() || b.len() == a.len() + 1,
        b.len() > 0,
    ensures
        cut_middle(a + gap + b, a.len() + 1 + b.len()) == a + seq!['\u{2026}'] + b,
        cut_middle(a, a.len()) == a,
{
    let s = a + gap + b;
    let max = a.len() + 1 + b.len();
    let left = (max - 1) / 2;
    assert(left == a.len());
    assert(s.take(left) =~= a);
    assert(s.skip(s.len() - b.len()) =~= b);
    assert(cut_middle(s, max) =~= a + seq!['\u{2026}'] + b);
}

} // verus!
