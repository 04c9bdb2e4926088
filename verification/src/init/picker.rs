//! The agents that are offered for wiring, and what is done with those chosen.

use vstd::prelude::*;
use crate::dispatch::list_contains;
use crate::init::agents::{AgentEntry, AgentOpts, AgentStatus};
use crate::order::reversed;
use crate::text::{self, concat, pad_right, push_str};

verus! {

/// One row of the picker.
pub struct AgentOption {
    pub entry: AgentEntry,
    pub status: AgentStatus,
    pub label: String,
    /// Whether the row can be chosen.
    pub selectable: bool,
    /// Whether the row is chosen to begin with.
    pub default_selected: bool,
}

/// A status as it is shown in the picker.
pub open spec fn glyph(s: AgentStatus) -> Seq<char> {
    match s {
        AgentStatus::Wired => "\u{2713} wired"@,
        AgentStatus::WrongTarget(_) => "\u{21af} wrong target"@,
        AgentStatus::UserDir => "\u{26a0} user dir"@,
        AgentStatus::Copied => "\u{25cf} copied"@,
        AgentStatus::ParentMissing => "\u{b7}  parent missing"@,
        AgentStatus::Available => "+  available"@,
    }
}

fn glyph_of(s: &AgentStatus) -> (r: &'static str)
    ensures
        r@ == glyph(*s),
{
    match s {
        AgentStatus::Wired => "\u{2713} wired",
        AgentStatus::WrongTarget(_) => "\u{21af} wrong target",
        AgentStatus::UserDir => "\u{26a0} user dir",
        AgentStatus::Copied => "\u{25cf} copied",
        AgentStatus::ParentMissing => "\u{b7}  parent missing",
        AgentStatus::Available => "+  available",
    }
}

/// The label of an agent.
pub open spec fn label(e: AgentEntry, s: AgentStatus) -> Seq<char> {
    text::padded_right(e.name@, ' ', 8) + "  "@ + text::padded_right(e.target_dir@, ' ', 24)
        + "  "@ + glyph(s)
}

impl AgentOption {
    /// The row is that of the agent. It can be chosen if there is a place for it
    /// that nobody else uses, and is chosen to begin with if nothing is there.
    pub open spec fn is_for(self, e: AgentEntry, s: AgentStatus) -> bool {
        &&& self.entry.same(e)
        &&& self.status == s
        &&& self.label@ == label(e, s)
        &&& self.selectable == !(s is ParentMissing || s is UserDir)
        &&& self.default_selected == (s is Available)
    }
}

/// Build the row of an agent.
pub fn build_option(entry: AgentEntry, status: AgentStatus) -> (r: AgentOption)
    ensures
        r.is_for(entry, status),
{
    let mut text = pad_right(entry.name.as_str(), ' ', 8);
    push_str(&mut text, "  ");
    push_str(&mut text, pad_right(entry.target_dir.as_str(), ' ', 24).as_str());
    push_str(&mut text, "  ");
    push_str(&mut text, glyph_of(&status));
    let selectable = !matches!(&status, AgentStatus::ParentMissing | AgentStatus::UserDir);
    let default_selected = matches!(&status, AgentStatus::Available);
    AgentOption { entry, status, label: text, selectable, default_selected }
}

/// Build the rows of all agents, in their order.
pub fn build_options(entries: &Vec<AgentEntry>, statuses: Vec<AgentStatus>) -> (r: Vec<AgentOption>)
    requires
        entries@.len() == statuses@.len(),
    ensures
        r@.len() == entries@.len(),
        forall|i: int|
            0 <= i < r@.len() ==> (#[trigger] r@[i]).is_for(entries@[i], statuses@[i]),
{
    let ghost all = statuses@;
    let mut rest = reversed(statuses);
    let mut out: Vec<AgentOption> = Vec::new();
    proof {
        assert(rest@ =~= all.reverse().take(rest@.len() as int));
    }
    while out.len() < entries.len()
        invariant
            entries@.len() == all.len(),
            out@.len() + rest@.len() == all.len(),
            rest@ == all.reverse().take(rest@.len() as int),
            forall|i: int|
                0 <= i < out@.len() ==> (#[trigger] out@[i]).is_for(entries@[i], all[i]),
        decreases entries.len() - out.len(),
    {
        let ghost before = rest@;
        let i = out.len();
        if let Some(status) = rest.pop() {
            proof {
                assert(status == before.last());
                assert(status == all[i as int]);
                assert(rest@ =~= all.reverse().take(rest@.len() as int));
            }
            out.push(build_option(entries[i].copy(), status));
        }
    }
    out
}

/// What someone else made, and what has no place, is not offered.
pub proof fn user_content_is_not_offered(o: AgentOption, e: AgentEntry, s: AgentStatus)
    requires
        o.is_for(e, s),
        s is UserDir || s is ParentMissing,
    ensures
        !o.selectable,
        !o.default_selected,
{
}

/// The line of a row.
pub open spec fn option_line(o: AgentOption) -> Seq<char> {
    (if !o.selectable {
        "    "@
    } else if o.default_selected {
        "[x] "@
    } else {
        "[ ] "@
    }) + o.label@ + "\n"@
}

/// The lines of the first `n` rows.
pub open spec fn options_text(opts: Seq<AgentOption>, n: int) -> Seq<char>
    decreases n,
{
    if n <= 0 {
        Seq::empty()
    } else {
        options_text(opts, n - 1) + option_line(opts[n - 1])
    }
}

/// Render the picker rows as a single string.
pub fn render_options(opts: &Vec<AgentOption>) -> (r: String)
    ensures
        r@ == options_text(opts@, opts@.len() as int),
{
    let mut out = String::new();
    let mut i: usize = 0;
    while i < opts.len()
        invariant
            i <= opts.len(),
            out@ == options_text(opts@, i as int),
        decreases opts.len() - i,
    {
        let o = &opts[i];
        let mark = if !o.selectable {
            "    "
        } else if o.default_selected {
            "[x] "
        } else {
            "[ ] "
        };
        let mut line = concat(mark, o.label.as_str());
        push_str(&mut line, "\n");
        push_str(&mut out, line.as_str());
        i += 1;
    }
    out
}

/// How a row that was chosen is wired: a link that points elsewhere is replaced,
/// and a copy stays one, even where that was not asked for.
pub open spec fn row_opts(s: AgentStatus, copy: bool, force: bool) -> AgentOpts {
    AgentOpts { force: force || s is WrongTarget, copy: copy || s is Copied }
}

pub fn opts_for_row(option: &AgentOption, copy: bool, force: bool) -> (r: AgentOpts)
    ensures
        r == row_opts(option.status, copy, force),
{
    let wrong = matches!(&option.status, AgentStatus::WrongTarget(_));
    let copied = matches!(&option.status, AgentStatus::Copied);
    AgentOpts { force: force || wrong, copy: copy || copied }
}

/// A row that can be chosen is never refused for want of a flag, unless a copy
/// of a link is asked for.
pub proof fn chosen_rows_can_be_wired(s: AgentStatus, force: bool)
    requires
        !(s is UserDir),
    ensures
        crate::init::agents::wire_plan(s, row_opts(s, false, force))
            != crate::init::agents::WirePlan::Refuse,
{
}

/// The row is offered, and its label was chosen.
pub open spec fn is_chosen(o: AgentOption, labels: Seq<Seq<char>>) -> bool {
    o.selectable && labels.contains(o.label@)
}

/// The positions of the rows that were chosen.
pub fn chosen_rows(opts: &Vec<AgentOption>, labels: &Vec<String>) -> (r: Vec<usize>)
    ensures
        forall|k: int|
            0 <= k < r@.len() ==> 0 <= #[trigger] r@[k] < opts@.len() && is_chosen(
                opts@[r@[k] as int],
                text::views(labels@),
            ),
        forall|k: int, l: int| 0 <= k < l < r@.len() ==> #[trigger] r@[k] < #[trigger] r@[l],
        forall|i: int|
            0 <= i < opts@.len() && is_chosen(#[trigger] opts@[i], text::views(labels@))
                ==> exists|k: int| 0 <= k < r@.len() && #[trigger] r@[k] == i,
{
    let ghost wanted = text::views(labels@);
    let mut out: Vec<usize> = Vec::new();
    let mut i: usize = 0;
    while i < opts.len()
        invariant
            i <= opts.len(),
            wanted == text::views(labels@),
            forall|k: int|
                0 <= k < out@.len() ==> 0 <= #[trigger] out@[k] < i && is_chosen(
                    opts@[out@[k] as int],
                    wanted,
                ),
            forall|k: int, l: int|
                0 <= k < l < out@.len() ==> #[trigger] out@[k] < #[trigger] out@[l],
            forall|j: int|
                0 <= j < i && is_chosen(#[trigger] opts@[j], wanted) ==> exists|k: int|
                    0 <= k < out@.len() && #[trigger] out@[k] == j,
        decreases opts.len() - i,
    {
        let ghost before = out@;
        if opts[i].selectable && list_contains(labels, opts[i].label.as_str()) {
            out.push(i);
            proof {
                assert forall|j: int|
                    0 <= j < i + 1 && is_chosen(#[trigger] opts@[j], wanted) implies exists|k: int|
                    0 <= k < out@.len() && #[trigger] out@[k] == j by {
                    if j == i {
                        assert(out@[before.len() as int] == j);
                    } else {
                        let k = choose|k: int| 0 <= k < before.len() && #[trigger] before[k] == j;
                        assert(out@[k] == j);
                    }
                }
            }
        }
        i += 1;
    }
    out
}

/// The keys of the picker.
pub const PICKER_HELP: &'static str =
    "space toggle · a select all · n select none · enter confirm · esc cancel";

/// What is said where no agent can be picked: which directory could be made.
pub fn no_directories_message(parent: &str) -> (r: String)
    ensures
        r@ == "atc init: no agent skill directories detected. Create one (e.g. mkdir -p "@
            + parent@ + ") and re-run `atc init --interactive`."@,
{
    let mut out = concat(
        "atc init: no agent skill directories detected. Create one (e.g. mkdir -p ",
        parent,
    );
    push_str(&mut out, ") and re-run `atc init --interactive`.");
    out
}

/// A row that cannot be chosen has no box; the others have one, filled where they are
/// chosen to begin with.
pub proof fn boxes_show_what_is_chosen(o: AgentOption)
    ensures
        !o.selectable ==> option_line(o) == "    "@ + o.label@ + "\n"@,
        o.selectable && o.default_selected ==> option_line(o) == "[x] "@ + o.label@ + "\n"@,
        o.selectable && !o.default_selected ==> option_line(o) == "[ ] "@ + o.label@ + "\n"@,
{
}

/// The picker shows each row, one after the other.
pub proof fn each_row_is_shown(opts: Seq<AgentOption>, n: int, i: int)
    requires
        0 <= i < n <= opts.len(),
    ensures
        text::occurs(options_text(opts, n), option_line(opts[i])),
        options_text(opts, n).len() == options_text(opts, n - 1).len() + option_line(
            opts[n - 1],
        ).len(),
    decreases n,
{
    let all = options_text(opts, n);
    let line = option_line(opts[i]);
    if i == n - 1 {
        let k = all.len() - line.len();
        assert(all.subrange(k, k + line.len()) =~= line);
        assert(text::occurs_at(all, k, line));
    } else {
        each_row_is_shown(opts, n - 1, i);
        let before = options_text(opts, n - 1);
        let k = choose|k: int| text::occurs_at(before, k, line);
        assert(all.subrange(k, k + line.len()) =~= before.subrange(k, k + line.len()));
        assert(text::occurs_at(all, k, line));
    }
}

/// A chosen row is wired as is asked for; a link that points elsewhere is replaced in
/// any case, and a copy stays a copy.
pub proof fn chosen_rows_are_wired_as_they_are(s: AgentStatus, copy: bool, force: bool)
    ensures
        row_opts(s, copy, true).force,
        row_opts(s, true, force).copy,
        row_opts(s, copy, false).force <==> s is WrongTarget,
        row_opts(s, false, force).copy <==> s is Copied,
{
}

/// A row is chosen where it is offered and its label was picked.
pub proof fn only_offered_rows_are_chosen(o: AgentOption, labels: Seq<Seq<char>>)
    ensures
        is_chosen(o, labels) ==> o.selectable && labels.contains(o.label@),
        o.selectable && labels.contains(o.label@) ==> is_chosen(o, labels),
{
}

} // verus!
