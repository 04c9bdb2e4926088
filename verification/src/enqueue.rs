//! `atc enqueue` - adds work to a dispatch queue.

use vstd::prelude::*;
use crate::queue::{self, parse_input_line, store_params, EnqueueItem, EnqueueResult, Priority, QueueInputType};
use crate::strmap::{self, copy_opt, StrMap};
use crate::text::{self, concat, join, push_str, trim, write_u64};

verus! {

/// Options of the `enqueue` command.
pub struct EnqueueOpts {
    /// Positional input: "task <slug>", a template name, or a prompt.
    pub input: Vec<String>,
    /// Target queue name.
    pub queue: String,
    pub priority: Priority,
    /// Directive/mode override.
    pub mode: Option<String>,
    /// Key=value pairs for template params.
    pub params: StrMap,
    /// Select what is ready.
    pub ready: bool,
    /// Limit for `ready`.
    pub limit: u32,
    /// Select from the board.
    pub board: bool,
    pub status_filter: Option<String>,
    pub unblocked: bool,
    pub unassigned: bool,
    /// Select by a saved view.
    pub view: Option<String>,
    /// Read lines from standard input.
    pub stdin: bool,
    /// Who enqueues.
    pub enqueued_by: String,
}

/// Where the work comes from.
#[derive(Clone, Copy, Debug, PartialEq, Eq, Structural)]
pub enum Selection {
    Ready,
    Board,
    SavedView,
    Stdin,
    Explicit,
}

/// How many selections were asked for besides input on the command line.
pub open spec fn delegated(opts: EnqueueOpts) -> int {
    (if opts.ready {
        1int
    } else {
        0
    }) + (if opts.board {
        1int
    } else {
        0
    }) + (if opts.view is Some {
        1int
    } else {
        0
    }) + (if opts.stdin {
        1int
    } else {
        0
    })
}

/// Where the work comes from. Exactly one source must be asked for.
pub open spec fn selection(opts: EnqueueOpts) -> Result<Selection, Seq<char>> {
    if delegated(opts) > 1 || (delegated(opts) > 0 && opts.input@.len() > 0) {
        Err("choose exactly one of positional input, --ready, --board, --view, or --stdin"@)
    } else if opts.ready {
        Ok(Selection::Ready)
    } else if opts.board {
        Ok(Selection::Board)
    } else if opts.view is Some {
        Ok(Selection::SavedView)
    } else if opts.stdin {
        Ok(Selection::Stdin)
    } else if opts.input@.len() == 0 {
        Err(
            "input required: provide a task slug, template name, prompt, or use --ready/--board/--view/--stdin"@,
        )
    } else {
        Ok(Selection::Explicit)
    }
}

fn one_if(b: bool) -> (r: u8)
    ensures
        r == if b {
            1int
        } else {
            0
        },
{
    if b {
        1
    } else {
        0
    }
}

/// Decides where the work comes from.
pub fn choose_selection(opts: &EnqueueOpts) -> (r: Result<Selection, String>)
    ensures
        crate::times::result_view(r) == selection(*opts),
{
    let delegated: u8 = one_if(opts.ready) + one_if(opts.board) + one_if(opts.view.is_some())
        + one_if(opts.stdin);
    if delegated > 1 || (delegated > 0 && opts.input.len() > 0) {
        Err(
            "choose exactly one of positional input, --ready, --board, --view, or --stdin".to_owned(),
        )
    } else if opts.ready {
        Ok(Selection::Ready)
    } else if opts.board {
        Ok(Selection::Board)
    } else if opts.view.is_some() {
        Ok(Selection::SavedView)
    } else if opts.stdin {
        Ok(Selection::Stdin)
    } else if opts.input.len() == 0 {
        Err(
            "input required: provide a task slug, template name, prompt, or use --ready/--board/--view/--stdin".to_owned(),
        )
    } else {
        Ok(Selection::Explicit)
    }
}

/// The selection is the only one that was asked for.
pub proof fn selection_is_unambiguous(opts: EnqueueOpts)
    requires
        selection(opts) is Ok,
    ensures
        selection(opts) == Ok::<Selection, Seq<char>>(Selection::Explicit) <==> (!opts.ready
            && !opts.board && opts.view is None && !opts.stdin),
        selection(opts) != Ok::<Selection, Seq<char>>(Selection::Explicit) ==> delegated(opts) == 1
            && opts.input@.len() == 0,
{
}

/// The work given on the command line.
pub fn explicit_input(opts: &EnqueueOpts) -> (r: (QueueInputType, String))
    ensures
        (r.0, r.1@) == queue::input_of(text::joined(text::views(opts.input@), " "@)),
{
    let raw = join(&opts.input, " ");
    parse_input_line(raw.as_str())
}

/// What is said where a selection brings nothing.
pub open spec fn nothing_selected(opts: EnqueueOpts, s: Selection) -> Seq<char> {
    match s {
        Selection::Ready => "No ready tasks found."@,
        Selection::Board => "No matching tasks found."@,
        Selection::SavedView => "No results from view '"@ + opts.view->0@ + "'."@,
        _ => ""@,
    }
}

pub fn nothing_message(opts: &EnqueueOpts, s: Selection) -> (r: String)
    requires
        s == Selection::SavedView ==> opts.view is Some,
    ensures
        r@ == nothing_selected(*opts, s),
{
    match s {
        Selection::Ready => "No ready tasks found.".to_owned(),
        Selection::Board => "No matching tasks found.".to_owned(),
        Selection::SavedView => match &opts.view {
            Some(v) => {
                let mut out = concat("No results from view '", v.as_str());
                push_str(&mut out, "'.");
                out
            },
            None => "".to_owned(),
        },
        Selection::Stdin => "".to_owned(),
        Selection::Explicit => "".to_owned(),
    }
}

/// The `git` arguments that list what is ready.
pub open spec fn ready_args(limit: u32) -> Seq<Seq<char>> {
    seq!["kb"@, "ready"@, "--limit"@, text::decimal(limit as nat), "--format"@, "slugs"@]
}

pub fn build_ready_args(limit: u32) -> (r: Vec<String>)
    ensures
        text::views(r@) == ready_args(limit),
{
    let r = vec![
        "kb".to_owned(),
        "ready".to_owned(),
        "--limit".to_owned(),
        write_u64(limit as u64),
        "--format".to_owned(),
        "slugs".to_owned(),
    ];
    proof {
        assert(text::views(r@) =~= ready_args(limit));
    }
    r
}

/// An option with its value for each of the values.
pub open spec fn repeated(option: Seq<char>, values: Seq<Seq<char>>) -> Seq<Seq<char>>
    decreases values.len(),
{
    if values.len() == 0 {
        Seq::empty()
    } else {
        repeated(option, values.drop_last()).push(option).push(values.last())
    }
}

/// A flag, if it is set.
pub open spec fn flag(on: bool, name: Seq<char>) -> Seq<Seq<char>> {
    if on {
        seq![name]
    } else {
        Seq::empty()
    }
}

/// The `git` arguments that list tasks on the board.
pub open spec fn board_args(
    statuses: Seq<Seq<char>>,
    unblocked: bool,
    unassigned: bool,
) -> Seq<Seq<char>> {
    seq!["kb"@, "list"@, "--type"@, "task"@, "--format"@, "slugs"@] + repeated("--status"@, statuses)
        + flag(unblocked, "--unblocked"@) + flag(unassigned, "--unassigned"@)
}

pub fn push_arg(args: &mut Vec<String>, s: &str)
    ensures
        text::views(final(args)@) == text::views(old(args)@).push(s@),
{
    let a = s.to_owned();
    proof {
        text::views_push(args@, a);
    }
    args.push(a);
}

pub fn build_board_args(statuses: &Vec<String>, unblocked: bool, unassigned: bool) -> (r: Vec<
    String,
>)
    ensures
        text::views(r@) == board_args(text::views(statuses@), unblocked, unassigned),
{
    let mut args = vec![
        "kb".to_owned(),
        "list".to_owned(),
        "--type".to_owned(),
        "task".to_owned(),
        "--format".to_owned(),
        "slugs".to_owned(),
    ];
    let ghost base = seq!["kb"@, "list"@, "--type"@, "task"@, "--format"@, "slugs"@];
    let ghost all = text::views(statuses@);
    let mut i: usize = 0;
    proof {
        assert(text::views(args@) =~= base + repeated("--status"@, all.take(0)));
    }
    while i < statuses.len()
        invariant
            i <= statuses.len(),
            all == text::views(statuses@),
            text::views(args@) == base + repeated("--status"@, all.take(i as int)),
        decreases statuses.len() - i,
    {
        proof {
            assert(all.take(i + 1).drop_last() =~= all.take(i as int));
            assert(all.take(i + 1).last() == statuses@[i as int]@);
            let before = repeated("--status"@, all.take(i as int));
            assert((base + before).push("--status"@).push(statuses@[i as int]@) =~= base
                + before.push("--status"@).push(statuses@[i as int]@));
        }
        push_arg(&mut args, "--status");
        push_arg(&mut args, statuses[i].as_str());
        i += 1;
    }
    let ghost listed = text::views(args@);
    proof {
        assert(all.take(i as int) =~= all);
    }
    if unblocked {
        push_arg(&mut args, "--unblocked");
    }
    proof {
        assert(text::views(args@) =~= listed + flag(unblocked, "--unblocked"@));
    }
    let ghost marked = text::views(args@);
    if unassigned {
        push_arg(&mut args, "--unassigned");
    }
    proof {
        assert(text::views(args@) =~= marked + flag(unassigned, "--unassigned"@));
    }
    args
}

/// The `git` arguments for the board that the options ask for.
pub fn board_query_args(opts: &EnqueueOpts) -> (r: Vec<String>)
    ensures
        text::views(r@) == board_args(
            match opts.status_filter {
                Some(s) => seq![s@],
                None => Seq::empty(),
            },
            opts.unblocked,
            opts.unassigned,
        ),
{
    let statuses: Vec<String> = match &opts.status_filter {
        Some(s) => vec![s.clone()],
        None => Vec::new(),
    };
    proof {
        assert(text::views(statuses@) =~= match opts.status_filter {
            Some(s) => seq![s@],
            None => Seq::empty(),
        });
    }
    build_board_args(&statuses, opts.unblocked, opts.unassigned)
}

/// The `git` arguments for a saved view.
pub open spec fn view_args(view: Seq<char>) -> Seq<Seq<char>> {
    seq!["kb"@, "list"@, "--view"@, view, "--format"@, "slugs"@]
}

pub fn build_view_args(view: &str) -> (r: Vec<String>)
    ensures
        text::views(r@) == view_args(view@),
{
    let r = vec![
        "kb".to_owned(),
        "list".to_owned(),
        "--view".to_owned(),
        view.to_owned(),
        "--format".to_owned(),
        "slugs".to_owned(),
    ];
    proof {
        assert(text::views(r@) =~= view_args(view@));
    }
    r
}

/// The error for a query that failed.
pub open spec fn query_error(s: Selection, stderr: Seq<char>) -> Seq<char> {
    (match s {
        Selection::Ready => "git kb ready failed: "@,
        Selection::Board => "git kb list failed: "@,
        _ => "git kb list --view failed: "@,
    }) + text::trimmed(stderr)
}

pub fn query_error_message(s: Selection, stderr: &str) -> (r: String)
    ensures
        r@ == query_error(s, stderr@),
{
    let what = match s {
        Selection::Ready => "git kb ready failed: ",
        Selection::Board => "git kb list failed: ",
        _ => "git kb list --view failed: ",
    };
    concat(what, trim(stderr).as_str())
}

/// The error for `git` taking too long.
pub fn timeout_message(args: &Vec<String>) -> (r: String)
    ensures
        r@ == "git "@ + text::joined(text::views(args@), " "@) + " timed out after 30s"@,
{
    let mut out = concat("git ", join(args, " ").as_str());
    push_str(&mut out, " timed out after 30s");
    out
}

impl EnqueueItem {
    /// The item is the given work as the options ask for it.
    pub open spec fn is_asked(
        self,
        opts: EnqueueOpts,
        kind: QueueInputType,
        value: Seq<char>,
    ) -> bool {
        &&& self.queue_name@ == opts.queue@
        &&& self.input_type == kind
        &&& self.input_value@ == value
        &&& strmap::opt_view(self.mode) == strmap::opt_view(opts.mode)
        &&& self.priority == opts.priority
        &&& strmap::opt_view(self.enqueued_by) == Some(opts.enqueued_by@)
        &&& queue::params_stored(strmap::opt_view(self.params)) == opts.params@
    }
}

/// The item to put into the queue: the given work, with the parameters of the
/// options, which are found again when it is dispatched.
pub fn build_item(opts: &EnqueueOpts, kind: QueueInputType, value: &str) -> (r: EnqueueItem)
    ensures
        r.is_asked(*opts, kind, value@),
{
    EnqueueItem {
        queue_name: opts.queue.clone(),
        input_type: kind,
        input_value: value.to_owned(),
        mode: copy_opt(&opts.mode),
        priority: opts.priority,
        params: store_params(&opts.params),
        enqueued_by: Some(opts.enqueued_by.clone()),
    }
}

/// What is said of an item.
pub fn result_line(input: &str, result: &EnqueueResult) -> (r: String)
    ensures
        r@ == match *result {
            EnqueueResult::Enqueued { id } => "Enqueued: "@ + input@ + " (id: "@ + id@ + ")"@,
            EnqueueResult::Skipped(reason) => "Skipped:  "@ + input@ + " ("@ + reason@ + ")"@,
        },
{
    match result {
        EnqueueResult::Enqueued { id } => {
            let mut out = concat("Enqueued: ", input);
            push_str(&mut out, " (id: ");
            push_str(&mut out, id.as_str());
            push_str(&mut out, ")");
            out
        },
        EnqueueResult::Skipped(reason) => {
            let mut out = concat("Skipped:  ", input);
            push_str(&mut out, " (");
            push_str(&mut out, reason.as_str());
            push_str(&mut out, ")");
            out
        },
    }
}

/// Counts an item.
pub fn count_result(result: &EnqueueResult, enqueued: &mut u32, skipped: &mut u32)
    requires
        *old(enqueued) < u32::MAX,
        *old(skipped) < u32::MAX,
    ensures
        result is Enqueued ==> *final(enqueued) == *old(enqueued) + 1 && *final(skipped) == *old(skipped),
        result is Skipped ==> *final(enqueued) == *old(enqueued) && *final(skipped) == *old(skipped)
            + 1,
{
    match result {
        EnqueueResult::Enqueued { .. } => {
            *enqueued = *enqueued + 1;
        },
        EnqueueResult::Skipped(_) => {
            *skipped = *skipped + 1;
        },
    }
}

/// The totals, unless there was only one item.
pub fn total_line(enqueued: u32, skipped: u32) -> (r: Option<String>)
    ensures
        strmap::opt_view(r) == if enqueued + skipped > 1 {
            Some(
                "\nTotal: "@ + text::decimal(enqueued as nat) + " enqueued, "@ + text::decimal(
                    skipped as nat,
                ) + " skipped (dedup)"@,
            )
        } else {
            None
        },
{
    if enqueued as u64 + skipped as u64 > 1 {
        let mut out = concat("\nTotal: ", write_u64(enqueued as u64).as_str());
        push_str(&mut out, " enqueued, ");
        push_str(&mut out, write_u64(skipped as u64).as_str());
        push_str(&mut out, " skipped (dedup)");
        Some(out)
    } else {
        None
    }
}

/// Each source of work is chosen exactly where it and no other is asked for; words on the
/// command line are one of them. Anything else is refused.
pub proof fn one_source_is_chosen(opts: EnqueueOpts)
    ensures
        ({
            let words = opts.input@.len() > 0;
            let view = opts.view is Some;
            let s = selection(opts);
            &&& s == Ok::<Selection, Seq<char>>(Selection::Ready) <==> opts.ready && !opts.board
                && !view && !opts.stdin && !words
            &&& s == Ok::<Selection, Seq<char>>(Selection::Board) <==> !opts.ready && opts.board
                && !view && !opts.stdin && !words
            &&& s == Ok::<Selection, Seq<char>>(Selection::SavedView) <==> !opts.ready
                && !opts.board && view && !opts.stdin && !words
            &&& s == Ok::<Selection, Seq<char>>(Selection::Stdin) <==> !opts.ready && !opts.board
                && !view && opts.stdin && !words
            &&& s == Ok::<Selection, Seq<char>>(Selection::Explicit) <==> !opts.ready
                && !opts.board && !view && !opts.stdin && words
        }),
{
}

proof fn repeated_is(option: Seq<char>, values: Seq<Seq<char>>, i: int)
    ensures
        repeated(option, values).len() == 2 * values.len(),
        0 <= i < values.len() ==> repeated(option, values)[2 * i] == option && repeated(
            option,
            values,
        )[2 * i + 1] == values[i],
    decreases values.len(),
{
    if values.len() > 0 {
        let front = values.drop_last();
        repeated_is(option, front, i);
        if 0 <= i < front.len() {
            assert(front[i] == values[i]);
            assert(repeated(option, values)[2 * i] == repeated(option, front)[2 * i]);
            assert(repeated(option, values)[2 * i + 1] == repeated(option, front)[2 * i + 1]);
        }
    }
}

/// The board is asked for tasks of each of the statuses, and for those that are unblocked
/// or unassigned exactly where that is wanted.
pub proof fn boards_are_asked_for_what_is_wanted(
    statuses: Seq<Seq<char>>,
    unblocked: bool,
    unassigned: bool,
    i: int,
)
    ensures
        ({
            let args = board_args(statuses, unblocked, unassigned);
            let n = 6 + 2 * statuses.len() as int;
            &&& args.len() == n + (if unblocked {
                1int
            } else {
                0
            }) + (if unassigned {
                1int
            } else {
                0
            })
            &&& args[0] == "kb"@ && args[1] == "list"@ && args[2] == "--type"@ && args[3]
                == "task"@ && args[4] == "--format"@ && args[5] == "slugs"@
            &&& 0 <= i < statuses.len() ==> args[6 + 2 * i] == "--status"@ && args[7 + 2 * i]
                == statuses[i]
            &&& unblocked ==> args[n] == "--unblocked"@
            &&& unassigned ==> args[args.len() - 1] == "--unassigned"@
        }),
{
    repeated_is("--status"@, statuses, i);
}

/// An item that is put in the queue is what the options ask for: in their queue, of
/// their priority, under their mode and with their parameters.
pub proof fn items_are_queued_as_asked(
    item: EnqueueItem,
    opts: EnqueueOpts,
    kind: QueueInputType,
    value: Seq<char>,
)
    requires
        item.is_asked(opts, kind, value),
    ensures
        item.queue_name@ == opts.queue@,
        item.input_type == kind,
        item.input_value@ == value,
        item.priority == opts.priority,
        strmap::opt_view(item.mode) == strmap::opt_view(opts.mode),
        item.params is None ==> opts.params@ == Map::<Seq<char>, Seq<char>>::empty(),
{
}

/// What is ready, and a saved view, are asked for with the limit or the name given.
pub proof fn queries_hand_on_what_is_given(limit: u32, view: Seq<char>)
    ensures
        ready_args(limit).len() == 6,
        ready_args(limit)[2] == "--limit"@ && ready_args(limit)[3] == text::decimal(limit as nat),
        view_args(view).len() == 6,
        view_args(view)[2] == "--view"@ && view_args(view)[3] == view,
        ready_args(limit)[1] == "ready"@ && view_args(view)[1] == "list"@,
{
}

} // verus!
