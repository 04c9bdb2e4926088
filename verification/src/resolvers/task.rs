//! Tasks of the knowledge base: where they are found, claimed and given back.

use vstd::prelude::*;
use vstd::string::StrSliceExecFns;
use vstd::utf8::encode_utf8;
use crate::dispatch::{self, build_dispatch_id, derive_branch};
use crate::json::{self, count_at, find_fault, holds_at, names_at, pointer_to, text_at};
use crate::paths::{self, is_below};
use crate::strmap::{self, StrMap};
use crate::text::{self, concat, contains, push_str, same, trim};
use crate::types::{Directive, DispatchRecord, ResolvedInput};

verus! {

/// Resolver for tasks. It remembers where the last task was found.
pub struct TaskResolver {
    pub last_discovered: Option<(String, String)>,
}

impl TaskResolver {
    /// The knowledge base that is remembered for a task.
    pub open spec fn remembered(self, slug: Seq<char>) -> Option<Seq<char>> {
        match self.last_discovered {
            Some((s, root)) => if s@ == slug {
                Some(root@)
            } else {
                None
            },
            None => None,
        }
    }

    pub fn new() -> (r: TaskResolver)
        ensures
            forall|slug: Seq<char>| (#[trigger] r.remembered(slug)) is None,
    {
        TaskResolver { last_discovered: None }
    }

    pub fn name(&self) -> (r: &'static str)
        ensures
            r@ == "task"@,
    {
        "task"
    }

    /// Remembers where a task was found.
    pub fn remember(&mut self, slug: &str, root: String)
        ensures
            final(self).remembered(slug@) == Some(root@),
    {
        self.last_discovered = Some((slug.to_owned(), root));
    }

    /// Gives what is remembered for a task, and forgets it. What is remembered
    /// for another task stays.
    pub fn recall(&mut self, slug: &str) -> (r: Option<String>)
        ensures
            strmap::opt_view(r) == old(self).remembered(slug@),
            r is Some ==> final(self).last_discovered is None,
            r is None ==> *final(self) == *old(self),
    {
        let known = match &self.last_discovered {
            Some((s, root)) => same(s.as_str(), slug),
            None => false,
        };
        if !known {
            return None;
        }
        match self.last_discovered.take() {
            Some((_, root)) => Some(root),
            None => None,
        }
    }
}

/// A project of the workspace, and whether the task was found in it.
pub struct Probe {
    pub path: String,
    pub hit: bool,
}

/// The first of the projects, from `i` on, in which the task was found.
pub open spec fn first_hit(probes: Seq<Probe>, i: int) -> Option<Seq<char>>
    decreases probes.len() - i,
{
    if i < 0 || i >= probes.len() {
        None
    } else if probes[i].hit {
        Some(probes[i].path@)
    } else {
        first_hit(probes, i + 1)
    }
}

/// Where a task is: in the primary knowledge base before any other.
pub open spec fn kb_of(primary: Seq<char>, primary_hit: bool, probes: Seq<Probe>) -> Option<
    Seq<char>,
> {
    if primary_hit {
        Some(primary)
    } else {
        first_hit(probes, 0)
    }
}

/// Find which knowledge base holds a task.
pub fn discover_kb_root(primary: &str, primary_hit: bool, probes: &Vec<Probe>) -> (r: Option<
    String,
>)
    ensures
        strmap::opt_view(r) == kb_of(primary@, primary_hit, probes@),
{
    if primary_hit {
        return Some(primary.to_owned());
    }
    let mut i: usize = 0;
    while i < probes.len()
        invariant
            i <= probes.len(),
            !primary_hit,
            first_hit(probes@, 0) == first_hit(probes@, i as int),
        decreases probes.len() - i,
    {
        if probes[i].hit {
            return Some(probes[i].path.clone());
        }
        i += 1;
    }
    None
}

/// A task that was found nowhere is not made up, and one that was found
/// somewhere is not missed.
pub proof fn discovery_is_exact(primary: Seq<char>, primary_hit: bool, probes: Seq<Probe>)
    ensures
        kb_of(primary, primary_hit, probes) is Some <==> primary_hit || exists|i: int|
            0 <= i < probes.len() && (#[trigger] probes[i]).hit,
{
    first_hit_is_exact(probes, 0);
}

proof fn first_hit_is_exact(probes: Seq<Probe>, from: int)
    requires
        0 <= from <= probes.len(),
    ensures
        first_hit(probes, from) is Some <==> exists|i: int|
            from <= i < probes.len() && (#[trigger] probes[i]).hit,
    decreases probes.len() - from,
{
    if from < probes.len() {
        first_hit_is_exact(probes, from + 1);
        if probes[from].hit {
            assert(from <= from < probes.len() && probes[from].hit);
        }
    }
}

/// An entry in the list of projects: the entry itself if it is a text, and the
/// text under `path`, if it has one.
pub struct ProjectEntry {
    pub itself: Option<String>,
    pub path: Option<String>,
}

/// The view of an entry.
pub open spec fn entry_view(e: ProjectEntry) -> (Option<Seq<char>>, Option<Seq<char>>) {
    (strmap::opt_view(e.itself), strmap::opt_view(e.path))
}

/// The view of a list of entries.
pub open spec fn entries_view(v: Seq<ProjectEntry>) -> Seq<
    (Option<Seq<char>>, Option<Seq<char>>),
> {
    v.map_values(|e: ProjectEntry| entry_view(e))
}

/// What bytes say of a project of this name: the text that it is, or the text under
/// `path` in it.
pub open spec fn listed_entry(bytes: Seq<u8>, name: Seq<char>) -> (
    Option<Seq<char>>,
    Option<Seq<char>>,
) {
    (
        json::json_text(bytes, json::member_pointer(name)),
        json::json_text(bytes, json::member_pointer(name) + "/path"@),
    )
}

/// The entries of the object that bytes hold, none where they hold none.
pub open spec fn listed_entries(bytes: Seq<u8>) -> Seq<(Option<Seq<char>>, Option<Seq<char>>)> {
    match json::json_names(bytes, ""@) {
        Some(names) => names.map_values(|n: Seq<char>| listed_entry(bytes, n)),
        None => Seq::empty(),
    }
}

fn read_entries(bytes: &Vec<u8>) -> (r: Vec<ProjectEntry>)
    ensures
        entries_view(r@) == listed_entries(bytes@),
{
    let mut out: Vec<ProjectEntry> = Vec::new();
    let names = match names_at(bytes, "") {
        Some(names) => names,
        None => {
            proof {
                assert(entries_view(out@) =~= listed_entries(bytes@));
            }
            return out;
        },
    };
    let ghost all = listed_entries(bytes@);
    let mut i: usize = 0;
    while i < names.len()
        invariant
            i <= names.len(),
            all == text::views(names@).map_values(|n: Seq<char>| listed_entry(bytes@, n)),
            out@.len() == i,
            forall|k: int| 0 <= k < i ==> entry_view(#[trigger] out@[k]) == all[k],
        decreases names.len() - i,
    {
        let at = pointer_to(names[i].as_str());
        let itself = text_at(bytes, at.as_str());
        let path = text_at(bytes, concat(at.as_str(), "/path").as_str());
        out.push(ProjectEntry { itself, path });
        i += 1;
    }
    proof {
        assert(entries_view(out@) =~= all);
    }
    out
}

/// The path that an entry gives.
pub open spec fn entry_path(e: (Option<Seq<char>>, Option<Seq<char>>)) -> Option<Seq<char>> {
    match e.0 {
        Some(s) => Some(s),
        None => e.1,
    }
}

/// The paths in the first `n` entries that stay below the workspace.
pub open spec fn safe_paths(
    entries: Seq<(Option<Seq<char>>, Option<Seq<char>>)>,
    n: int,
) -> Seq<Seq<char>>
    decreases n,
{
    if n <= 0 {
        Seq::empty()
    } else {
        match entry_path(entries[n - 1]) {
            Some(p) => if paths::stays_below(p) {
                safe_paths(entries, n - 1).push(p)
            } else {
                safe_paths(entries, n - 1)
            },
            None => safe_paths(entries, n - 1),
        }
    }
}

/// The paths of the projects that stay below the workspace, given the entries
/// of the list.
pub fn paths_of_entries(entries: &Vec<ProjectEntry>) -> (r: Vec<String>)
    ensures
        text::views(r@) == safe_paths(entries_view(entries@), entries@.len() as int),
{
    let ghost all = entries_view(entries@);
    let mut out: Vec<String> = Vec::new();
    let mut i: usize = 0;
    proof {
        assert(text::views(out@) =~= safe_paths(all, 0));
    }
    while i < entries.len()
        invariant
            i <= entries.len(),
            all == entries_view(entries@),
            text::views(out@) == safe_paths(all, i as int),
        decreases entries.len() - i,
    {
        proof {
            assert(all[i as int] == entry_view(entries@[i as int]));
        }
        let path = match &entries[i].itself {
            Some(s) => Some(s.clone()),
            None => strmap::copy_opt(&entries[i].path),
        };
        if let Some(p) = path {
            if is_below(p.as_str()) {
                proof {
                    text::views_push(out@, p);
                }
                out.push(p);
            }
        }
        i += 1;
    }
    out
}

/// The paths of the projects that stay below the workspace, given the list that
/// `meta` prints.
pub fn project_paths(stdout: &str) -> (r: Vec<String>)
    ensures
        ({
            let entries = listed_entries(encode_utf8(stdout@));
            text::views(r@) == safe_paths(entries, entries.len() as int)
        }),
{
    let entries = read_entries(&stdout.as_bytes_vec());
    proof {
        assert(entries_view(entries@).len() == entries@.len());
    }
    paths_of_entries(&entries)
}

/// No project leads out of the workspace.
pub proof fn projects_stay_below(
    entries: Seq<(Option<Seq<char>>, Option<Seq<char>>)>,
    n: int,
    i: int,
)
    requires
        0 <= i < safe_paths(entries, n).len(),
    ensures
        paths::stays_below(safe_paths(entries, n)[i]),
    decreases n,
{
    if n > 0 {
        let before = safe_paths(entries, n - 1);
        if i < before.len() {
            projects_stay_below(entries, n - 1, i);
        }
    }
}

/// A project is searched if it is there and is not the workspace itself.
pub fn is_searched(is_workspace: bool, is_dir: bool) -> (r: bool)
    ensures
        r == (!is_workspace && is_dir),
{
    !is_workspace && is_dir
}

/// What a task says of its directives.
pub enum DirectiveField {
    /// The task could not be read, and why.
    Unreadable(String),
    Absent,
    One(String),
    /// A list, and its first item if that is a text.
    Several(Option<String>),
    /// Something else.
    Other,
}

/// What a task says of its directives, as text.
pub enum DirectiveView {
    Unreadable(Seq<char>),
    Absent,
    One(Seq<char>),
    Several(Option<Seq<char>>),
    Other,
}

pub open spec fn field_view(f: DirectiveField) -> DirectiveView {
    match f {
        DirectiveField::Unreadable(e) => DirectiveView::Unreadable(e@),
        DirectiveField::Absent => DirectiveView::Absent,
        DirectiveField::One(s) => DirectiveView::One(s@),
        DirectiveField::Several(o) => DirectiveView::Several(strmap::opt_view(o)),
        DirectiveField::Other => DirectiveView::Other,
    }
}

/// What bytes say under `directives`.
pub open spec fn listed_directives(bytes: Seq<u8>) -> DirectiveView {
    match json::json_fault(bytes) {
        Some(fault) => DirectiveView::Unreadable(fault),
        None => match json::json_text(bytes, "/directives"@) {
            Some(one) => DirectiveView::One(one),
            None => if json::json_count(bytes, "/directives"@) is Some {
                DirectiveView::Several(json::json_text(bytes, "/directives/0"@))
            } else if json::json_holds(bytes, "/directives"@) {
                DirectiveView::Other
            } else {
                DirectiveView::Absent
            },
        },
    }
}

fn read_directives(bytes: &Vec<u8>) -> (r: DirectiveField)
    ensures
        field_view(r) == listed_directives(bytes@),
{
    if let Some(fault) = find_fault(bytes) {
        return DirectiveField::Unreadable(fault);
    }
    match text_at(bytes, "/directives") {
        Some(one) => DirectiveField::One(one),
        None => if count_at(bytes, "/directives").is_some() {
            DirectiveField::Several(text_at(bytes, "/directives/0"))
        } else if holds_at(bytes, "/directives") {
            DirectiveField::Other
        } else {
            DirectiveField::Absent
        },
    }
}

/// A directive by its name, or the error for one that is not known.
pub open spec fn directive_named(s: Seq<char>) -> Result<Directive, Seq<char>> {
    match Directive::named(s) {
        Some(d) => Ok(d),
        None => Err("unknown directive '"@ + s + "'"@),
    }
}

fn parse_directive(s: &str) -> (r: Result<Directive, String>)
    ensures
        crate::times::result_view(r) == directive_named(s@),
{
    match Directive::parse(s) {
        Some(d) => Ok(d),
        None => {
            let mut e = concat("unknown directive '", s);
            push_str(&mut e, "'");
            Err(e)
        },
    }
}

/// The directive of a task: what it says itself, the first one of a list.
pub open spec fn task_directive(f: DirectiveView, slug: Seq<char>) -> Result<Directive, Seq<char>> {
    match f {
        DirectiveView::Unreadable(e) => Err(e),
        DirectiveView::One(s) => directive_named(s),
        DirectiveView::Several(Some(s)) => directive_named(s),
        _ => Err(
            "no directive specified: pass --directive or set `directives` in task frontmatter for "@
                + slug,
        ),
    }
}

/// The directive of a task, given what it says of it.
pub fn directive_from_field(f: &DirectiveField, slug: &str) -> (r: Result<Directive, String>)
    ensures
        crate::times::result_view(r) == task_directive(field_view(*f), slug@),
{
    match f {
        DirectiveField::Unreadable(e) => Err(e.clone()),
        DirectiveField::One(s) => parse_directive(s.as_str()),
        DirectiveField::Several(Some(s)) => parse_directive(s.as_str()),
        _ => Err(
            concat(
                "no directive specified: pass --directive or set `directives` in task frontmatter for ",
                slug,
            ),
        ),
    }
}

/// The directive of a task, given what `git-kb` prints of it.
pub fn resolve_directive(stdout: &Vec<u8>, slug: &str) -> (r: Result<Directive, String>)
    ensures
        crate::times::result_view(r) == task_directive(listed_directives(stdout@), slug@),
{
    directive_from_field(&read_directives(stdout), slug)
}

/// The error for a task that could not be shown.
pub fn show_error(slug: &str, stderr: &str) -> (r: String)
    ensures
        r@ == "git kb show --json "@ + slug@ + " failed: "@ + stderr@,
{
    let mut out = concat("git kb show --json ", slug);
    push_str(&mut out, " failed: ");
    push_str(&mut out, stderr);
    out
}

/// The error for a task that is found nowhere.
pub fn not_found_error(slug: &str) -> (r: String)
    ensures
        r@ == "task slug '"@ + slug@
            + "' not found in any KB (searched primary root and meta sub-projects)"@,
{
    let mut out = concat("task slug '", slug);
    push_str(&mut out, "' not found in any KB (searched primary root and meta sub-projects)");
    out
}

/// The error for a task that could not be claimed: someone else may have it.
pub open spec fn claim_error(slug: Seq<char>, stderr: Seq<char>) -> Seq<char> {
    (if text::occurs(stderr, "already assigned"@) || text::occurs(stderr, "already claimed"@) {
        "task "@ + slug + " is already claimed; use `atc status` to check"@
    } else {
        "failed to claim task "@ + slug
    }) + "\n"@ + text::trimmed(stderr)
}

pub fn claim_error_message(slug: &str, stderr: &str) -> (r: String)
    ensures
        r@ == claim_error(slug@, stderr@),
{
    let mut out = if contains(stderr, "already assigned") || contains(stderr, "already claimed") {
        let mut m = concat("task ", slug);
        push_str(&mut m, " is already claimed; use `atc status` to check");
        m
    } else {
        concat("failed to claim task ", slug)
    };
    push_str(&mut out, "\n");
    push_str(&mut out, trim(stderr).as_str());
    out
}

/// How a task is resolved.
#[derive(Clone, Copy, Debug, PartialEq, Eq, Structural)]
pub struct TaskFacts {
    /// The task is only looked at.
    pub dry_run: bool,
    /// It is remembered where the task is.
    pub remembered: bool,
    /// The directive is asked for on the command line.
    pub directive_given: bool,
}

/// Which answer is waited for.
#[derive(Clone, Copy, Debug, PartialEq, Eq, Structural)]
pub enum Phase {
    Discover,
    Directive,
    Claim,
    Render,
    Unassign,
    Over,
}

/// The next step.
#[derive(Clone, Copy, Debug, PartialEq, Eq, Structural)]
pub enum Action {
    /// Look for the task in all knowledge bases.
    Discover,
    ReadDirective,
    Claim,
    /// Put the prompt together.
    Render,
    /// Give the claim back.
    Unassign,
    Finish,
    /// The step failed; its own error is reported.
    Fail,
}

#[derive(Clone, Copy, Debug, PartialEq, Eq, Structural)]
pub struct TaskFlow {
    pub facts: TaskFacts,
    pub phase: Phase,
}

/// The step once the directive is known: only looking claims nothing.
pub open spec fn after_directive(facts: TaskFacts) -> (Phase, Action) {
    if facts.dry_run {
        (Phase::Render, Action::Render)
    } else {
        (Phase::Claim, Action::Claim)
    }
}

/// The step once it is known where the task is.
pub open spec fn after_root(facts: TaskFacts) -> (Phase, Action) {
    if facts.directive_given {
        after_directive(facts)
    } else {
        (Phase::Directive, Action::ReadDirective)
    }
}

/// The first step.
pub open spec fn first(facts: TaskFacts) -> (Phase, Action) {
    if facts.remembered {
        after_root(facts)
    } else {
        (Phase::Discover, Action::Discover)
    }
}

/// The step that follows, given whether the last one succeeded.
pub open spec fn next(facts: TaskFacts, phase: Phase, ok: bool) -> (Phase, Action) {
    match phase {
        Phase::Discover => if ok {
            after_root(facts)
        } else {
            (Phase::Over, Action::Fail)
        },
        Phase::Directive => if ok {
            after_directive(facts)
        } else {
            (Phase::Over, Action::Fail)
        },
        Phase::Claim => if ok {
            (Phase::Render, Action::Render)
        } else {
            (Phase::Over, Action::Fail)
        },
        Phase::Render => if ok {
            (Phase::Over, Action::Finish)
        } else if facts.dry_run {
            (Phase::Over, Action::Fail)
        } else {
            (Phase::Unassign, Action::Unassign)
        },
        Phase::Unassign => (Phase::Over, Action::Fail),
        Phase::Over => (Phase::Over, Action::Fail),
    }
}

fn past_directive(facts: TaskFacts) -> (r: (Phase, Action))
    ensures
        r == after_directive(facts),
{
    if facts.dry_run {
        (Phase::Render, Action::Render)
    } else {
        (Phase::Claim, Action::Claim)
    }
}

fn past_root(facts: TaskFacts) -> (r: (Phase, Action))
    ensures
        r == after_root(facts),
{
    if facts.directive_given {
        past_directive(facts)
    } else {
        (Phase::Directive, Action::ReadDirective)
    }
}

/// Begins to resolve a task.
pub fn start(facts: TaskFacts) -> (r: (TaskFlow, Action))
    ensures
        r.0.facts == facts,
        (r.0.phase, r.1) == first(facts),
{
    let (phase, action) = if facts.remembered {
        past_root(facts)
    } else {
        (Phase::Discover, Action::Discover)
    };
    (TaskFlow { facts, phase }, action)
}

impl TaskFlow {
    /// Takes whether the last step succeeded and gives the next one.
    pub fn step(self, ok: bool) -> (r: (TaskFlow, Action))
        ensures
            r.0.facts == self.facts,
            (r.0.phase, r.1) == next(self.facts, self.phase, ok),
    {
        let facts = self.facts;
        let (phase, action) = match self.phase {
            Phase::Discover => if ok {
                past_root(facts)
            } else {
                (Phase::Over, Action::Fail)
            },
            Phase::Directive => if ok {
                past_directive(facts)
            } else {
                (Phase::Over, Action::Fail)
            },
            Phase::Claim => if ok {
                (Phase::Render, Action::Render)
            } else {
                (Phase::Over, Action::Fail)
            },
            Phase::Render => if ok {
                (Phase::Over, Action::Finish)
            } else if facts.dry_run {
                (Phase::Over, Action::Fail)
            } else {
                (Phase::Unassign, Action::Unassign)
            },
            Phase::Unassign => (Phase::Over, Action::Fail),
            Phase::Over => (Phase::Over, Action::Fail),
        };
        (TaskFlow { facts, phase }, action)
    }
}

/// Only looking at a task claims nothing, and gives nothing back.
pub proof fn dry_runs_claim_nothing(facts: TaskFacts, phase: Phase, ok: bool)
    requires
        facts.dry_run,
    ensures
        first(facts).1 != Action::Claim,
        next(facts, phase, ok).1 != Action::Claim,
        next(facts, phase, ok).1 != Action::Unassign,
{
}

/// A claim is given back exactly if the prompt could not be put together after
/// it.
pub proof fn failed_claims_are_given_back(facts: TaskFacts, phase: Phase, ok: bool)
    ensures
        next(facts, phase, ok).1 == Action::Unassign <==> phase == Phase::Render && !ok
            && !facts.dry_run,
        phase == Phase::Claim && ok ==> next(facts, phase, ok).0 == Phase::Render,
{
}

/// The resolving of a task: where it stands after the given answers, and the steps that
/// it asked for.
pub open spec fn history(facts: TaskFacts, answers: Seq<bool>) -> (Phase, Seq<Action>)
    decreases answers.len(),
{
    if answers.len() == 0 {
        (first(facts).0, seq![first(facts).1])
    } else {
        let (phase, actions) = history(facts, answers.drop_last());
        let (then, action) = next(facts, phase, answers.last());
        (then, actions.push(action))
    }
}

/// The step that is to be answered: the last one asked for.
pub open spec fn asked(facts: TaskFacts, answers: Seq<bool>) -> Action {
    history(facts, answers).1.last()
}

spec fn fits(phase: Phase, action: Action) -> bool {
    match phase {
        Phase::Discover => action == Action::Discover,
        Phase::Directive => action == Action::ReadDirective,
        Phase::Claim => action == Action::Claim,
        Phase::Render => action == Action::Render,
        Phase::Unassign => action == Action::Unassign,
        Phase::Over => action == Action::Finish || action == Action::Fail,
    }
}

proof fn phase_fits(facts: TaskFacts, answers: Seq<bool>)
    ensures
        fits(history(facts, answers).0, asked(facts, answers)),
    decreases answers.len(),
{
    if answers.len() > 0 {
        phase_fits(facts, answers.drop_last());
    }
}

/// A task is looked for unless it is remembered where it is; its directive is read unless
/// it was given; it is claimed unless it is only looked at; then its prompt is put
/// together, and that is all. What fails ends it, and a claim is given back first.
pub proof fn tasks_are_resolved_step_by_step(facts: TaskFacts, answers: Seq<bool>, ok: bool)
    ensures
        ({
            let start = asked(facts, Seq::empty());
            let at = asked(facts, answers);
            let then = asked(facts, answers.push(ok));
            &&& !facts.remembered ==> start == Action::Discover
            &&& facts.remembered && !facts.directive_given ==> start == Action::ReadDirective
            &&& facts.remembered && facts.directive_given && !facts.dry_run ==> start
                == Action::Claim
            &&& facts.remembered && facts.directive_given && facts.dry_run ==> start
                == Action::Render
            &&& at == Action::Discover && ok && !facts.directive_given ==> then
                == Action::ReadDirective
            &&& ok && (at == Action::ReadDirective || (at == Action::Discover
                && facts.directive_given)) ==> then == if facts.dry_run {
                Action::Render
            } else {
                Action::Claim
            }
            &&& at == Action::Claim && ok ==> then == Action::Render
            &&& then == Action::Finish <==> at == Action::Render && ok
            &&& then == Action::Unassign <==> at == Action::Render && !ok && !facts.dry_run
            &&& !ok && (at == Action::Discover || at == Action::ReadDirective || at
                == Action::Claim || (at == Action::Render && facts.dry_run)) ==> then
                == Action::Fail
            &&& at == Action::Unassign ==> then == Action::Fail
        }),
{
    phase_fits(facts, answers);
    assert(answers.push(ok).drop_last() =~= answers);
}

/// A claim is given back exactly where the dispatch has one, where its knowledge base can
/// be found, and where no other dispatch of the task is at work or may be: in the
/// knowledge base of the record if it names one.
pub proof fn unshared_claims_are_given_back(has_slug: bool, siblings: Siblings, kb_recorded: bool)
    ensures
        ({
            let plan = release_plan(has_slug, siblings, kb_recorded);
            let free = siblings == Siblings::NotAsked || siblings == (Siblings::Known {
                live: false,
            });
            &&& plan == ReleasePlan::Release <==> has_slug && free && kb_recorded
            &&& plan == ReleasePlan::FindAndRelease <==> has_slug && free && !kb_recorded
            &&& plan == ReleasePlan::Keep <==> !has_slug || !free
        }),
{
}

/// What a task comes to, once its parts are known.
pub fn resolved(
    slug: &str,
    prompt: String,
    directive: Directive,
    kb_root: &str,
    unix_ms: i64,
    pid: u32,
    seq: u32,
) -> (r: ResolvedInput)
    ensures
        r.system_prompt@ == prompt@,
        r.directive == directive,
        strmap::opt_view(r.task_slug) == Some(slug@),
        r.branch@ == dispatch::sanitized(slug@),
        r.dispatch_id@ == dispatch::dispatch_id(
            dispatch::sanitized(slug@),
            directive,
            unix_ms as int,
            dispatch::id_suffix(pid, seq) as nat,
        ),
        r.env_overrides@ == Map::<Seq<char>, Seq<char>>::empty().insert(
            "GITKB_WORKSPACE"@,
            dispatch::sanitized(slug@),
        ).insert("GITKB_ROOT"@, kb_root@),
        strmap::opt_view(r.kb_root) == Some(kb_root@),
        !r.is_template,
        r.template_body is None,
        r.max_turns is None,
        r.worktree_policy is None,
{
    let branch = derive_branch(slug);
    let dispatch_id = build_dispatch_id(branch.as_str(), directive, unix_ms, pid, seq);
    let mut env = StrMap::new();
    env.insert("GITKB_WORKSPACE", branch.as_str());
    env.insert("GITKB_ROOT", kb_root);
    ResolvedInput {
        system_prompt: prompt,
        directive,
        task_slug: Some(slug.to_owned()),
        branch,
        dispatch_id,
        env_overrides: env,
        kb_root: Some(kb_root.to_owned()),
        is_template: false,
        template_body: None,
        max_turns: None,
        worktree_policy: None,
    }
}

/// What is known of the other dispatches of a task.
#[derive(Clone, Copy, Debug, PartialEq, Eq, Structural)]
pub enum Siblings {
    /// They were not looked for.
    NotAsked,
    /// Whether one of them is still at work.
    Known { live: bool },
    Unknown,
}

/// What is done with a claim when a dispatch is cleared away.
#[derive(Clone, Copy, Debug, PartialEq, Eq, Structural)]
pub enum ReleasePlan {
    /// Nothing: there is no claim, or another dispatch still has it.
    Keep,
    /// Give it back in the knowledge base of the record.
    Release,
    /// Look for the knowledge base first.
    FindAndRelease,
}

/// A claim is given back only if no other dispatch of the task can have it.
pub open spec fn release_plan(has_slug: bool, siblings: Siblings, kb_recorded: bool) -> ReleasePlan {
    if !has_slug || siblings == (Siblings::Known { live: true }) || siblings == Siblings::Unknown {
        ReleasePlan::Keep
    } else if kb_recorded {
        ReleasePlan::Release
    } else {
        ReleasePlan::FindAndRelease
    }
}

pub fn plan_release(record: &DispatchRecord, siblings: Siblings) -> (r: ReleasePlan)
    ensures
        r == release_plan(record.task_slug is Some, siblings, record.kb_root is Some),
{
    if record.task_slug.is_none() || siblings == (Siblings::Known { live: true }) || siblings
        == Siblings::Unknown {
        ReleasePlan::Keep
    } else if record.kb_root.is_some() {
        ReleasePlan::Release
    } else {
        ReleasePlan::FindAndRelease
    }
}

/// A claim that another dispatch may still need is never given back.
pub proof fn shared_claims_are_kept(has_slug: bool, kb_recorded: bool)
    ensures
        release_plan(has_slug, Siblings::Known { live: true }, kb_recorded) == ReleasePlan::Keep,
        release_plan(has_slug, Siblings::Unknown, kb_recorded) == ReleasePlan::Keep,
{
}

/// A task is in the primary knowledge base if it is there at all, else in the first of the
/// projects that has it.
pub proof fn tasks_are_found_in_order(primary: Seq<char>, primary_hit: bool, probes: Seq<Probe>)
    ensures
        primary_hit ==> kb_of(primary, primary_hit, probes) == Some(primary),
        !primary_hit ==> match kb_of(primary, primary_hit, probes) {
            Some(root) => exists|i: int|
                0 <= i < probes.len() && (#[trigger] probes[i]).hit && probes[i].path@ == root
                    && forall|j: int| 0 <= j < i ==> !(#[trigger] probes[j]).hit,
            None => forall|j: int| 0 <= j < probes.len() ==> !(#[trigger] probes[j]).hit,
        },
{
    hits_are_found_in_order(probes, 0);
}

proof fn hits_are_found_in_order(probes: Seq<Probe>, from: int)
    requires
        0 <= from <= probes.len(),
    ensures
        match first_hit(probes, from) {
            Some(root) => exists|i: int|
                from <= i < probes.len() && (#[trigger] probes[i]).hit && probes[i].path@ == root
                    && forall|j: int| from <= j < i ==> !(#[trigger] probes[j]).hit,
            None => forall|j: int| from <= j < probes.len() ==> !(#[trigger] probes[j]).hit,
        },
    decreases probes.len() - from,
{
    if from < probes.len() {
        hits_are_found_in_order(probes, from + 1);
        if probes[from].hit {
            assert(probes[from].path@ == probes[from].path@);
        } else if first_hit(probes, from + 1) is Some {
            let root = first_hit(probes, from + 1)->0;
            let i = choose|i: int|
                from + 1 <= i < probes.len() && (#[trigger] probes[i]).hit && probes[i].path@
                    == root && forall|j: int| from + 1 <= j < i ==> !(#[trigger] probes[j]).hit;
            assert(probes[i].hit);
        }
    }
}

/// A project is searched exactly where its entry is a path, or names one, that stays below
/// the workspace.
pub proof fn projects_below_are_searched(
    entries: Seq<(Option<Seq<char>>, Option<Seq<char>>)>,
    n: int,
    p: Seq<char>,
)
    requires
        0 <= n <= entries.len(),
    ensures
        safe_paths(entries, n).contains(p) <==> paths::stays_below(p) && exists|i: int|
            0 <= i < n && ((#[trigger] entries[i]).0 == Some(p) || (entries[i].0 is None
                && entries[i].1 == Some(p))),
    decreases n,
{
    if n > 0 {
        projects_below_are_searched(entries, n - 1, p);
        let all = safe_paths(entries, n);
        let before = safe_paths(entries, n - 1);
        if before.contains(p) {
            let k = choose|k: int| 0 <= k < before.len() && before[k] == p;
            assert(all[k] == p);
        }
        if all.contains(p) && !before.contains(p) {
            let k = choose|k: int| 0 <= k < all.len() && all[k] == p;
            if k < before.len() {
                assert(before[k] == p);
            }
            assert(entries[n - 1].0 == Some(p) || (entries[n - 1].0 is None && entries[n - 1].1
                == Some(p)));
        }
        if paths::stays_below(p) && exists|i: int|
            0 <= i < n && ((#[trigger] entries[i]).0 == Some(p) || (entries[i].0 is None
                && entries[i].1 == Some(p))) {
            let i = choose|i: int|
                0 <= i < n && ((#[trigger] entries[i]).0 == Some(p) || (entries[i].0 is None
                    && entries[i].1 == Some(p)));
            if i == n - 1 {
                assert(all[all.len() - 1] == p);
            }
        }
    }
}

/// The directive of a task is the one that it names, or the first of those that it lists,
/// and has to be one that is known. A task that names none, or cannot be read, has none.
pub proof fn tasks_name_their_directive(f: DirectiveView, slug: Seq<char>)
    ensures
        ({
            let d = task_directive(f, slug);
            let named = match f {
                DirectiveView::One(s) => Some(s),
                DirectiveView::Several(Some(s)) => Some(s),
                _ => None,
            };
            &&& d is Ok <==> named is Some && Directive::named(named->0) is Some
            &&& d is Ok ==> Some(d->Ok_0) == Directive::named(named->0)
            &&& f matches DirectiveView::Unreadable(e) ==> d == Err::<Directive, Seq<char>>(e)
        }),
{
}

/// A directive is known by its exact name, and what is no such name is told.
pub proof fn directives_are_known_by_name(d: Directive, s: Seq<char>)
    ensures
        directive_named(d.name()) == Ok::<Directive, Seq<char>>(d),
        directive_named(s) matches Ok(found) ==> found.name() == s,
        directive_named(s) matches Err(e) ==> e == "unknown directive '"@ + s + "'"@,
{
    d.parse_undoes_as_str();
}

/// A task that someone has already is told so; any other failure to claim it is told
/// as such. What the tool said stands below, and the task is named.
pub proof fn claims_fail_for_a_reason(slug: Seq<char>, stderr: Seq<char>)
    ensures
        text::occurs(stderr, "already assigned"@) || text::occurs(stderr, "already claimed"@)
            ==> text::starts(
            claim_error(slug, stderr),
            "task "@ + slug + " is already claimed"@,
        ),
        !text::occurs(stderr, "already assigned"@) && !text::occurs(stderr, "already claimed"@)
            ==> claim_error(slug, stderr) == "failed to claim task "@ + slug + "\n"@
            + text::trimmed(stderr),
        text::ends(claim_error(slug, stderr), text::trimmed(stderr)),
{
    reveal_strlit(" is already claimed");
    reveal_strlit(" is already claimed; use `atc status` to check");
    let all = claim_error(slug, stderr);
    let end = text::trimmed(stderr);
    assert(all.subrange(all.len() - end.len(), all.len() as int) =~= end);
    if text::occurs(stderr, "already assigned"@) || text::occurs(stderr, "already claimed"@) {
        let head = "task "@ + slug + " is already claimed"@;
        assert(all.subrange(0, head.len() as int) =~= head);
    }
}

} // verus!
