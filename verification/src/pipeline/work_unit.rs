//! Which unit of work a dispatch belongs to.

use vstd::prelude::*;
use crate::dispatch::list_contains;
use crate::pipeline::inputs::copy_list;
use crate::strmap::{self, copy_opt, StrMap};
use crate::text::{self, concat, push_str, write_hex};
use crate::types::{Timestamp, WorkUnit, WorkUnitStatus};

verus! {

/// The task a work unit is looked up by: the resolved one, else the parameter.
pub open spec fn effective_task(
    task: Option<Seq<char>>,
    params: Map<Seq<char>, Seq<char>>,
) -> Option<Seq<char>> {
    match task {
        Some(t) => Some(t),
        None => strmap::value(params, "task"@),
    }
}

pub fn work_unit_task(task: &Option<String>, params: &StrMap) -> (r: Option<String>)
    ensures
        strmap::opt_view(r) == effective_task(strmap::opt_view(*task), params@),
{
    match task {
        Some(t) => Some(t.clone()),
        None => params.get("task"),
    }
}

/// Which answer the lookup waits for.
#[derive(Clone, Copy, Debug, PartialEq, Eq, Structural)]
pub enum Lookup {
    ByTask,
    ByBranch,
    Promote,
    Insert,
    AgainByTask,
    AgainByBranch,
    Over,
}

/// What a query brought.
#[derive(Clone, Copy, Debug, PartialEq, Eq, Structural)]
pub enum Answer {
    /// An active unit, and whether it has a task.
    Found { has_task: bool },
    NotFound,
    /// The update or insertion was made.
    Stored,
    Failed,
}

#[derive(Clone, Copy, Debug, PartialEq, Eq, Structural)]
pub enum Query {
    FindByTask,
    FindByBranch,
    /// Give the unit that was found the task of the dispatch, and use it.
    SetTask,
    InsertNew,
    /// Use the unit that was found last.
    UseFound,
    /// Use the unit that was to be inserted.
    UseNew,
    GiveUp,
}

pub open spec fn lookup_begin(has_task: bool) -> (Lookup, Query) {
    if has_task {
        (Lookup::ByTask, Query::FindByTask)
    } else {
        (Lookup::ByBranch, Query::FindByBranch)
    }
}

/// Task before branch; only when both find nothing is a unit inserted, and then
/// looked up again, since another dispatch may have inserted one first.
pub open spec fn lookup_next(state: Lookup, has_task: bool, answer: Answer) -> (Lookup, Query) {
    if answer == Answer::Failed {
        (Lookup::Over, Query::GiveUp)
    } else {
        match state {
            Lookup::ByTask => if answer is Found {
                (Lookup::Over, Query::UseFound)
            } else {
                (Lookup::ByBranch, Query::FindByBranch)
            },
            Lookup::ByBranch => match answer {
                Answer::Found { has_task: unit_has_task } => if has_task && !unit_has_task {
                    (Lookup::Promote, Query::SetTask)
                } else {
                    (Lookup::Over, Query::UseFound)
                },
                _ => (Lookup::Insert, Query::InsertNew),
            },
            Lookup::Promote => (Lookup::Over, Query::UseFound),
            Lookup::Insert => if has_task {
                (Lookup::AgainByTask, Query::FindByTask)
            } else {
                (Lookup::AgainByBranch, Query::FindByBranch)
            },
            Lookup::AgainByTask => if answer is Found {
                (Lookup::Over, Query::UseFound)
            } else {
                (Lookup::AgainByBranch, Query::FindByBranch)
            },
            Lookup::AgainByBranch => if answer is Found {
                (Lookup::Over, Query::UseFound)
            } else {
                (Lookup::Over, Query::UseNew)
            },
            Lookup::Over => (Lookup::Over, Query::GiveUp),
        }
    }
}

pub fn resolve_work_unit_start(has_task: bool) -> (r: (Lookup, Query))
    ensures
        r == lookup_begin(has_task),
{
    if has_task {
        (Lookup::ByTask, Query::FindByTask)
    } else {
        (Lookup::ByBranch, Query::FindByBranch)
    }
}

/// Resolve or create a work unit, one query at a time.
pub fn resolve_work_unit(state: Lookup, has_task: bool, answer: Answer) -> (r: (Lookup, Query))
    ensures
        r == lookup_next(state, has_task, answer),
{
    let found = matches!(answer, Answer::Found { .. });
    if matches!(answer, Answer::Failed) {
        return (Lookup::Over, Query::GiveUp);
    }
    match state {
        Lookup::ByTask => if found {
            (Lookup::Over, Query::UseFound)
        } else {
            (Lookup::ByBranch, Query::FindByBranch)
        },
        Lookup::ByBranch => match answer {
            Answer::Found { has_task: unit_has_task } => if has_task && !unit_has_task {
                (Lookup::Promote, Query::SetTask)
            } else {
                (Lookup::Over, Query::UseFound)
            },
            _ => (Lookup::Insert, Query::InsertNew),
        },
        Lookup::Promote => (Lookup::Over, Query::UseFound),
        Lookup::Insert => if has_task {
            (Lookup::AgainByTask, Query::FindByTask)
        } else {
            (Lookup::AgainByBranch, Query::FindByBranch)
        },
        Lookup::AgainByTask => if found {
            (Lookup::Over, Query::UseFound)
        } else {
            (Lookup::AgainByBranch, Query::FindByBranch)
        },
        Lookup::AgainByBranch => if found {
            (Lookup::Over, Query::UseFound)
        } else {
            (Lookup::Over, Query::UseNew)
        },
        Lookup::Over => (Lookup::Over, Query::GiveUp),
    }
}

/// A unit is inserted only where the branch has none, and a task is looked for
/// only where there is one.
pub proof fn insertion_is_last_resort(state: Lookup, has_task: bool, answer: Answer)
    ensures
        lookup_next(state, has_task, answer).1 == Query::InsertNew ==> state == Lookup::ByBranch
            && (answer == Answer::NotFound || answer == Answer::Stored),
        lookup_next(state, has_task, answer).1 == Query::FindByTask ==> has_task,
        lookup_next(state, has_task, answer).1 == Query::SetTask ==> has_task && answer
            == (Answer::Found { has_task: false }),
{
}

/// The lookup of a unit: where it stands after the given answers, and the queries that it
/// made.
pub open spec fn history(has_task: bool, answers: Seq<Answer>) -> (Lookup, Seq<Query>)
    decreases answers.len(),
{
    if answers.len() == 0 {
        (lookup_begin(has_task).0, seq![lookup_begin(has_task).1])
    } else {
        let (state, queries) = history(has_task, answers.drop_last());
        let (then, query) = lookup_next(state, has_task, answers.last());
        (then, queries.push(query))
    }
}

/// The query that is to be answered.
pub open spec fn asked(has_task: bool, answers: Seq<Answer>) -> Query {
    history(has_task, answers).1.last()
}

/// A unit was to be inserted.
pub open spec fn inserted(has_task: bool, answers: Seq<Answer>) -> bool {
    history(has_task, answers).1.contains(Query::InsertNew)
}

spec fn again(state: Lookup) -> bool {
    state == Lookup::Insert || state == Lookup::AgainByTask || state == Lookup::AgainByBranch
}

spec fn fits(state: Lookup, has_task: bool, query: Query) -> bool {
    match state {
        Lookup::ByTask => has_task && query == Query::FindByTask,
        Lookup::ByBranch => query == Query::FindByBranch,
        Lookup::Promote => query == Query::SetTask,
        Lookup::Insert => query == Query::InsertNew,
        Lookup::AgainByTask => query == Query::FindByTask,
        Lookup::AgainByBranch => query == Query::FindByBranch,
        Lookup::Over => query == Query::UseFound || query == Query::UseNew || query
            == Query::GiveUp,
    }
}

proof fn lookup_fits(has_task: bool, answers: Seq<Answer>)
    ensures
        ({
            let state = history(has_task, answers).0;
            &&& fits(state, has_task, asked(has_task, answers))
            &&& state != Lookup::Over ==> (again(state) <==> inserted(has_task, answers))
        }),
    decreases answers.len(),
{
    let all = history(has_task, answers).1;
    if answers.len() > 0 {
        let front = answers.drop_last();
        lookup_fits(has_task, front);
        let (state, queries) = history(has_task, front);
        let query = lookup_next(state, has_task, answers.last()).1;
        assert(all =~= queries.push(query));
        if queries.contains(Query::InsertNew) {
            let i = choose|i: int| 0 <= i < queries.len() && queries[i] == Query::InsertNew;
            assert(all[i] == Query::InsertNew);
        }
        if query == Query::InsertNew {
            assert(all[queries.len() as int] == Query::InsertNew);
        }
        if all.contains(Query::InsertNew) && query != Query::InsertNew {
            let i = choose|i: int| 0 <= i < all.len() && all[i] == Query::InsertNew;
            assert(queries[i] == Query::InsertNew);
        }
    } else {
        assert(all[0] == lookup_begin(has_task).1);
        if all.contains(Query::InsertNew) {
            let i = choose|i: int| 0 <= i < all.len() && all[i] == Query::InsertNew;
            assert(all[i] == all[0]);
        }
    }
}

/// A unit is looked for by its task if there is one, then by its branch. One that is found
/// is used; one of the branch that has no task gets that of the dispatch first. Where none
/// is found one is inserted and looked for once more in the same way, and used even if it
/// is not found. A query that fails gives up.
pub proof fn units_are_found_or_made(has_task: bool, answers: Seq<Answer>, answer: Answer)
    ensures
        ({
            let at = asked(has_task, answers);
            let then = asked(has_task, answers.push(answer));
            let made = inserted(has_task, answers);
            let lookup = at == Query::FindByTask || at == Query::FindByBranch;
            let first = if has_task {
                Query::FindByTask
            } else {
                Query::FindByBranch
            };
            &&& asked(has_task, Seq::empty()) == first
            &&& answer == Answer::Failed ==> then == Query::GiveUp
            &&& at == Query::FindByTask && answer is Found ==> then == Query::UseFound
            &&& at == Query::FindByTask && (answer == Answer::NotFound) ==> then
                == Query::FindByBranch
            &&& at == Query::FindByBranch && answer is Found && (made || !has_task
                || answer->has_task) ==> then == Query::UseFound
            &&& at == Query::FindByBranch && answer is Found && !made && has_task
                && !answer->has_task ==> then == Query::SetTask
            &&& at == Query::FindByBranch && answer == Answer::NotFound && !made ==> then
                == Query::InsertNew
            &&& at == Query::FindByBranch && answer == Answer::NotFound && made ==> then
                == Query::UseNew
            &&& at == Query::SetTask && answer == Answer::Stored ==> then == Query::UseFound
            &&& at == Query::InsertNew && answer == Answer::Stored ==> then == first
        }),
{
    lookup_fits(has_task, answers);
    assert(answers.push(answer).drop_last() =~= answers);
}

/// The unit that is inserted when none is found.
pub fn new_work_unit(
    id: String,
    task: &Option<String>,
    branch: &str,
    repos: &Vec<String>,
    now: Timestamp,
) -> (r: WorkUnit)
    ensures
        r.id@ == id@,
        r.task_slug == *task,
        strmap::opt_view(r.branch) == Some(branch@),
        text::views(r.repos@) == text::views(repos@),
        r.pr_urls@.len() == 0,
        r.status == WorkUnitStatus::Active,
        r.created_at == now,
        r.updated_at == now,
{
    WorkUnit {
        id,
        task_slug: copy_opt(task),
        branch: Some(branch.to_owned()),
        repos: copy_list(repos),
        pr_urls: Vec::new(),
        status: WorkUnitStatus::Active,
        created_at: now,
        updated_at: now,
    }
}

/// Those of `repos` that are not among `present`, in order.
pub open spec fn missing(repos: Seq<Seq<char>>, present: Seq<Seq<char>>) -> Seq<Seq<char>> {
    repos.filter(|r: Seq<char>| !present.contains(r))
}

/// The repositories to add to a work unit.
pub fn repos_to_add(repos: &Vec<String>, present: &Vec<String>) -> (r: Vec<String>)
    ensures
        text::views(r@) == missing(text::views(repos@), text::views(present@)),
{
    let ghost there = text::views(present@);
    let ghost all = text::views(repos@);
    let ghost pred = |r: Seq<char>| !there.contains(r);
    let mut out: Vec<String> = Vec::new();
    proof {
        reveal(Seq::filter);
        assert(all.take(0).filter(pred) =~= Seq::<Seq<char>>::empty());
        assert(text::views(out@) =~= Seq::<Seq<char>>::empty());
    }
    let mut i: usize = 0;
    while i < repos.len()
        invariant
            i <= repos.len(),
            there == text::views(present@),
            all == text::views(repos@),
            pred == (|r: Seq<char>| !there.contains(r)),
            text::views(out@) == all.take(i as int).filter(pred),
        decreases repos.len() - i,
    {
        proof {
            reveal(Seq::filter);
            assert(all.take(i + 1).drop_last() =~= all.take(i as int));
            assert(all.take(i + 1).last() == repos@[i as int]@);
        }
        if !list_contains(present, repos[i].as_str()) {
            let s = repos[i].clone();
            proof {
                text::views_push(out@, s);
            }
            out.push(s);
        }
        i += 1;
    }
    proof {
        assert(all.take(i as int) =~= all);
    }
    out
}

/// The number that tells apart units made within one millisecond.
pub open spec fn unit_mix(count: u64, pid: u32) -> u64 {
    (count.wrapping_mul(0x517cc1b727220a95u64) ^ (pid as u64)) & 0xFFFF_FFFFu64
}

/// Generate a ULID-like ID for work units: `wu-<ms, 13 hex>-<mix, 8 hex>`.
pub fn generate_work_unit_id(unix_ms: i64, count: u64, pid: u32) -> (r: String)
    ensures
        r@ == "wu-"@ + text::padded_left(text::numeral(unix_ms as u64 as nat, 16), '0', 13) + "-"@
            + text::padded_left(text::numeral(unit_mix(count, pid) as nat, 16), '0', 8),
{
    let mut id = concat("wu-", write_hex(unix_ms as u64, 13).as_str());
    push_str(&mut id, "-");
    let mix: u64 = (count.wrapping_mul(0x517cc1b727220a95u64) ^ (pid as u64)) & 0xFFFF_FFFFu64;
    push_str(&mut id, write_hex(mix, 8).as_str());
    id
}

/// A unit is looked up by the task that was resolved, else by the one that is given.
pub proof fn resolved_tasks_come_first(task: Seq<char>, params: Map<Seq<char>, Seq<char>>)
    ensures
        effective_task(Some(task), params) == Some(task),
        params.dom().contains("task"@) ==> effective_task(None, params) == Some(params["task"@]),
        !params.dom().contains("task"@) ==> effective_task(None, params) is None,
{
}

/// What is added to a unit are the repositories that it lacks, each of them.
pub proof fn only_missing_repositories_are_added(
    repos: Seq<Seq<char>>,
    present: Seq<Seq<char>>,
    r: Seq<char>,
)
    ensures
        missing(repos, present).contains(r) <==> repos.contains(r) && !present.contains(r),
{
    let keep = |r: Seq<char>| !present.contains(r);
    let kept = repos.filter(keep);
    if kept.contains(r) {
        repos.lemma_filter_contains_rev(keep, r);
        let i = choose|i: int| 0 <= i < kept.len() && kept[i] == r;
        repos.lemma_filter_pred(keep, i);
    }
    if repos.contains(r) && keep(r) {
        let i = choose|i: int| 0 <= i < repos.len() && repos[i] == r;
        repos.lemma_filter_contains(keep, i);
    }
}

} // verus!
