//! Which sessions are listed, and how they are grouped.

use vstd::prelude::*;
use crate::status::{self, is_shown_by_default};
use crate::strmap::{self, copy_opt};
use crate::text::{self, concat, contains, join, push_str, same, to_lower, trim};
use crate::times;
use crate::types::{DispatchRecord, Status, WorkUnit};

verus! {

/// What sessions are grouped by.
#[derive(Clone, Copy, Debug, PartialEq, Eq, Structural)]
pub enum SessionGroupBy {
    Task,
    WorkUnit,
    Branch,
    Provider,
    Status,
    Ungrouped,
}

impl SessionGroupBy {
    pub open spec fn name(self) -> Seq<char> {
        match self {
            SessionGroupBy::Task => "task"@,
            SessionGroupBy::WorkUnit => "work-unit"@,
            SessionGroupBy::Branch => "branch"@,
            SessionGroupBy::Provider => "provider"@,
            SessionGroupBy::Status => "status"@,
            SessionGroupBy::Ungrouped => "none"@,
        }
    }

    pub fn label(self) -> (r: &'static str)
        ensures
            r@ == self.name(),
    {
        match self {
            SessionGroupBy::Task => "task",
            SessionGroupBy::WorkUnit => "work-unit",
            SessionGroupBy::Branch => "branch",
            SessionGroupBy::Provider => "provider",
            SessionGroupBy::Status => "status",
            SessionGroupBy::Ungrouped => "none",
        }
    }

    /// The grouping that follows this one.
    pub open spec fn successor(self) -> SessionGroupBy {
        match self {
            SessionGroupBy::Ungrouped => SessionGroupBy::Task,
            SessionGroupBy::Task => SessionGroupBy::WorkUnit,
            SessionGroupBy::WorkUnit => SessionGroupBy::Branch,
            SessionGroupBy::Branch => SessionGroupBy::Provider,
            SessionGroupBy::Provider => SessionGroupBy::Status,
            SessionGroupBy::Status => SessionGroupBy::Ungrouped,
        }
    }

    pub fn next(self) -> (r: SessionGroupBy)
        ensures
            r == self.successor(),
    {
        match self {
            SessionGroupBy::Ungrouped => SessionGroupBy::Task,
            SessionGroupBy::Task => SessionGroupBy::WorkUnit,
            SessionGroupBy::WorkUnit => SessionGroupBy::Branch,
            SessionGroupBy::Branch => SessionGroupBy::Provider,
            SessionGroupBy::Provider => SessionGroupBy::Status,
            SessionGroupBy::Status => SessionGroupBy::Ungrouped,
        }
    }
}

/// Six steps lead through all groupings and back.
pub proof fn groupings_form_a_cycle(g: SessionGroupBy)
    ensures
        g.successor().successor().successor().successor().successor().successor() == g,
        g.successor() != g,
        g.successor().successor() != g,
        g.successor().successor().successor() != g,
{
}

/// Options of the `sessions` command.
pub struct SessionsOpts {
    pub task: Option<String>,
    pub work_unit: Option<String>,
    pub branch: Option<String>,
    pub provider: Option<String>,
    pub status: Option<String>,
    pub search: Option<String>,
    pub group: SessionGroupBy,
    pub all: bool,
    pub poll_interval: Option<String>,
    pub once: bool,
    pub json: bool,
}

/// What a session must meet to be listed.
pub struct SessionFilter {
    pub task: Option<String>,
    pub work_unit: Option<String>,
    pub branch: Option<String>,
    pub provider: Option<String>,
    pub status: Option<Status>,
    pub search: Option<String>,
    pub all: bool,
}

impl Default for SessionFilter {
    fn default() -> (r: SessionFilter)
        ensures
            r.task is None && r.work_unit is None && r.branch is None && r.provider is None
                && r.status is None && r.search is None && !r.all,
    {
        SessionFilter {
            task: None,
            work_unit: None,
            branch: None,
            provider: None,
            status: None,
            search: None,
            all: false,
        }
    }
}

/// A status by its exact name.
pub open spec fn status_named(s: Seq<char>) -> Result<Status, Seq<char>> {
    match Status::named(s) {
        Some(status) => Ok(status),
        None => Err("unknown status '"@ + s + "'"@),
    }
}

/// Reads a status by its exact name.
pub fn parse_status(s: &str) -> (r: Result<Status, String>)
    ensures
        times::result_view(r) == status_named(s@),
{
    match Status::parse(s) {
        Some(status) => Ok(status),
        None => {
            let mut e = concat("unknown status '", s);
            push_str(&mut e, "'");
            Err(e)
        },
    }
}

/// The text, unless it is blank.
pub open spec fn unless_blank(o: Option<Seq<char>>) -> Option<Seq<char>> {
    match o {
        Some(s) => if text::trimmed(s).len() == 0 {
            None
        } else {
            Some(s)
        },
        None => None,
    }
}

impl SessionFilter {
    /// The filter that the options ask for, given the status they name.
    pub open spec fn is_from(self, opts: SessionsOpts, status: Option<Status>) -> bool {
        &&& strmap::opt_view(self.task) == strmap::opt_view(opts.task)
        &&& strmap::opt_view(self.work_unit) == strmap::opt_view(opts.work_unit)
        &&& strmap::opt_view(self.branch) == strmap::opt_view(opts.branch)
        &&& strmap::opt_view(self.provider) == strmap::opt_view(opts.provider)
        &&& self.status == status
        &&& strmap::opt_view(self.search) == unless_blank(strmap::opt_view(opts.search))
        &&& self.all == opts.all
    }

    pub fn from_opts(opts: &SessionsOpts) -> (r: Result<SessionFilter, String>)
        ensures
            match opts.status {
                None => r matches Ok(f) && f.is_from(*opts, None),
                Some(s) => match status_named(s@) {
                    Ok(status) => r matches Ok(f) && f.is_from(*opts, Some(status)),
                    Err(e) => r matches Err(m) && m@ == e,
                },
            },
    {
        let status: Option<Status> = match &opts.status {
            Some(s) => match parse_status(s.as_str()) {
                Ok(status) => Some(status),
                Err(e) => {
                    return Err(e);
                },
            },
            None => None,
        };
        let search = match &opts.search {
            Some(s) => if trim(s.as_str()).as_str().unicode_len() == 0 {
                None
            } else {
                Some(s.clone())
            },
            None => None,
        };
        Ok(
            SessionFilter {
                task: copy_opt(&opts.task),
                work_unit: copy_opt(&opts.work_unit),
                branch: copy_opt(&opts.branch),
                provider: copy_opt(&opts.provider),
                status,
                search,
                all: opts.all,
            },
        )
    }
}

/// The work unit with the given name; the last one if there are several.
pub open spec fn unit_by_id(units: Seq<WorkUnit>, id: Seq<char>) -> Option<WorkUnit>
    decreases units.len(),
{
    if units.len() == 0 {
        None
    } else if units.last().id@ == id {
        Some(units.last())
    } else {
        unit_by_id(units.drop_last(), id)
    }
}

fn find_unit<'a>(units: &'a Vec<WorkUnit>, id: &str) -> (r: Option<&'a WorkUnit>)
    ensures
        match unit_by_id(units@, id@) {
            Some(u) => r matches Some(v) && *v == u,
            None => r is None,
        },
{
    let mut i: usize = units.len();
    proof {
        assert(units@.take(i as int) =~= units@);
    }
    while i > 0
        invariant
            i <= units.len(),
            unit_by_id(units@, id@) == unit_by_id(units@.take(i as int), id@),
        decreases i,
    {
        proof {
            assert(units@.take(i as int).drop_last() =~= units@.take(i - 1));
            assert(units@.take(i as int).last() == units@[i - 1]);
        }
        i -= 1;
        if same(units[i].id.as_str(), id) {
            return Some(&units[i]);
        }
    }
    None
}

/// The task of a record: its own, or else that of its work unit.
pub open spec fn task_of(r: DispatchRecord, units: Seq<WorkUnit>) -> Option<Seq<char>> {
    match r.task_slug {
        Some(t) => Some(t@),
        None => match r.work_unit_id {
            Some(id) => match unit_by_id(units, id@) {
                Some(u) => strmap::opt_view(u.task_slug),
                None => None,
            },
            None => None,
        },
    }
}

pub fn task_slug_for_record(record: &DispatchRecord, units: &Vec<WorkUnit>) -> (r: Option<String>)
    ensures
        strmap::opt_view(r) == task_of(*record, units@),
{
    if let Some(t) = &record.task_slug {
        return Some(t.clone());
    }
    match &record.work_unit_id {
        Some(id) => match find_unit(units, id.as_str()) {
            Some(u) => copy_opt(&u.task_slug),
            None => None,
        },
        None => None,
    }
}

/// What a record is grouped under.
pub open spec fn group_of(
    r: DispatchRecord,
    units: Seq<WorkUnit>,
    group: SessionGroupBy,
) -> Seq<char> {
    match group {
        SessionGroupBy::Task => match task_of(r, units) {
            Some(t) => t,
            None => "(no task)"@,
        },
        SessionGroupBy::WorkUnit => match r.work_unit_id {
            Some(id) => id@,
            None => "(no work unit)"@,
        },
        SessionGroupBy::Branch => r.branch@,
        SessionGroupBy::Provider => r.agent_provider@,
        SessionGroupBy::Status => r.status.name(),
        SessionGroupBy::Ungrouped => "-"@,
    }
}

pub fn group_key(record: &DispatchRecord, units: &Vec<WorkUnit>, group: SessionGroupBy) -> (r:
    String)
    ensures
        r@ == group_of(*record, units@, group),
{
    match group {
        SessionGroupBy::Task => match task_slug_for_record(record, units) {
            Some(t) => t,
            None => "(no task)".to_owned(),
        },
        SessionGroupBy::WorkUnit => match &record.work_unit_id {
            Some(id) => id.clone(),
            None => "(no work unit)".to_owned(),
        },
        SessionGroupBy::Branch => record.branch.clone(),
        SessionGroupBy::Provider => record.agent_provider.clone(),
        SessionGroupBy::Status => record.status.as_str().to_owned(),
        SessionGroupBy::Ungrouped => "-".to_owned(),
    }
}

/// The one text, or none.
pub open spec fn one_or_none(o: Option<Seq<char>>) -> Seq<Seq<char>> {
    match o {
        Some(s) => seq![s],
        None => Seq::empty(),
    }
}

/// What a search looks through.
pub open spec fn searched(r: DispatchRecord, units: Seq<WorkUnit>) -> Seq<Seq<char>> {
    seq![
        r.id@,
        r.branch@,
        r.session@,
        r.agent_provider@,
        r.directive.name(),
        r.resolver@,
        r.worktree_path@,
        r.log_file@,
    ] + one_or_none(task_of(r, units)) + one_or_none(strmap::opt_view(r.work_unit_id))
        + one_or_none(strmap::opt_view(r.agent_session_id)) + one_or_none(
        strmap::opt_view(r.agent_transcript_cwd),
    ) + one_or_none(strmap::opt_view(r.resume_of_dispatch_id)) + text::views(r.pr_urls@)
}

/// The lower-case lines that a search looks through.
pub open spec fn haystack(r: DispatchRecord, units: Seq<WorkUnit>) -> Seq<char> {
    text::lowered(text::joined(searched(r, units), "\n"@))
}

fn push_opt(out: &mut Vec<String>, o: Option<String>)
    ensures
        text::views(final(out)@) == text::views(old(out)@) + one_or_none(strmap::opt_view(o)),
{
    match o {
        Some(s) => {
            proof {
                text::views_push(out@, s);
                assert(text::views(out@).push(s@) =~= text::views(out@) + seq![s@]);
            }
            out.push(s);
        },
        None => {
            proof {
                assert(text::views(out@) + Seq::<Seq<char>>::empty() =~= text::views(out@));
            }
        },
    }
}

pub fn search_haystack(record: &DispatchRecord, units: &Vec<WorkUnit>) -> (r: String)
    ensures
        r@ == haystack(*record, units@),
{
    let mut parts = vec![
        record.id.clone(),
        record.branch.clone(),
        record.session.clone(),
        record.agent_provider.clone(),
        record.directive.as_str().to_owned(),
        record.resolver.clone(),
        record.worktree_path.clone(),
        record.log_file.clone(),
    ];
    proof {
        assert(text::views(parts@) =~= seq![
            record.id@,
            record.branch@,
            record.session@,
            record.agent_provider@,
            record.directive.name(),
            record.resolver@,
            record.worktree_path@,
            record.log_file@,
        ]);
    }
    push_opt(&mut parts, task_slug_for_record(record, units));
    push_opt(&mut parts, copy_opt(&record.work_unit_id));
    push_opt(&mut parts, copy_opt(&record.agent_session_id));
    push_opt(&mut parts, copy_opt(&record.agent_transcript_cwd));
    push_opt(&mut parts, copy_opt(&record.resume_of_dispatch_id));
    let ghost head = text::views(parts@);
    let ghost urls = text::views(record.pr_urls@);
    let mut i: usize = 0;
    proof {
        assert(head + urls.take(0) =~= head);
    }
    while i < record.pr_urls.len()
        invariant
            i <= record.pr_urls.len(),
            urls == text::views(record.pr_urls@),
            text::views(parts@) == head + urls.take(i as int),
        decreases record.pr_urls.len() - i,
    {
        let url = record.pr_urls[i].clone();
        proof {
            text::views_push(parts@, url);
            assert(urls.take(i + 1) =~= urls.take(i as int).push(url@));
            assert(head + urls.take(i + 1) =~= (head + urls.take(i as int)).push(url@));
        }
        parts.push(url);
        i += 1;
    }
    proof {
        assert(urls.take(i as int) =~= urls);
        assert(text::views(parts@) =~= searched(*record, units@));
    }
    to_lower(join(&parts, "\n").as_str())
}

/// No demand, or one that is met.
pub open spec fn meets(demand: Option<Seq<char>>, actual: Option<Seq<char>>) -> bool {
    demand is Some ==> actual == demand
}

fn satisfies(demand: &Option<String>, actual: &Option<String>) -> (r: bool)
    ensures
        r == meets(strmap::opt_view(*demand), strmap::opt_view(*actual)),
{
    match demand {
        None => true,
        Some(d) => match actual {
            Some(a) => same(a.as_str(), d.as_str()),
            None => false,
        },
    }
}

/// The record is listed.
pub open spec fn accepted(r: DispatchRecord, units: Seq<WorkUnit>, f: SessionFilter) -> bool {
    &&& meets(strmap::opt_view(f.task), task_of(r, units))
    &&& meets(strmap::opt_view(f.work_unit), strmap::opt_view(r.work_unit_id))
    &&& meets(strmap::opt_view(f.branch), Some(r.branch@))
    &&& meets(strmap::opt_view(f.provider), Some(r.agent_provider@))
    &&& match f.status {
        Some(s) => r.status == s,
        None => f.all || status::shown_by_default(r.status),
    }
    &&& match f.search {
        Some(s) => text::occurs(haystack(r, units), text::lowered(s@)),
        None => true,
    }
}

pub fn record_matches_filter(
    record: &DispatchRecord,
    units: &Vec<WorkUnit>,
    filter: &SessionFilter,
) -> (r: bool)
    ensures
        r == accepted(*record, units@, *filter),
{
    if filter.task.is_some() && !satisfies(&filter.task, &task_slug_for_record(record, units)) {
        return false;
    }
    if !satisfies(&filter.work_unit, &record.work_unit_id) {
        return false;
    }
    if let Some(branch) = &filter.branch {
        if !same(record.branch.as_str(), branch.as_str()) {
            return false;
        }
    }
    if let Some(provider) = &filter.provider {
        if !same(record.agent_provider.as_str(), provider.as_str()) {
            return false;
        }
    }
    match filter.status {
        Some(s) => {
            if record.status != s {
                return false;
            }
        },
        None => {
            if !filter.all && !is_shown_by_default(record.status) {
                return false;
            }
        },
    }
    match &filter.search {
        Some(s) => contains(
            search_haystack(record, units).as_str(),
            to_lower(s.as_str()).as_str(),
        ),
        None => true,
    }
}

/// A record is listed exactly where it meets every demand of the filter: a task, which may
/// be that of its work unit, a work unit, a branch and a provider have to be the very ones,
/// a status has to be the one asked for, and a search has to be found in what the record
/// says, in whatever case. Where no status is asked for, records that are done, failed or
/// stopped are listed only if all are.
pub proof fn filters_are_exact(r: DispatchRecord, units: Seq<WorkUnit>, f: SessionFilter)
    ensures
        accepted(r, units, f) <==> {
            &&& f.task is Some ==> task_of(r, units) == Some(f.task->0@)
            &&& f.work_unit is Some ==> r.work_unit_id is Some && r.work_unit_id->0@
                == f.work_unit->0@
            &&& f.branch is Some ==> r.branch@ == f.branch->0@
            &&& f.provider is Some ==> r.agent_provider@ == f.provider->0@
            &&& f.status is Some ==> r.status == f.status->0
            &&& f.status is None && !f.all ==> r.status != Status::Done && r.status
                != Status::Failed && r.status != Status::Stopped
            &&& f.search is Some ==> text::occurs(haystack(r, units), text::lowered(f.search->0@))
        },
{
}

/// The task of a record is its own; only where it has none it is that of the last work
/// unit of the name it gives.
pub proof fn tasks_come_from_the_record_first(r: DispatchRecord, units: Seq<WorkUnit>)
    ensures
        r.task_slug is Some ==> task_of(r, units) == Some(r.task_slug->0@),
        r.task_slug is None && r.work_unit_id is None ==> task_of(r, units) is None,
        r.task_slug is None && r.work_unit_id is Some ==> match unit_by_id(
            units,
            r.work_unit_id->0@,
        ) {
            Some(u) => units.contains(u) && u.id@ == r.work_unit_id->0@ && task_of(r, units)
                == strmap::opt_view(u.task_slug),
            None => task_of(r, units) is None && forall|i: int|
                0 <= i < units.len() ==> (#[trigger] units[i]).id@ != r.work_unit_id->0@,
        },
    decreases units.len(),
{
    if r.task_slug is None && r.work_unit_id is Some && units.len() > 0 {
        let before = units.drop_last();
        let id = r.work_unit_id->0@;
        if units.last().id@ == id {
            assert(units[units.len() - 1] == units.last());
        } else {
            tasks_come_from_the_record_first(r, before);
            match unit_by_id(before, id) {
                Some(u) => {
                    let i = choose|i: int| 0 <= i < before.len() && before[i] == u;
                    assert(units[i] == u);
                },
                None => {
                    assert forall|i: int| 0 <= i < units.len() implies (#[trigger] units[i]).id@
                        != id by {
                        if i < before.len() {
                            assert(before[i] == units[i]);
                        }
                    }
                },
            }
        }
    }
}

/// A search finds what a record says anywhere: its name, branch, session, provider,
/// directive, resolver, places, task, work unit, the session of its agent, where it comes
/// from, and its pull requests.
pub proof fn searches_look_everywhere(r: DispatchRecord, units: Seq<WorkUnit>, said: Seq<char>)
    requires
        said == r.id@ || said == r.branch@ || said == r.session@ || said == r.agent_provider@
            || said == r.directive.name() || said == r.resolver@ || said == r.worktree_path@ || said
            == r.log_file@ || Some(said) == task_of(r, units) || Some(said) == strmap::opt_view(
            r.work_unit_id,
        ) || Some(said) == strmap::opt_view(r.agent_session_id) || Some(said) == strmap::opt_view(
            r.agent_transcript_cwd,
        ) || Some(said) == strmap::opt_view(r.resume_of_dispatch_id) || text::views(
            r.pr_urls@,
        ).contains(said),
    ensures
        text::occurs(haystack(r, units), text::lowered(said)),
{
    let a = seq![
        r.id@,
        r.branch@,
        r.session@,
        r.agent_provider@,
        r.directive.name(),
        r.resolver@,
        r.worktree_path@,
        r.log_file@,
    ];
    let b = one_or_none(task_of(r, units));
    let c = one_or_none(strmap::opt_view(r.work_unit_id));
    let d = one_or_none(strmap::opt_view(r.agent_session_id));
    let e = one_or_none(strmap::opt_view(r.agent_transcript_cwd));
    let f = one_or_none(strmap::opt_view(r.resume_of_dispatch_id));
    let g = text::views(r.pr_urls@);
    let all = searched(r, units);
    assert(all == a + b + c + d + e + f + g);
    assert(all.contains(said)) by {
        let n1 = a.len() as int;
        let n2 = n1 + b.len();
        let n3 = n2 + c.len();
        let n4 = n3 + d.len();
        let n5 = n4 + e.len();
        let n6 = n5 + f.len();
        assert(all[0] == a[0] && all[1] == a[1] && all[2] == a[2] && all[3] == a[3] && all[4]
            == a[4] && all[5] == a[5] && all[6] == a[6] && all[7] == a[7]);
        if Some(said) == task_of(r, units) {
            assert(all[n1] == said);
        }
        if Some(said) == strmap::opt_view(r.work_unit_id) {
            assert(all[n2] == said);
        }
        if Some(said) == strmap::opt_view(r.agent_session_id) {
            assert(all[n3] == said);
        }
        if Some(said) == strmap::opt_view(r.agent_transcript_cwd) {
            assert(all[n4] == said);
        }
        if Some(said) == strmap::opt_view(r.resume_of_dispatch_id) {
            assert(all[n5] == said);
        }
        if g.contains(said) {
            let k = choose|k: int| 0 <= k < g.len() && g[k] == said;
            assert(all[n6 + k] == said);
        }
    }
    let i = choose|i: int| 0 <= i < all.len() && all[i] == said;
    text::joined_holds_its_pieces(all, "\n"@, i);
    text::occurrences_survive_lowering(text::joined(all, "\n"@), said);
}

/// Each grouping puts a record under what it is named after.
pub proof fn groups_are_named_after_what_they_share(r: DispatchRecord, units: Seq<WorkUnit>)
    ensures
        task_of(r, units) matches Some(t) ==> group_of(r, units, SessionGroupBy::Task) == t,
        task_of(r, units) is None ==> group_of(r, units, SessionGroupBy::Task) == "(no task)"@,
        r.work_unit_id matches Some(id) ==> group_of(r, units, SessionGroupBy::WorkUnit) == id@,
        r.work_unit_id is None ==> group_of(r, units, SessionGroupBy::WorkUnit)
            == "(no work unit)"@,
        group_of(r, units, SessionGroupBy::Branch) == r.branch@,
        group_of(r, units, SessionGroupBy::Provider) == r.agent_provider@,
        group_of(r, units, SessionGroupBy::Status) == r.status.name(),
        group_of(r, units, SessionGroupBy::Ungrouped) == "-"@,
{
}

/// A filter asks for what the options say, and a search for blanks for nothing.
pub proof fn filters_follow_the_options(
    f: SessionFilter,
    opts: SessionsOpts,
    status: Option<Status>,
)
    requires
        f.is_from(opts, status),
    ensures
        f.status == status,
        f.all == opts.all,
        strmap::opt_view(f.task) == strmap::opt_view(opts.task),
        strmap::opt_view(f.work_unit) == strmap::opt_view(opts.work_unit),
        strmap::opt_view(f.branch) == strmap::opt_view(opts.branch),
        strmap::opt_view(f.provider) == strmap::opt_view(opts.provider),
        opts.search matches Some(s) ==> if text::trimmed(s@).len() == 0 {
            f.search is None
        } else {
            strmap::opt_view(f.search) == Some(s@)
        },
        opts.search is None ==> f.search is None,
{
}

/// A filter by status takes the exact name of one.
pub proof fn statuses_are_filtered_by_name(s: Status, said: Seq<char>)
    ensures
        status_named(s.name()) == Ok::<Status, Seq<char>>(s),
        status_named(said) matches Ok(found) ==> found.name() == said,
        status_named(said) matches Err(e) ==> e == "unknown status '"@ + said + "'"@,
{
    s.parse_undoes_as_str();
}

} // verus!
