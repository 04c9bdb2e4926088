//! The sessions as they are listed.

use vstd::prelude::*;
use crate::order::{self, sort_positions, Recent};
use crate::pipeline::inputs::copy_list;
use crate::pipeline::report::SCHEMA_VERSION;
use crate::sessions::actions::{self, action_state, SessionActionState};
use crate::sessions::filter::{
    self, group_key, record_matches_filter, task_slug_for_record, SessionFilter, SessionGroupBy,
};
use crate::status::{self, push_count, write_summary_line, StatusSummary};
use crate::strmap::{self, copy_opt};
use crate::text;
use crate::types::{Cost, DispatchRecord, Status, Timestamp, WorkUnit};

verus! {

/// A record, and whether its log file can be opened.
pub struct SessionSource {
    pub record: DispatchRecord,
    pub log_readable: bool,
}

/// One session in the list.
pub struct SessionRow {
    pub id: String,
    pub task_slug: Option<String>,
    pub work_unit_id: Option<String>,
    pub group_key: String,
    pub branch: String,
    pub provider: String,
    pub provider_session_id: Option<String>,
    pub transcript_cwd: Option<String>,
    pub resume_of_dispatch_id: Option<String>,
    pub status: Status,
    pub directive: String,
    pub resolver: String,
    pub session: String,
    pub worktree_path: String,
    pub log_file: Option<String>,
    pub pr_urls: Vec<String>,
    pub cost: Option<Cost>,
    pub num_turns: Option<u32>,
    pub duration_ms: Option<u64>,
    pub dispatched_at: Timestamp,
    pub updated_at: Timestamp,
    pub actions: SessionActionState,
}

/// The text, or nothing for an empty one.
pub open spec fn unless_empty(s: Seq<char>) -> Option<Seq<char>> {
    if s.len() == 0 {
        None
    } else {
        Some(s)
    }
}

pub fn path_to_nonempty_string(path: &str) -> (r: Option<String>)
    ensures
        strmap::opt_view(r) == unless_empty(path@),
{
    if path.unicode_len() == 0 {
        None
    } else {
        Some(path.to_owned())
    }
}

/// Two costs read the same.
pub open spec fn same_cost(a: Option<Cost>, b: Option<Cost>) -> bool {
    match (a, b) {
        (Some(x), Some(y)) => x.amount@ == y.amount@ && x.band == y.band,
        (None, None) => true,
        _ => false,
    }
}

pub fn copy_cost(cost: &Option<Cost>) -> (r: Option<Cost>)
    ensures
        same_cost(r, *cost),
{
    match cost {
        Some(c) => Some(Cost { amount: c.amount.clone(), band: c.band }),
        None => None,
    }
}

impl SessionRow {
    /// The row shows the record.
    pub open spec fn shows(
        self,
        s: SessionSource,
        units: Seq<WorkUnit>,
        group: SessionGroupBy,
    ) -> bool {
        let r = s.record;
        &&& self.id@ == r.id@
        &&& strmap::opt_view(self.task_slug) == filter::task_of(r, units)
        &&& strmap::opt_view(self.work_unit_id) == strmap::opt_view(r.work_unit_id)
        &&& self.group_key@ == filter::group_of(r, units, group)
        &&& self.branch@ == r.branch@
        &&& self.provider@ == r.agent_provider@
        &&& strmap::opt_view(self.provider_session_id) == strmap::opt_view(r.agent_session_id)
        &&& strmap::opt_view(self.transcript_cwd) == strmap::opt_view(r.agent_transcript_cwd)
        &&& strmap::opt_view(self.resume_of_dispatch_id) == strmap::opt_view(
            r.resume_of_dispatch_id,
        )
        &&& self.status == r.status
        &&& self.directive@ == r.directive.name()
        &&& self.resolver@ == r.resolver@
        &&& self.session@ == r.session@
        &&& self.worktree_path@ == r.worktree_path@
        &&& strmap::opt_view(self.log_file) == unless_empty(r.log_file@)
        &&& text::views(self.pr_urls@) == text::views(r.pr_urls@)
        &&& same_cost(self.cost, r.cost)
        &&& self.num_turns == r.num_turns
        &&& self.duration_ms == r.duration_ms
        &&& self.dispatched_at == r.dispatched_at
        &&& self.updated_at == r.updated_at
        &&& self.actions.is_of(r, s.log_readable)
    }

    pub open spec fn task_text(self) -> Seq<char> {
        match self.task_slug {
            Some(t) => t@,
            None => "(no task)"@,
        }
    }

    pub fn display_task(&self) -> (r: &str)
        ensures
            r@ == self.task_text(),
    {
        match &self.task_slug {
            Some(t) => t.as_str(),
            None => "(no task)",
        }
    }

    pub open spec fn work_unit_text(self) -> Seq<char> {
        match self.work_unit_id {
            Some(t) => t@,
            None => "-"@,
        }
    }

    pub fn display_work_unit(&self) -> (r: &str)
        ensures
            r@ == self.work_unit_text(),
    {
        match &self.work_unit_id {
            Some(t) => t.as_str(),
            None => "-",
        }
    }

    pub open spec fn provider_session_text(self) -> Seq<char> {
        match self.provider_session_id {
            Some(t) => t@,
            None => "-"@,
        }
    }

    pub fn display_provider_session(&self) -> (r: &str)
        ensures
            r@ == self.provider_session_text(),
    {
        match &self.provider_session_id {
            Some(t) => t.as_str(),
            None => "-",
        }
    }
}

pub fn row_from_record(
    source: &SessionSource,
    units: &Vec<WorkUnit>,
    group: SessionGroupBy,
) -> (row: SessionRow)
    ensures
        row.shows(*source, units@, group),
{
    let r = &source.record;
    SessionRow {
        id: r.id.clone(),
        task_slug: task_slug_for_record(r, units),
        work_unit_id: copy_opt(&r.work_unit_id),
        group_key: group_key(r, units, group),
        branch: r.branch.clone(),
        provider: r.agent_provider.clone(),
        provider_session_id: copy_opt(&r.agent_session_id),
        transcript_cwd: copy_opt(&r.agent_transcript_cwd),
        resume_of_dispatch_id: copy_opt(&r.resume_of_dispatch_id),
        status: r.status,
        directive: r.directive.as_str().to_owned(),
        resolver: r.resolver.clone(),
        session: r.session.clone(),
        worktree_path: r.worktree_path.clone(),
        log_file: path_to_nonempty_string(r.log_file.as_str()),
        pr_urls: copy_list(&r.pr_urls),
        cost: copy_cost(&r.cost),
        num_turns: r.num_turns,
        duration_ms: r.duration_ms,
        dispatched_at: r.dispatched_at,
        updated_at: r.updated_at,
        actions: action_state(r, source.log_readable),
    }
}

/// How many sessions have which status.
#[derive(Clone, Copy, Debug, PartialEq, Eq, Structural)]
pub struct SessionSummary {
    pub running: u32,
    pub done: u32,
    pub failed: u32,
    pub needs_human: u32,
    pub needs_review: u32,
    pub stopped: u32,
    pub retrying: u32,
    pub total: u32,
}

/// The statuses of the rows.
pub open spec fn row_statuses(rows: Seq<SessionRow>) -> Seq<Status> {
    rows.map_values(|r: SessionRow| r.status)
}

impl SessionSummary {
    pub open spec fn counts(self, rs: Seq<Status>) -> bool {
        (StatusSummary {
            running: self.running,
            done: self.done,
            failed: self.failed,
            needs_human: self.needs_human,
            needs_review: self.needs_review,
            stopped: self.stopped,
            retrying: self.retrying,
            total: self.total,
        }).counts(rs)
    }

    pub fn from_rows(rows: &Vec<SessionRow>) -> (r: SessionSummary)
        requires
            rows@.len() <= u32::MAX,
        ensures
            r.counts(row_statuses(rows@)),
    {
        let mut rs: Vec<Status> = Vec::new();
        let mut i: usize = 0;
        while i < rows.len()
            invariant
                i <= rows.len(),
                rs@ == row_statuses(rows@).take(i as int),
            decreases rows.len() - i,
        {
            rs.push(rows[i].status);
            i += 1;
            proof {
                assert(rs@ =~= row_statuses(rows@).take(i as int));
            }
        }
        proof {
            assert(rs@ =~= row_statuses(rows@));
        }
        let s = StatusSummary::from_statuses(&rs);
        SessionSummary {
            running: s.running,
            done: s.done,
            failed: s.failed,
            needs_human: s.needs_human,
            needs_review: s.needs_review,
            stopped: s.stopped,
            retrying: s.retrying,
            total: s.total,
        }
    }

    /// The summary in words, with the total cost as it is written.
    pub open spec fn in_words(self, cost: Seq<char>) -> Seq<char> {
        status::summary_line(
            status::count_part(self.running as nat, "running"@) + status::count_part(
                self.retrying as nat,
                "retrying"@,
            ) + status::count_part(self.needs_human as nat, "needs-human"@) + status::count_part(
                self.needs_review as nat,
                "needs-review"@,
            ) + status::count_part(self.done as nat, "done"@) + status::count_part(
                self.failed as nat,
                "failed"@,
            ) + status::count_part(self.stopped as nat, "stopped"@),
            "0 sessions"@,
            self.total as nat,
            cost,
        )
    }

    pub fn human(&self, cost: &str) -> (r: String)
        ensures
            r@ == self.in_words(cost@),
    {
        let mut parts: Vec<String> = Vec::new();
        proof {
            assert(text::views(parts@) =~= Seq::<Seq<char>>::empty());
            let first = status::count_part(self.running as nat, "running"@);
            assert(Seq::<Seq<char>>::empty() + first =~= first);
        }
        push_count(&mut parts, self.running, "running");
        push_count(&mut parts, self.retrying, "retrying");
        push_count(&mut parts, self.needs_human, "needs-human");
        push_count(&mut parts, self.needs_review, "needs-review");
        push_count(&mut parts, self.done, "done");
        push_count(&mut parts, self.failed, "failed");
        push_count(&mut parts, self.stopped, "stopped");
        write_summary_line(&parts, "0 sessions", self.total, cost)
    }
}

/// JSON envelope for `atc sessions --json`.
pub struct SessionsOutputV1<'a> {
    pub schema_version: u32,
    pub rows: &'a Vec<SessionRow>,
    pub work_units: &'a Vec<WorkUnit>,
    pub summary: SessionSummary,
    pub group: SessionGroupBy,
}

/// The sessions at one moment.
pub struct SessionSnapshot {
    pub rows: Vec<SessionRow>,
    pub work_units: Vec<WorkUnit>,
    pub summary: SessionSummary,
    pub group: SessionGroupBy,
}

impl SessionSnapshot {
    pub fn output(&self) -> (r: SessionsOutputV1<'_>)
        ensures
            r.schema_version == SCHEMA_VERSION,
            *r.rows == self.rows,
            *r.work_units == self.work_units,
            r.summary == self.summary,
            r.group == self.group,
    {
        SessionsOutputV1 {
            schema_version: SCHEMA_VERSION,
            rows: &self.rows,
            work_units: &self.work_units,
            summary: self.summary,
            group: self.group,
        }
    }
}

/// The sessions that are listed, in the order they came.
pub open spec fn accepted_sources(
    sources: Seq<SessionSource>,
    units: Seq<WorkUnit>,
    f: SessionFilter,
) -> Seq<SessionSource> {
    sources.filter(|s: SessionSource| filter::accepted(s.record, units, f))
}

/// What sessions are ordered by: the latest update first, then the latest
/// dispatch, then the name.
pub open spec fn recency(sources: Seq<SessionSource>) -> Seq<Recent> {
    sources.map_values(
        |s: SessionSource|
            Recent {
                updated_at: s.record.updated_at,
                dispatched_at: s.record.dispatched_at,
                id: s.record.id,
            },
    )
}

/// The rows show the sources in the order `p`.
pub open spec fn rows_in_order(
    rows: Seq<SessionRow>,
    kept: Seq<SessionSource>,
    p: Seq<usize>,
    units: Seq<WorkUnit>,
    group: SessionGroupBy,
) -> bool {
    &&& order::is_order(recency(kept), p, kept.len() as int)
    &&& rows.len() == kept.len()
    &&& forall|i: int|
        0 <= i < rows.len() ==> (#[trigger] rows[i]).shows(kept[p[i] as int], units, group)
}

fn is_unit_of_row(rows: &Vec<SessionRow>, id: &str) -> (r: bool)
    ensures
        r == exists|i: int|
            0 <= i < rows@.len() && strmap::opt_view((#[trigger] rows@[i]).work_unit_id) == Some(
                id@,
            ),
{
    let mut i: usize = 0;
    while i < rows.len()
        invariant
            i <= rows.len(),
            forall|j: int|
                0 <= j < i ==> strmap::opt_view((#[trigger] rows@[j]).work_unit_id) != Some(id@),
        decreases rows.len() - i,
    {
        if let Some(w) = &rows[i].work_unit_id {
            if text::same(w.as_str(), id) {
                return true;
            }
        }
        i += 1;
    }
    false
}

/// The sources that the filter accepts.
fn accept<'a>(
    sources: &'a Vec<SessionSource>,
    units: &Vec<WorkUnit>,
    f: &SessionFilter,
) -> (r: Vec<&'a SessionSource>)
    ensures
        r@.map_values(|s: &SessionSource| *s) == accepted_sources(sources@, units@, *f),
{
    let ghost all = sources@;
    let ghost keep = |s: SessionSource| filter::accepted(s.record, units@, *f);
    let mut out: Vec<&'a SessionSource> = Vec::new();
    let mut i: usize = 0;
    proof {
        reveal(Seq::filter);
        assert(all.take(0) =~= Seq::empty());
        assert(out@.map_values(|s: &SessionSource| *s) =~= all.take(0).filter(keep));
    }
    while i < sources.len()
        invariant
            i <= sources.len(),
            all == sources@,
            keep == (|s: SessionSource| filter::accepted(s.record, units@, *f)),
            out@.map_values(|s: &SessionSource| *s) == all.take(i as int).filter(keep),
        decreases sources.len() - i,
    {
        proof {
            reveal(Seq::filter);
            assert(all.take(i + 1).drop_last() =~= all.take(i as int));
            assert(all.take(i + 1).last() == sources@[i as int]);
        }
        if record_matches_filter(&sources[i].record, units, f) {
            let ghost before = out@;
            out.push(&sources[i]);
            proof {
                assert(out@.map_values(|s: &SessionSource| *s) =~= before.map_values(
                    |s: &SessionSource| *s,
                ).push(sources@[i as int]));
            }
        }
        i += 1;
    }
    proof {
        assert(all.take(i as int) =~= all);
    }
    out
}

/// The keys that the sources are ordered by.
fn recency_keys(kept: &Vec<&SessionSource>) -> (r: Vec<Recent>)
    ensures
        r@ == recency(kept@.map_values(|s: &SessionSource| *s)),
{
    let ghost all = recency(kept@.map_values(|s: &SessionSource| *s));
    let mut keys: Vec<Recent> = Vec::new();
    let mut i: usize = 0;
    while i < kept.len()
        invariant
            i <= kept.len(),
            all == recency(kept@.map_values(|s: &SessionSource| *s)),
            keys@ == all.take(i as int),
        decreases kept.len() - i,
    {
        let record = &kept[i].record;
        keys.push(
            Recent {
                updated_at: record.updated_at,
                dispatched_at: record.dispatched_at,
                id: record.id.clone(),
            },
        );
        i += 1;
        proof {
            assert(keys@ =~= all.take(i as int));
        }
    }
    proof {
        assert(all.take(i as int) =~= all);
    }
    keys
}

/// The work units of the listed sessions, in the order they came.
fn units_of_rows(units: Vec<WorkUnit>, rows: &Vec<SessionRow>) -> (r: Vec<WorkUnit>)
    ensures
        r@ == units_shown(units@, rows@),
{
    let ghost all = units@;
    let ghost keep = |u: WorkUnit| is_unit_of(u, rows@);
    let mut rest = order::reversed(units);
    let mut kept: Vec<WorkUnit> = Vec::new();
    proof {
        reveal(Seq::filter);
        assert(all.take(0) =~= Seq::empty());
    }
    while rest.len() > 0
        invariant
            rest@.len() <= all.len(),
            rest@ == all.reverse().take(rest@.len() as int),
            keep == (|u: WorkUnit| is_unit_of(u, rows@)),
            kept@ == all.take(all.len() - rest@.len()).filter(keep),
        decreases rest.len(),
    {
        let ghost n = rest@.len() as int;
        match rest.pop() {
            Some(unit) => {
                proof {
                    reveal(Seq::filter);
                    let at = all.len() - n;
                    assert(rest@ =~= all.reverse().take(n - 1));
                    assert(unit == all[at]);
                    let next = all.take(at + 1);
                    assert(next.drop_last() =~= all.take(at));
                    assert(next.last() == unit);
                }
                if is_unit_of_row(rows, unit.id.as_str()) {
                    kept.push(unit);
                }
            },
            None => {},
        }
    }
    proof {
        assert(all.take(all.len() as int) =~= all);
    }
    kept
}

/// The work unit is that of one of the rows.
pub open spec fn is_unit_of(unit: WorkUnit, rows: Seq<SessionRow>) -> bool {
    exists|i: int|
        0 <= i < rows.len() && strmap::opt_view((#[trigger] rows[i]).work_unit_id) == Some(
            unit.id@,
        )
}

/// The work units of the rows, in the order they came.
pub open spec fn units_shown(units: Seq<WorkUnit>, rows: Seq<SessionRow>) -> Seq<WorkUnit> {
    units.filter(|u: WorkUnit| is_unit_of(u, rows))
}

impl SessionSnapshot {
    /// The snapshot shows exactly what the filter accepts, in order, with the
    /// work units that it belongs to.
    pub open spec fn is_of(
        self,
        sources: Seq<SessionSource>,
        units: Seq<WorkUnit>,
        f: SessionFilter,
        group: SessionGroupBy,
    ) -> bool {
        let kept = accepted_sources(sources, units, f);
        &&& exists|p: Seq<usize>| rows_in_order(self.rows@, kept, p, units, group)
        &&& self.work_units@ == units_shown(units, self.rows@)
        &&& self.summary.counts(row_statuses(self.rows@))
        &&& self.group == group
    }
}

pub fn build_snapshot(
    sources: &Vec<SessionSource>,
    work_units: Vec<WorkUnit>,
    filter: &SessionFilter,
    group: SessionGroupBy,
) -> (r: SessionSnapshot)
    requires
        sources@.len() <= u32::MAX,
    ensures
        r.is_of(sources@, work_units@, *filter, group),
{
    let ghost units = work_units@;
    let kept = accept(sources, &work_units, filter);
    let ghost all = accepted_sources(sources@, units, *filter);
    let keys = recency_keys(&kept);
    let p = sort_positions(&keys);
    let mut rows: Vec<SessionRow> = Vec::new();
    let mut i: usize = 0;
    proof {
        assert(kept@.map_values(|s: &SessionSource| *s).len() == kept@.len());
        assert(keys@.len() == kept@.len());
    }
    while i < p.len()
        invariant
            i <= p.len(),
            units == work_units@,
            p@.len() == kept@.len(),
            all == kept@.map_values(|s: &SessionSource| *s),
            order::is_order(recency(all), p@, all.len() as int),
            rows@.len() == i,
            forall|j: int|
                0 <= j < i ==> (#[trigger] rows@[j]).shows(all[p@[j] as int], units, group),
        decreases p.len() - i,
    {
        let row = row_from_record(kept[p[i]], &work_units, group);
        rows.push(row);
        i += 1;
    }
    proof {
        assert(rows_in_order(rows@, all, p@, units, group));
        sources@.lemma_filter_len(|s: SessionSource| filter::accepted(s.record, units, *filter));
    }
    let summary = SessionSummary::from_rows(&rows);
    let visible = units_of_rows(work_units, &rows);
    let snapshot = SessionSnapshot { rows, work_units: visible, summary, group };
    proof {
        assert(all == accepted_sources(sources@, units, *filter));
        assert(rows_in_order(snapshot.rows@, all, p@, units, group));
    }
    snapshot
}

/// A session that the filter accepts has a row, and a row stands for such a
/// session.
pub proof fn snapshot_is_exact(
    s: SessionSnapshot,
    sources: Seq<SessionSource>,
    units: Seq<WorkUnit>,
    f: SessionFilter,
    group: SessionGroupBy,
)
    requires
        s.is_of(sources, units, f, group),
        accepted_sources(sources, units, f).len() <= usize::MAX,
    ensures
        forall|i: int|
            0 <= i < accepted_sources(sources, units, f).len() ==> exists|j: int|
                0 <= j < s.rows@.len() && (#[trigger] s.rows@[j]).shows(
                    #[trigger] accepted_sources(sources, units, f)[i],
                    units,
                    group,
                ),
        forall|j: int|
            0 <= j < s.rows@.len() ==> exists|i: int|
                0 <= i < accepted_sources(sources, units, f).len() && (
                #[trigger] s.rows@[j]).shows(
                    #[trigger] accepted_sources(sources, units, f)[i],
                    units,
                    group,
                ),
{
    let kept = accepted_sources(sources, units, f);
    let p = choose|p: Seq<usize>| rows_in_order(s.rows@, kept, p, units, group);
    assert forall|i: int| 0 <= i < kept.len() implies exists|j: int|
        0 <= j < s.rows@.len() && (#[trigger] s.rows@[j]).shows(
            #[trigger] kept[i],
            units,
            group,
        ) by {
        order::order_is_complete(recency(kept), p, kept.len() as int, i as usize);
        let j = choose|j: int| 0 <= j < p.len() && p[j] == i as usize;
        assert(s.rows@[j].shows(kept[p[j] as int], units, group));
        assert(p[j] as int == i);
    }
    assert forall|j: int| 0 <= j < s.rows@.len() implies exists|i: int|
        0 <= i < kept.len() && (#[trigger] s.rows@[j]).shows(#[trigger] kept[i], units, group) by {
        assert(0 <= p[j] < kept.len());
        assert(s.rows@[j].shows(kept[p[j] as int], units, group));
    }
}

/// Rows come in the order of their last update, the latest first.
pub proof fn rows_are_newest_first(
    s: SessionSnapshot,
    sources: Seq<SessionSource>,
    units: Seq<WorkUnit>,
    f: SessionFilter,
    group: SessionGroupBy,
    i: int,
    j: int,
)
    requires
        s.is_of(sources, units, f, group),
        0 <= i < j < s.rows@.len(),
    ensures
        !s.rows@[i].updated_at.earlier(s.rows@[j].updated_at),
{
    let kept = accepted_sources(sources, units, f);
    let p = choose|p: Seq<usize>| rows_in_order(s.rows@, kept, p, units, group);
    assert(s.rows@[i].shows(kept[p[i] as int], units, group));
    assert(s.rows@[j].shows(kept[p[j] as int], units, group));
    assert(order::in_front(recency(kept), p[i] as int, p[j] as int));
    assert(0 <= p[i] < kept.len());
    assert(0 <= p[j] < kept.len());
}

/// No two sessions have one name.
pub open spec fn distinct_ids(sources: Seq<SessionSource>) -> bool {
    forall|i: int, j: int|
        0 <= i < j < sources.len() ==> (#[trigger] sources[i]).record.id@ != (
        #[trigger] sources[j]).record.id@
}

/// The session is listed in front of the other: it was updated later, or at the same
/// time and dispatched later, or that at the same time too and its name comes first.
pub open spec fn listed_before(a: DispatchRecord, b: DispatchRecord) -> bool {
    ||| b.updated_at.earlier(a.updated_at)
    ||| a.updated_at == b.updated_at && b.dispatched_at.earlier(a.dispatched_at)
    ||| a.updated_at == b.updated_at && a.dispatched_at == b.dispatched_at && text::before(
        a.id@,
        b.id@,
    )
}

/// Each session is listed in front of all that follow.
spec fn is_listing(all: Seq<SessionSource>) -> bool {
    forall|i: int, j: int|
        0 <= i < j < all.len() ==> listed_before(
            (#[trigger] all[i]).record,
            (#[trigger] all[j]).record,
        )
}

/// What is kept of sessions with distinct names has distinct names.
proof fn kept_ids_are_distinct(sources: Seq<SessionSource>, keep: spec_fn(SessionSource) -> bool)
    requires
        distinct_ids(sources),
    ensures
        distinct_ids(sources.filter(keep)),
    decreases sources.len(),
{
    reveal(Seq::filter);
    if sources.len() > 0 {
        let before = sources.drop_last();
        kept_ids_are_distinct(before, keep);
        let kept = before.filter(keep);
        assert forall|i: int, j: int|
            0 <= i < j < sources.filter(keep).len() implies (#[trigger] sources.filter(
            keep,
        )[i]).record.id@ != (#[trigger] sources.filter(keep)[j]).record.id@ by {
            if j < kept.len() {
                assert(kept[i].record.id@ != kept[j].record.id@);
            } else {
                assert(kept.contains(kept[i]));
                before.lemma_filter_contains_rev(keep, kept[i]);
                let k = choose|k: int| 0 <= k < before.len() && before[k] == kept[i];
                assert(sources[k].record.id@ != sources[sources.len() - 1].record.id@);
            }
        }
    }
}

/// Where names are distinct, an order lists each session in front of all that follow.
proof fn order_is_listing(kept: Seq<SessionSource>, p: Seq<usize>)
    requires
        distinct_ids(kept),
        order::is_order(recency(kept), p, kept.len() as int),
    ensures
        is_listing(order::arranged(kept, p)),
{
    let all = order::arranged(kept, p);
    assert forall|i: int, j: int| 0 <= i < j < all.len() implies listed_before(
        (#[trigger] all[i]).record,
        (#[trigger] all[j]).record,
    ) by {
        let a = p[i] as int;
        let b = p[j] as int;
        assert(order::in_front(recency(kept), p[i] as int, p[j] as int));
        assert(p[i] != p[j]);
        assert(kept[a].record.id@ != kept[b].record.id@) by {
            if a < b {
                assert(kept[a].record.id@ != kept[b].record.id@);
            } else {
                assert(kept[b].record.id@ != kept[a].record.id@);
            }
        }
        order::before_decides(kept[a].record.id@, kept[b].record.id@);
    }
}

/// Two listings of the same sessions are the same.
proof fn listing_is_unique(a: Seq<SessionSource>, b: Seq<SessionSource>)
    requires
        is_listing(a),
        is_listing(b),
        forall|s: SessionSource| a.contains(s) <==> b.contains(s),
    ensures
        a == b,
{
    listings_agree_from(a, b, 0);
    listing_reaches(a, b);
    listing_reaches(b, a);
    assert(a =~= b);
}

proof fn not_before_itself(r: DispatchRecord)
    ensures
        !listed_before(r, r),
{
    order::before_not_both(r.id@, r.id@);
}

proof fn listings_agree_from(a: Seq<SessionSource>, b: Seq<SessionSource>, i: int)
    requires
        is_listing(a),
        is_listing(b),
        forall|s: SessionSource| a.contains(s) <==> b.contains(s),
        0 <= i,
        forall|j: int| 0 <= j < i && j < a.len() && j < b.len() ==> a[j] == b[j],
    ensures
        forall|j: int| 0 <= j < a.len() && j < b.len() ==> a[j] == b[j],
    decreases a.len() - i,
{
    if i < a.len() && i < b.len() {
        if a[i] != b[i] {
            assert(b.contains(a[i])) by {
                assert(a.contains(a[i]));
            }
            assert(a.contains(b[i])) by {
                assert(b.contains(b[i]));
            }
            let k = choose|k: int| 0 <= k < b.len() && b[k] == a[i];
            let l = choose|l: int| 0 <= l < a.len() && a[l] == b[i];
            not_before_itself(a[i].record);
            not_before_itself(b[i].record);
            if k < i {
                assert(listed_before(a[k].record, a[i].record));
            }
            if l < i {
                assert(listed_before(b[l].record, b[i].record));
            }
            assert(listed_before(a[i].record, a[l].record));
            assert(listed_before(b[i].record, b[k].record));
            order::before_not_both(a[i].record.id@, b[i].record.id@);
        }
        listings_agree_from(a, b, i + 1);
    }
}

proof fn listing_reaches(a: Seq<SessionSource>, b: Seq<SessionSource>)
    requires
        is_listing(a),
        is_listing(b),
        forall|s: SessionSource| a.contains(s) <==> b.contains(s),
        forall|j: int| 0 <= j < a.len() && j < b.len() ==> a[j] == b[j],
    ensures
        b.len() <= a.len(),
{
    if a.len() < b.len() {
        let n = a.len() as int;
        assert(b.contains(b[n]));
        let l = choose|l: int| 0 <= l < a.len() && a[l] == b[n];
        assert(listed_before(b[l].record, b[n].record));
        not_before_itself(b[n].record);
    }
}

/// An order holds what it orders.
proof fn arranged_holds(kept: Seq<SessionSource>, p: Seq<usize>, s: SessionSource)
    requires
        order::is_order(recency(kept), p, kept.len() as int),
        kept.len() <= usize::MAX,
    ensures
        order::arranged(kept, p).contains(s) <==> kept.contains(s),
{
    let all = order::arranged(kept, p);
    if all.contains(s) {
        let j = choose|j: int| 0 <= j < all.len() && all[j] == s;
        assert(0 <= p[j] < kept.len());
        assert(kept[p[j] as int] == s);
    }
    if kept.contains(s) {
        let i = choose|i: int| 0 <= i < kept.len() && kept[i] == s;
        order::order_is_complete(recency(kept), p, kept.len() as int, i as usize);
        let j = choose|j: int| 0 <= j < p.len() && p[j] == i as usize;
        assert(all[j] == s);
    }
}

/// Of sessions with distinct names each row comes in front of all that follow: by the
/// last update, the latest first, then by the dispatch, the latest first, then by
/// name.
pub proof fn rows_are_in_order(
    s: SessionSnapshot,
    sources: Seq<SessionSource>,
    units: Seq<WorkUnit>,
    f: SessionFilter,
    group: SessionGroupBy,
    i: int,
    j: int,
)
    requires
        s.is_of(sources, units, f, group),
        distinct_ids(sources),
        0 <= i < j < s.rows@.len(),
    ensures
        ({
            let a = s.rows@[i];
            let b = s.rows@[j];
            ||| b.updated_at.earlier(a.updated_at)
            ||| a.updated_at == b.updated_at && b.dispatched_at.earlier(a.dispatched_at)
            ||| a.updated_at == b.updated_at && a.dispatched_at == b.dispatched_at && text::before(
                a.id@,
                b.id@,
            )
        }),
{
    let kept = accepted_sources(sources, units, f);
    let p = choose|p: Seq<usize>| rows_in_order(s.rows@, kept, p, units, group);
    kept_ids_are_distinct(sources, |s: SessionSource| filter::accepted(s.record, units, f));
    order_is_listing(kept, p);
    let all = order::arranged(kept, p);
    assert(listed_before(all[i].record, all[j].record));
    assert(s.rows@[i].shows(all[i], units, group));
    assert(s.rows@[j].shows(all[j], units, group));
}

/// The two rows show one of the sessions.
pub open spec fn show_the_same(
    a: SessionRow,
    b: SessionRow,
    sources: Seq<SessionSource>,
    units: Seq<WorkUnit>,
    group: SessionGroupBy,
) -> bool {
    exists|s: SessionSource| #[trigger]
        sources.contains(s) && a.shows(s, units, group) && b.shows(s, units, group)
}

/// The order in which sessions with distinct names are read does not matter: the rows
/// show the same sessions one by one, and the work units, the summary and the grouping
/// are the same.
pub proof fn reading_order_does_not_matter(
    a: SessionSnapshot,
    b: SessionSnapshot,
    sources: Seq<SessionSource>,
    shuffled: Seq<SessionSource>,
    units: Seq<WorkUnit>,
    f: SessionFilter,
    group: SessionGroupBy,
)
    requires
        a.is_of(sources, units, f, group),
        b.is_of(shuffled, units, f, group),
        sources.to_multiset() == shuffled.to_multiset(),
        distinct_ids(sources),
        sources.len() <= usize::MAX,
    ensures
        a.rows@.len() == b.rows@.len(),
        forall|i: int|
            0 <= i < a.rows@.len() ==> show_the_same(
                #[trigger] a.rows@[i],
                b.rows@[i],
                sources,
                units,
                group,
            ),
        a.work_units@ == b.work_units@,
        a.summary == b.summary,
        a.group == b.group,
{
    let keep = |s: SessionSource| filter::accepted(s.record, units, f);
    sources.to_multiset_ensures();
    shuffled.to_multiset_ensures();
    assert forall|s: SessionSource| sources.contains(s) <==> shuffled.contains(s) by {
        assert(sources.contains(s) <==> sources.to_multiset().count(s) > 0);
        assert(shuffled.contains(s) <==> shuffled.to_multiset().count(s) > 0);
    }
    shuffled_ids_are_distinct(sources, shuffled);
    kept_ids_are_distinct(sources, keep);
    kept_ids_are_distinct(shuffled, keep);
    let one = accepted_sources(sources, units, f);
    let two = accepted_sources(shuffled, units, f);
    sources.lemma_filter_len(keep);
    shuffled.lemma_filter_len(keep);
    let p = choose|p: Seq<usize>| rows_in_order(a.rows@, one, p, units, group);
    let q = choose|q: Seq<usize>| rows_in_order(b.rows@, two, q, units, group);
    order_is_listing(one, p);
    order_is_listing(two, q);
    let all = order::arranged(one, p);
    let other = order::arranged(two, q);
    assert forall|s: SessionSource| all.contains(s) <==> other.contains(s) by {
        arranged_holds(one, p, s);
        arranged_holds(two, q, s);
        kept_is_exact(sources, keep, s);
        kept_is_exact(shuffled, keep, s);
    }
    listing_is_unique(all, other);
    assert forall|i: int| 0 <= i < a.rows@.len() implies show_the_same(
        #[trigger] a.rows@[i],
        b.rows@[i],
        sources,
        units,
        group,
    ) by {
        let s = all[i];
        assert(all.contains(s));
        arranged_holds(one, p, s);
        kept_is_exact(sources, keep, s);
        assert(a.rows@[i].shows(one[p[i] as int], units, group));
        assert(b.rows@[i].shows(two[q[i] as int], units, group));
        assert(other[i] == two[q[i] as int]);
    }
    same_rows_same_parts(a, b, sources, units, group);
}

proof fn kept_is_exact(
    sources: Seq<SessionSource>,
    keep: spec_fn(SessionSource) -> bool,
    s: SessionSource,
)
    ensures
        sources.filter(keep).contains(s) <==> sources.contains(s) && keep(s),
{
    if sources.filter(keep).contains(s) {
        sources.lemma_filter_contains_rev(keep, s);
        let i = choose|i: int| 0 <= i < sources.filter(keep).len() && sources.filter(keep)[i] == s;
        sources.lemma_filter_pred(keep, i);
    }
    if sources.contains(s) && keep(s) {
        let i = choose|i: int| 0 <= i < sources.len() && sources[i] == s;
        sources.lemma_filter_contains(keep, i);
    }
}

proof fn shuffled_ids_are_distinct(sources: Seq<SessionSource>, shuffled: Seq<SessionSource>)
    requires
        distinct_ids(sources),
        sources.to_multiset() == shuffled.to_multiset(),
    ensures
        distinct_ids(shuffled),
{
    broadcast use vstd::seq_lib::group_to_multiset_ensures;

    assert(sources.no_duplicates()) by {
        assert forall|i: int, j: int|
            0 <= i < sources.len() && 0 <= j < sources.len() && i != j implies sources[i]
            != sources[j] by {
            if i < j {
                assert(sources[i].record.id@ != sources[j].record.id@);
            } else {
                assert(sources[j].record.id@ != sources[i].record.id@);
            }
        }
    }
    sources.lemma_multiset_has_no_duplicates();
    shuffled.lemma_multiset_has_no_duplicates_conv();
    assert forall|i: int, j: int| 0 <= i < j < shuffled.len() implies (
    #[trigger] shuffled[i]).record.id@ != (#[trigger] shuffled[j]).record.id@ by {
        assert(shuffled.contains(shuffled[i]));
        assert(shuffled.contains(shuffled[j]));
        assert(sources.to_multiset().count(shuffled[i]) > 0);
        assert(sources.to_multiset().count(shuffled[j]) > 0);
        let k = choose|k: int| 0 <= k < sources.len() && sources[k] == shuffled[i];
        let l = choose|l: int| 0 <= l < sources.len() && sources[l] == shuffled[j];
        assert(shuffled[i] != shuffled[j]);
        if k < l {
            assert(sources[k].record.id@ != sources[l].record.id@);
        } else {
            assert(sources[l].record.id@ != sources[k].record.id@);
        }
    }
}

/// Rows that show the same sessions have the same work units and the same summary.
proof fn same_rows_same_parts(
    a: SessionSnapshot,
    b: SessionSnapshot,
    sources: Seq<SessionSource>,
    units: Seq<WorkUnit>,
    group: SessionGroupBy,
)
    requires
        a.rows@.len() == b.rows@.len(),
        forall|i: int|
            0 <= i < a.rows@.len() ==> show_the_same(
                #[trigger] a.rows@[i],
                b.rows@[i],
                sources,
                units,
                group,
            ),
        a.work_units@ == units_shown(units, a.rows@),
        b.work_units@ == units_shown(units, b.rows@),
        a.summary.counts(row_statuses(a.rows@)),
        b.summary.counts(row_statuses(b.rows@)),
    ensures
        a.work_units@ == b.work_units@,
        a.summary == b.summary,
{
    assert forall|i: int| 0 <= i < a.rows@.len() implies (#[trigger] a.rows@[i]).status
        == b.rows@[i].status && strmap::opt_view(a.rows@[i].work_unit_id) == strmap::opt_view(
        b.rows@[i].work_unit_id,
    ) by {
        assert(show_the_same(a.rows@[i], b.rows@[i], sources, units, group));
    }
    assert(row_statuses(a.rows@) =~= row_statuses(b.rows@));
    let of_a = |u: WorkUnit| is_unit_of(u, a.rows@);
    let of_b = |u: WorkUnit| is_unit_of(u, b.rows@);
    assert forall|u: WorkUnit| is_unit_of(u, a.rows@) == #[trigger] is_unit_of(u, b.rows@) by {
        if is_unit_of(u, a.rows@) {
            let i = choose|i: int|
                0 <= i < a.rows@.len() && strmap::opt_view((#[trigger] a.rows@[i]).work_unit_id)
                    == Some(u.id@);
            assert(strmap::opt_view(b.rows@[i].work_unit_id) == Some(u.id@));
        }
        if is_unit_of(u, b.rows@) {
            let i = choose|i: int|
                0 <= i < b.rows@.len() && strmap::opt_view((#[trigger] b.rows@[i]).work_unit_id)
                    == Some(u.id@);
            assert(strmap::opt_view(a.rows@[i].work_unit_id) == Some(u.id@));
        }
    }
    assert(of_a =~= of_b);
}

} // verus!
