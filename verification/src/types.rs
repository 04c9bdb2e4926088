//! The vocabulary of a dispatch: states, directives, policies and records.

use vstd::prelude::*;
use crate::strmap::StrMap;
use crate::text::same;

verus! {

/// Where a dispatch stands.
#[derive(Clone, Copy, Debug, PartialEq, Eq, Structural)]
pub enum Status {
    Running,
    Done,
    Failed,
    NeedsReview,
    NeedsHuman,
    Stopped,
    Retrying,
}

impl Status {
    /// The name it is stored and shown under.
    pub open spec fn name(self) -> Seq<char> {
        match self {
            Status::Running => "running"@,
            Status::Done => "done"@,
            Status::Failed => "failed"@,
            Status::NeedsReview => "needs-review"@,
            Status::NeedsHuman => "needs-human"@,
            Status::Stopped => "stopped"@,
            Status::Retrying => "retrying"@,
        }
    }

    /// The value with the given name.
    pub open spec fn named(s: Seq<char>) -> Option<Status> {
        if s == "running"@ {
            Some(Status::Running)
        } else if s == "done"@ {
            Some(Status::Done)
        } else if s == "failed"@ {
            Some(Status::Failed)
        } else if s == "needs-review"@ {
            Some(Status::NeedsReview)
        } else if s == "needs-human"@ {
            Some(Status::NeedsHuman)
        } else if s == "stopped"@ {
            Some(Status::Stopped)
        } else if s == "retrying"@ {
            Some(Status::Retrying)
        } else {
            None
        }
    }

    pub fn as_str(self) -> (r: &'static str)
        ensures
            r@ == self.name(),
    {
        match self {
            Status::Running => "running",
            Status::Done => "done",
            Status::Failed => "failed",
            Status::NeedsReview => "needs-review",
            Status::NeedsHuman => "needs-human",
            Status::Stopped => "stopped",
            Status::Retrying => "retrying",
        }
    }

    /// Reads a name; exactly the names that [`Status::as_str`] writes are known.
    pub fn parse(s: &str) -> (r: Option<Status>)
        ensures
            r == Status::named(s@),
    {
        if same(s, "running") {
            Some(Status::Running)
        } else if same(s, "done") {
            Some(Status::Done)
        } else if same(s, "failed") {
            Some(Status::Failed)
        } else if same(s, "needs-review") {
            Some(Status::NeedsReview)
        } else if same(s, "needs-human") {
            Some(Status::NeedsHuman)
        } else if same(s, "stopped") {
            Some(Status::Stopped)
        } else if same(s, "retrying") {
            Some(Status::Retrying)
        } else {
            None
        }
    }

    /// Reading a name that was written gives the value back.
    pub proof fn parse_undoes_as_str(self)
        ensures
            Status::named(self.name()) == Some(self),
    {
        reveal_strlit("running");
        reveal_strlit("done");
        reveal_strlit("failed");
        reveal_strlit("needs-review");
        reveal_strlit("needs-human");
        reveal_strlit("stopped");
        reveal_strlit("retrying");
        assert("running"@.len() == 7 && "running"@[0] == 'r');
        assert("done"@.len() == 4 && "done"@[0] == 'd');
        assert("failed"@.len() == 6 && "failed"@[0] == 'f');
        assert("needs-review"@.len() == 12 && "needs-review"@[0] == 'n');
        assert("needs-human"@.len() == 11 && "needs-human"@[0] == 'n');
        assert("stopped"@.len() == 7 && "stopped"@[0] == 's');
        assert("retrying"@.len() == 8 && "retrying"@[0] == 'r');
    }
}

impl Status {
    /// A dispatch has ended unless it is running or about to run again.
    pub open spec fn ended(self) -> bool {
        self != Status::Running && self != Status::Retrying
    }

    pub fn is_terminal(self) -> (r: bool)
        ensures
            r == self.ended(),
    {
        !matches!(self, Status::Running | Status::Retrying)
    }
}

/// What an agent is told to do.
#[derive(Clone, Copy, Debug, PartialEq, Eq, Structural)]
pub enum Directive {
    Implement,
    Research,
    KbUpdate,
    ReviewFix,
    PrComments,
    Refine,
    CreateTask,
    Close,
}

impl Directive {
    /// The name it is stored and shown under.
    pub open spec fn name(self) -> Seq<char> {
        match self {
            Directive::Implement => "implement"@,
            Directive::Research => "research"@,
            Directive::KbUpdate => "kb-update"@,
            Directive::ReviewFix => "review-fix"@,
            Directive::PrComments => "pr-comments"@,
            Directive::Refine => "refine"@,
            Directive::CreateTask => "create-task"@,
            Directive::Close => "close"@,
        }
    }

    /// The value with the given name.
    pub open spec fn named(s: Seq<char>) -> Option<Directive> {
        if s == "implement"@ {
            Some(Directive::Implement)
        } else if s == "research"@ {
            Some(Directive::Research)
        } else if s == "kb-update"@ {
            Some(Directive::KbUpdate)
        } else if s == "review-fix"@ {
            Some(Directive::ReviewFix)
        } else if s == "pr-comments"@ {
            Some(Directive::PrComments)
        } else if s == "refine"@ {
            Some(Directive::Refine)
        } else if s == "create-task"@ {
            Some(Directive::CreateTask)
        } else if s == "close"@ {
            Some(Directive::Close)
        } else {
            None
        }
    }

    pub fn as_str(self) -> (r: &'static str)
        ensures
            r@ == self.name(),
    {
        match self {
            Directive::Implement => "implement",
            Directive::Research => "research",
            Directive::KbUpdate => "kb-update",
            Directive::ReviewFix => "review-fix",
            Directive::PrComments => "pr-comments",
            Directive::Refine => "refine",
            Directive::CreateTask => "create-task",
            Directive::Close => "close",
        }
    }

    /// Reads a name; exactly the names that [`Directive::as_str`] writes are known.
    pub fn parse(s: &str) -> (r: Option<Directive>)
        ensures
            r == Directive::named(s@),
    {
        if same(s, "implement") {
            Some(Directive::Implement)
        } else if same(s, "research") {
            Some(Directive::Research)
        } else if same(s, "kb-update") {
            Some(Directive::KbUpdate)
        } else if same(s, "review-fix") {
            Some(Directive::ReviewFix)
        } else if same(s, "pr-comments") {
            Some(Directive::PrComments)
        } else if same(s, "refine") {
            Some(Directive::Refine)
        } else if same(s, "create-task") {
            Some(Directive::CreateTask)
        } else if same(s, "close") {
            Some(Directive::Close)
        } else {
            None
        }
    }

    /// Reading a name that was written gives the value back.
    pub proof fn parse_undoes_as_str(self)
        ensures
            Directive::named(self.name()) == Some(self),
    {
        reveal_strlit("implement");
        reveal_strlit("research");
        reveal_strlit("kb-update");
        reveal_strlit("review-fix");
        reveal_strlit("pr-comments");
        reveal_strlit("refine");
        reveal_strlit("create-task");
        reveal_strlit("close");
        assert("implement"@.len() == 9 && "implement"@[0] == 'i');
        assert("research"@.len() == 8 && "research"@[0] == 'r');
        assert("kb-update"@.len() == 9 && "kb-update"@[0] == 'k');
        assert("review-fix"@.len() == 10 && "review-fix"@[0] == 'r');
        assert("pr-comments"@.len() == 11 && "pr-comments"@[0] == 'p');
        assert("refine"@.len() == 6 && "refine"@[0] == 'r');
        assert("create-task"@.len() == 11 && "create-task"@[0] == 'c');
        assert("close"@.len() == 5 && "close"@[0] == 'c');
    }
}

impl Directive {
    /// Directives that act on a pull request and cannot do without one.
    pub open spec fn wants_pr(self) -> bool {
        self == Directive::ReviewFix || self == Directive::PrComments
    }

    pub fn requires_pr(self) -> (r: bool)
        ensures
            r == self.wants_pr(),
    {
        matches!(self, Directive::ReviewFix | Directive::PrComments)
    }
}

/// Where a dispatch runs.
#[derive(Clone, Copy, Debug, PartialEq, Eq, Structural)]
pub enum WorktreePolicy {
    Branch,
    Document,
    Root,
    Current,
}

impl WorktreePolicy {
    /// The name it is stored and shown under.
    pub open spec fn name(self) -> Seq<char> {
        match self {
            WorktreePolicy::Branch => "branch"@,
            WorktreePolicy::Document => "document"@,
            WorktreePolicy::Root => "none"@,
            WorktreePolicy::Current => "current"@,
        }
    }

    /// The value with the given name.
    pub open spec fn named(s: Seq<char>) -> Option<WorktreePolicy> {
        if s == "branch"@ {
            Some(WorktreePolicy::Branch)
        } else if s == "document"@ {
            Some(WorktreePolicy::Document)
        } else if s == "none"@ {
            Some(WorktreePolicy::Root)
        } else if s == "current"@ {
            Some(WorktreePolicy::Current)
        } else {
            None
        }
    }

    pub fn as_str(self) -> (r: &'static str)
        ensures
            r@ == self.name(),
    {
        match self {
            WorktreePolicy::Branch => "branch",
            WorktreePolicy::Document => "document",
            WorktreePolicy::Root => "none",
            WorktreePolicy::Current => "current",
        }
    }

    /// Reads a name; exactly the names that [`WorktreePolicy::as_str`] writes are known.
    pub fn parse(s: &str) -> (r: Option<WorktreePolicy>)
        ensures
            r == WorktreePolicy::named(s@),
    {
        if same(s, "branch") {
            Some(WorktreePolicy::Branch)
        } else if same(s, "document") {
            Some(WorktreePolicy::Document)
        } else if same(s, "none") {
            Some(WorktreePolicy::Root)
        } else if same(s, "current") {
            Some(WorktreePolicy::Current)
        } else {
            None
        }
    }

    /// Reading a name that was written gives the value back.
    pub proof fn parse_undoes_as_str(self)
        ensures
            WorktreePolicy::named(self.name()) == Some(self),
    {
        reveal_strlit("branch");
        reveal_strlit("document");
        reveal_strlit("none");
        reveal_strlit("current");
        assert("branch"@.len() == 6 && "branch"@[0] == 'b');
        assert("document"@.len() == 8 && "document"@[0] == 'd');
        assert("none"@.len() == 4 && "none"@[0] == 'n');
        assert("current"@.len() == 7 && "current"@[0] == 'c');
    }
}

/// Where a unit of work stands.
#[derive(Clone, Copy, Debug, PartialEq, Eq, Structural)]
pub enum WorkUnitStatus {
    Active,
    Merged,
    Closed,
    Abandoned,
}

impl WorkUnitStatus {
    /// The name it is stored and shown under.
    pub open spec fn name(self) -> Seq<char> {
        match self {
            WorkUnitStatus::Active => "active"@,
            WorkUnitStatus::Merged => "merged"@,
            WorkUnitStatus::Closed => "closed"@,
            WorkUnitStatus::Abandoned => "abandoned"@,
        }
    }

    /// The value with the given name.
    pub open spec fn named(s: Seq<char>) -> Option<WorkUnitStatus> {
        if s == "active"@ {
            Some(WorkUnitStatus::Active)
        } else if s == "merged"@ {
            Some(WorkUnitStatus::Merged)
        } else if s == "closed"@ {
            Some(WorkUnitStatus::Closed)
        } else if s == "abandoned"@ {
            Some(WorkUnitStatus::Abandoned)
        } else {
            None
        }
    }

    pub fn as_str(self) -> (r: &'static str)
        ensures
            r@ == self.name(),
    {
        match self {
            WorkUnitStatus::Active => "active",
            WorkUnitStatus::Merged => "merged",
            WorkUnitStatus::Closed => "closed",
            WorkUnitStatus::Abandoned => "abandoned",
        }
    }

    /// Reads a name; exactly the names that [`WorkUnitStatus::as_str`] writes are known.
    pub fn parse(s: &str) -> (r: Option<WorkUnitStatus>)
        ensures
            r == WorkUnitStatus::named(s@),
    {
        if same(s, "active") {
            Some(WorkUnitStatus::Active)
        } else if same(s, "merged") {
            Some(WorkUnitStatus::Merged)
        } else if same(s, "closed") {
            Some(WorkUnitStatus::Closed)
        } else if same(s, "abandoned") {
            Some(WorkUnitStatus::Abandoned)
        } else {
            None
        }
    }

    /// Reading a name that was written gives the value back.
    pub proof fn parse_undoes_as_str(self)
        ensures
            WorkUnitStatus::named(self.name()) == Some(self),
    {
        reveal_strlit("active");
        reveal_strlit("merged");
        reveal_strlit("closed");
        reveal_strlit("abandoned");
        assert("active"@.len() == 6 && "active"@[0] == 'a');
        assert("merged"@.len() == 6 && "merged"@[0] == 'm');
        assert("closed"@.len() == 6 && "closed"@[0] == 'c');
        assert("abandoned"@.len() == 9 && "abandoned"@[0] == 'a');
    }
}

/// A point in time: seconds since the epoch and nanoseconds within the second.
#[derive(Clone, Copy, Debug, PartialEq, Eq, Structural)]
pub struct Timestamp {
    pub secs: i64,
    pub nanos: u32,
}

impl Timestamp {
    pub open spec fn earlier(self, other: Timestamp) -> bool {
        self.secs < other.secs || (self.secs == other.secs && self.nanos < other.nanos)
    }

    pub fn is_before(self, other: Timestamp) -> (r: bool)
        ensures
            r == self.earlier(other),
    {
        self.secs < other.secs || (self.secs == other.secs && self.nanos < other.nanos)
    }
}

/// The health signals of a dispatch, in the order they are checked.
#[derive(Clone, Copy, Debug, PartialEq, Eq, Structural)]
pub struct HealthChecks {
    pub agent_exited_clean: bool,
    pub branch_pushed: bool,
    pub pr_created: bool,
    pub ci_passed: bool,
    pub reviews_approved: bool,
    pub threads_resolved: bool,
}

/// What the agent behind a dispatch can do.
#[derive(Clone, Copy, Debug, PartialEq, Eq, Structural)]
pub struct AgentCapabilities {
    pub supports_resume_by_session_id: bool,
    pub supports_tmux_attach: bool,
    pub supports_tmux_redirect: bool,
}

/// How much attention a cost deserves.
#[derive(Clone, Copy, Debug, PartialEq, Eq, Structural)]
pub enum CostBand {
    Low,
    Notable,
    High,
}

/// An amount of money in dollars, as it is written with two decimals, and its
/// band.
pub struct Cost {
    pub amount: String,
    pub band: CostBand,
}

/// Where the terminal of a dispatch is: a `tmux` session, as it was recorded or
/// as it follows from the record.
pub struct TerminalLocator {
    pub session: String,
    pub worktree_path: Option<String>,
    /// When it was recorded, or inferred.
    pub recorded_at: Timestamp,
    pub inferred: bool,
}

/// What is known of one dispatch.
pub struct DispatchRecord {
    pub id: String,
    pub task_slug: Option<String>,
    pub branch: String,
    pub worktree_path: String,
    pub session: String,
    pub log_file: String,
    pub status: Status,
    pub directive: Directive,
    pub retries: u32,
    pub resolver: String,
    pub pr_urls: Vec<String>,
    pub no_worktree: bool,
    pub original_input: Option<String>,
    pub checks: HealthChecks,
    pub kb_root: Option<String>,
    pub cost: Option<Cost>,
    pub num_turns: Option<u32>,
    pub duration_ms: Option<u64>,
    pub artifacts: Option<String>,
    pub work_unit_id: Option<String>,
    pub agent_provider: String,
    pub agent_session_id: Option<String>,
    pub agent_transcript_cwd: Option<String>,
    pub resume_of_dispatch_id: Option<String>,
    pub agent_capabilities: Option<AgentCapabilities>,
    pub terminal_locator: Option<TerminalLocator>,
    pub dispatched_at: Timestamp,
    pub updated_at: Timestamp,
}

/// Several dispatches that work towards one result.
pub struct WorkUnit {
    pub id: String,
    pub task_slug: Option<String>,
    pub branch: Option<String>,
    pub repos: Vec<String>,
    pub pr_urls: Vec<String>,
    pub status: WorkUnitStatus,
    pub created_at: Timestamp,
    pub updated_at: Timestamp,
}

/// How a dispatch was asked for.
pub struct RunOpts {
    pub input: String,
    pub directive: Option<Directive>,
    pub params: StrMap,
    pub pr_url: Option<String>,
    pub repos: Vec<String>,
    pub inline: bool,
    pub force: bool,
    pub dry_run: bool,
    pub directives: Option<String>,
    pub no_worktree: bool,
    pub max_turns: Option<u32>,
    pub resume: Option<String>,
    pub retries: u32,
    pub list: bool,
    pub ephemeral: bool,
    pub timeout_secs: Option<u64>,
    pub json: bool,
}

impl RunOpts {
    /// Nothing is asked for but the input, the directive and the pull request.
    pub open spec fn is_plain(self) -> bool {
        &&& self.params@ == Map::<Seq<char>, Seq<char>>::empty()
        &&& self.repos@.len() == 0
        &&& !self.inline && !self.force && !self.dry_run && !self.no_worktree
        &&& self.directives is None
        &&& self.max_turns is None
        &&& self.resume is None
        &&& self.retries == 0
        &&& !self.list && !self.ephemeral && !self.json
        &&& self.timeout_secs is None
    }

    pub fn plain(
        input: String,
        directive: Option<Directive>,
        pr_url: Option<String>,
    ) -> (r: RunOpts)
        ensures
            r.is_plain(),
            r.input == input,
            r.directive == directive,
            r.pr_url == pr_url,
    {
        RunOpts {
            input,
            directive,
            params: StrMap::new(),
            pr_url,
            repos: Vec::new(),
            inline: false,
            force: false,
            dry_run: false,
            directives: None,
            no_worktree: false,
            max_turns: None,
            resume: None,
            retries: 0,
            list: false,
            ephemeral: false,
            timeout_secs: None,
            json: false,
        }
    }
}

/// What a resolver makes of an input.
pub struct ResolvedInput {
    pub system_prompt: String,
    pub directive: Directive,
    pub task_slug: Option<String>,
    pub branch: String,
    pub dispatch_id: String,
    pub env_overrides: StrMap,
    pub kb_root: Option<String>,
    pub is_template: bool,
    pub template_body: Option<String>,
    pub max_turns: Option<u32>,
    pub worktree_policy: Option<WorktreePolicy>,
}

/// Dispatches that run, or are about to run again, have not ended; all others
/// have. Only directives that work on a pull request ask for one.
pub proof fn states_and_directives_are_sorted(s: Status, d: Directive)
    ensures
        s.ended() <==> (match s {
            Status::Done | Status::Failed | Status::NeedsHuman | Status::NeedsReview
            | Status::Stopped => true,
            Status::Running | Status::Retrying => false,
        }),
        d.wants_pr() <==> (match d {
            Directive::ReviewFix | Directive::PrComments => true,
            _ => false,
        }),
{
}

/// One point in time is earlier than another or not, as their seconds say, and
/// where those are the same, what is left of them.
pub proof fn times_are_ordered(a: Timestamp, b: Timestamp, c: Timestamp)
    ensures
        a.earlier(b) || b.earlier(a) || a == b,
        !(a.earlier(b) && b.earlier(a)),
        a.earlier(b) && b.earlier(c) ==> a.earlier(c),
        a.secs < b.secs ==> a.earlier(b),
{
}

/// Each status is known under a name of its own, and no other name stands for it.
pub proof fn statuses_are_known_by_their_names(x: Status, name: Seq<char>)
    ensures
        Status::named(name) == Some(x) <==> name == x.name(),
        x == Status::Running <==> x.name() == "running"@,
        x == Status::Done <==> x.name() == "done"@,
        x == Status::Failed <==> x.name() == "failed"@,
        x == Status::NeedsReview <==> x.name() == "needs-review"@,
        x == Status::NeedsHuman <==> x.name() == "needs-human"@,
        x == Status::Stopped <==> x.name() == "stopped"@,
        x == Status::Retrying <==> x.name() == "retrying"@,
{
    x.parse_undoes_as_str();
    Status::Running.parse_undoes_as_str();
    Status::Done.parse_undoes_as_str();
    Status::Failed.parse_undoes_as_str();
    Status::NeedsReview.parse_undoes_as_str();
    Status::NeedsHuman.parse_undoes_as_str();
    Status::Stopped.parse_undoes_as_str();
    Status::Retrying.parse_undoes_as_str();
}

/// Each directive is known under a name of its own, and no other name stands for it.
pub proof fn directives_have_names_of_their_own(x: Directive, name: Seq<char>)
    ensures
        Directive::named(name) == Some(x) <==> name == x.name(),
        x == Directive::Implement <==> x.name() == "implement"@,
        x == Directive::Research <==> x.name() == "research"@,
        x == Directive::KbUpdate <==> x.name() == "kb-update"@,
        x == Directive::ReviewFix <==> x.name() == "review-fix"@,
        x == Directive::PrComments <==> x.name() == "pr-comments"@,
        x == Directive::Refine <==> x.name() == "refine"@,
        x == Directive::CreateTask <==> x.name() == "create-task"@,
        x == Directive::Close <==> x.name() == "close"@,
{
    x.parse_undoes_as_str();
    Directive::Implement.parse_undoes_as_str();
    Directive::Research.parse_undoes_as_str();
    Directive::KbUpdate.parse_undoes_as_str();
    Directive::ReviewFix.parse_undoes_as_str();
    Directive::PrComments.parse_undoes_as_str();
    Directive::Refine.parse_undoes_as_str();
    Directive::CreateTask.parse_undoes_as_str();
    Directive::Close.parse_undoes_as_str();
}

/// Each policy is known under a name of its own, and no other name stands for it.
pub proof fn policies_are_known_by_their_names(x: WorktreePolicy, name: Seq<char>)
    ensures
        WorktreePolicy::named(name) == Some(x) <==> name == x.name(),
        x == WorktreePolicy::Branch <==> x.name() == "branch"@,
        x == WorktreePolicy::Document <==> x.name() == "document"@,
        x == WorktreePolicy::Root <==> x.name() == "none"@,
        x == WorktreePolicy::Current <==> x.name() == "current"@,
{
    x.parse_undoes_as_str();
    WorktreePolicy::Branch.parse_undoes_as_str();
    WorktreePolicy::Document.parse_undoes_as_str();
    WorktreePolicy::Root.parse_undoes_as_str();
    WorktreePolicy::Current.parse_undoes_as_str();
}

/// Each status of a unit is known under a name of its own, and no other name stands for it.
pub proof fn unit_statuses_are_known_by_their_names(x: WorkUnitStatus, name: Seq<char>)
    ensures
        WorkUnitStatus::named(name) == Some(x) <==> name == x.name(),
        x == WorkUnitStatus::Active <==> x.name() == "active"@,
        x == WorkUnitStatus::Merged <==> x.name() == "merged"@,
        x == WorkUnitStatus::Closed <==> x.name() == "closed"@,
        x == WorkUnitStatus::Abandoned <==> x.name() == "abandoned"@,
{
    x.parse_undoes_as_str();
    WorkUnitStatus::Active.parse_undoes_as_str();
    WorkUnitStatus::Merged.parse_undoes_as_str();
    WorkUnitStatus::Closed.parse_undoes_as_str();
    WorkUnitStatus::Abandoned.parse_undoes_as_str();
}

} // verus!
