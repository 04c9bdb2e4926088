//! What a dispatch tells its user, and what it records.

use vstd::prelude::*;
use crate::dispatch::{self, worktree_path};
use crate::pipeline::flow::Why;
use crate::pipeline::inputs::copy_list;
use crate::strmap::{self, copy_opt};
use crate::text::{self, concat, join, push_str, write_u64};
use crate::types::{
    AgentCapabilities, Directive, DispatchRecord, HealthChecks, ResolvedInput, RunOpts, Status,
    Timestamp, WorktreePolicy,
};

verus! {

/// Version of the JSON envelopes.
pub const SCHEMA_VERSION: u32 = 1;

/// JSON envelope shared by `atc run --json`: `kind` is `"dispatch"` for both
/// real and dry-run dispatches and `"error"` when the dispatch could not be
/// created.
pub struct RunOutputV1<T> {
    pub schema_version: u32,
    pub kind: &'static str,
    pub data: T,
}

/// Error payload emitted on stdout when `--json` is set and the dispatch
/// fails before reaching the registry.
pub struct ErrorEnvelope {
    pub code: &'static str,
    pub message: String,
}

/// Format the full error chain, outermost message first, as a colon-separated
/// string.
pub fn format_error_chain(messages: &Vec<String>) -> (r: String)
    ensures
        r@ == text::joined(text::views(messages@), ": "@),
{
    join(messages, ": ")
}

/// The `kind: "error"` envelope for a chain of error messages.
pub fn error_envelope(messages: &Vec<String>) -> (r: RunOutputV1<ErrorEnvelope>)
    ensures
        r.schema_version == SCHEMA_VERSION,
        r.kind@ == "error"@,
        r.data.code@ == "dispatch_error"@,
        r.data.message@ == text::joined(text::views(messages@), ": "@),
{
    RunOutputV1 {
        schema_version: SCHEMA_VERSION,
        kind: "error",
        data: ErrorEnvelope { code: "dispatch_error", message: format_error_chain(messages) },
    }
}

/// Successful or dry-run dispatch payload.
pub struct DispatchEnvelope {
    pub dispatch_id: String,
    pub task_slug: Option<String>,
    pub branch: String,
    pub session: String,
    pub directive: &'static str,
    pub worktree_path: String,
    pub worktree_policy: &'static str,
    pub status: &'static str,
    pub resolver: String,
    pub pr_urls: Vec<String>,
    pub log_file: Option<String>,
    pub agent_provider: String,
    pub agent_session_id: Option<String>,
    pub agent_transcript_cwd: Option<String>,
    pub resume_of_dispatch_id: Option<String>,
    pub agent_capabilities: Option<AgentCapabilities>,
    pub is_dry_run: bool,
    pub inline_exit_code: Option<i32>,
    pub dispatched_at: Timestamp,
}

/// The session metadata of an agent.
pub struct AgentSession {
    pub provider: String,
    pub session_id: Option<String>,
    pub transcript_cwd: Option<String>,
    pub resume_of: Option<String>,
    pub capabilities: Option<AgentCapabilities>,
}

/// A list of the one string, or of none.
pub open spec fn as_list(o: Option<Seq<char>>) -> Seq<Seq<char>> {
    match o {
        Some(s) => seq![s],
        None => Seq::empty(),
    }
}

fn opt_to_list(o: &Option<String>) -> (r: Vec<String>)
    ensures
        text::views(r@) == as_list(strmap::opt_view(*o)),
{
    let mut v: Vec<String> = Vec::new();
    if let Some(s) = o {
        v.push(s.clone());
    }
    proof {
        assert(text::views(v@) =~= as_list(strmap::opt_view(*o)));
    }
    v
}

/// The payload of a dispatch that was made: the record says the rest.
pub fn dispatch_envelope(
    record: &DispatchRecord,
    policy: WorktreePolicy,
    inline_exit_code: Option<i32>,
) -> (r: RunOutputV1<DispatchEnvelope>)
    ensures
        r.schema_version == SCHEMA_VERSION,
        r.kind@ == "dispatch"@,
        r.data.dispatch_id@ == record.id@,
        r.data.task_slug == record.task_slug,
        r.data.branch@ == record.branch@,
        r.data.session@ == record.session@,
        r.data.directive@ == record.directive.name(),
        r.data.worktree_path@ == record.worktree_path@,
        r.data.worktree_policy@ == policy.name(),
        r.data.status@ == record.status.name(),
        r.data.resolver@ == record.resolver@,
        text::views(r.data.pr_urls@) == text::views(record.pr_urls@),
        strmap::opt_view(r.data.log_file) == Some(record.log_file@),
        r.data.agent_provider@ == record.agent_provider@,
        r.data.agent_session_id == record.agent_session_id,
        r.data.agent_transcript_cwd == record.agent_transcript_cwd,
        r.data.resume_of_dispatch_id == record.resume_of_dispatch_id,
        r.data.agent_capabilities == record.agent_capabilities,
        !r.data.is_dry_run,
        r.data.inline_exit_code == inline_exit_code,
        r.data.dispatched_at == record.dispatched_at,
{
    RunOutputV1 {
        schema_version: SCHEMA_VERSION,
        kind: "dispatch",
        data: DispatchEnvelope {
            dispatch_id: record.id.clone(),
            task_slug: copy_opt(&record.task_slug),
            branch: record.branch.clone(),
            session: record.session.clone(),
            directive: record.directive.as_str(),
            worktree_path: record.worktree_path.clone(),
            worktree_policy: policy.as_str(),
            status: record.status.as_str(),
            resolver: record.resolver.clone(),
            pr_urls: copy_list(&record.pr_urls),
            log_file: Some(record.log_file.clone()),
            agent_provider: record.agent_provider.clone(),
            agent_session_id: copy_opt(&record.agent_session_id),
            agent_transcript_cwd: copy_opt(&record.agent_transcript_cwd),
            resume_of_dispatch_id: copy_opt(&record.resume_of_dispatch_id),
            agent_capabilities: record.agent_capabilities,
            is_dry_run: false,
            inline_exit_code,
            dispatched_at: record.dispatched_at,
        },
    }
}

/// The payload of a preview or of an ephemeral dispatch, which has no record
/// and no log file. A preview has the status `preview` and its identifier for a
/// session.
pub fn unrecorded_envelope(
    resolved: &ResolvedInput,
    resolver: &str,
    pr_url: &Option<String>,
    path: &str,
    policy: WorktreePolicy,
    agent: &AgentSession,
    run: Option<(&str, Option<i32>)>,
    now: Timestamp,
) -> (r: RunOutputV1<DispatchEnvelope>)
    ensures
        r.schema_version == SCHEMA_VERSION,
        r.kind@ == "dispatch"@,
        r.data.dispatch_id@ == resolved.dispatch_id@,
        r.data.task_slug == resolved.task_slug,
        r.data.branch@ == resolved.branch@,
        r.data.directive@ == resolved.directive.name(),
        r.data.worktree_path@ == path@,
        r.data.worktree_policy@ == policy.name(),
        r.data.resolver@ == resolver@,
        text::views(r.data.pr_urls@) == as_list(strmap::opt_view(*pr_url)),
        r.data.log_file is None,
        r.data.agent_provider@ == agent.provider@,
        r.data.agent_capabilities == agent.capabilities,
        r.data.dispatched_at == now,
        r.data.is_dry_run == (run is None),
        match run {
            None => r.data.status@ == "preview"@ && r.data.session@ == resolved.dispatch_id@
                && r.data.inline_exit_code is None && r.data.agent_session_id is None
                && r.data.agent_transcript_cwd is None && r.data.resume_of_dispatch_id is None,
            Some((session, exit)) => r.data.status@
                == crate::pipeline::inputs::status_after(exit).name() && r.data.session@ == session@
                && r.data.inline_exit_code == exit && r.data.agent_session_id == agent.session_id
                && r.data.agent_transcript_cwd == agent.transcript_cwd
                && r.data.resume_of_dispatch_id == agent.resume_of,
        },
{
    let is_dry_run = run.is_none();
    let (status, session, inline_exit_code) = match run {
        None => ("preview", resolved.dispatch_id.clone(), None),
        Some((session, exit)) => (
            crate::pipeline::inputs::status_of_exit(exit).as_str(),
            session.to_owned(),
            exit,
        ),
    };
    RunOutputV1 {
        schema_version: SCHEMA_VERSION,
        kind: "dispatch",
        data: DispatchEnvelope {
            dispatch_id: resolved.dispatch_id.clone(),
            task_slug: copy_opt(&resolved.task_slug),
            branch: resolved.branch.clone(),
            session,
            directive: resolved.directive.as_str(),
            worktree_path: path.to_owned(),
            worktree_policy: policy.as_str(),
            status,
            resolver: resolver.to_owned(),
            pr_urls: opt_to_list(pr_url),
            log_file: None,
            agent_provider: agent.provider.clone(),
            agent_session_id: if is_dry_run {
                None
            } else {
                copy_opt(&agent.session_id)
            },
            agent_transcript_cwd: if is_dry_run {
                None
            } else {
                copy_opt(&agent.transcript_cwd)
            },
            resume_of_dispatch_id: if is_dry_run {
                None
            } else {
                copy_opt(&agent.resume_of)
            },
            agent_capabilities: agent.capabilities,
            is_dry_run,
            inline_exit_code,
            dispatched_at: now,
        },
    }
}

/// No signal seen yet.
pub open spec fn no_checks() -> HealthChecks {
    HealthChecks {
        agent_exited_clean: false,
        branch_pushed: false,
        pr_created: false,
        ci_passed: false,
        reviews_approved: false,
        threads_resolved: false,
    }
}

pub fn fresh_checks() -> (r: HealthChecks)
    ensures
        r == no_checks(),
{
    HealthChecks {
        agent_exited_clean: false,
        branch_pushed: false,
        pr_created: false,
        ci_passed: false,
        reviews_approved: false,
        threads_resolved: false,
    }
}

/// What a dispatch comes to.
pub struct DispatchOutcome {
    pub id: String,
    pub session: String,
    /// The exit code of an agent that ran in place.
    pub inline_exit_code: Option<i32>,
}

/// What a dispatch that was carried out comes to.
pub fn dispatch_outcome(
    resolved: &ResolvedInput,
    session: &str,
    inline_exit_code: Option<i32>,
) -> (r: DispatchOutcome)
    ensures
        r.id@ == resolved.dispatch_id@,
        r.session@ == session@,
        r.inline_exit_code == inline_exit_code,
{
    DispatchOutcome {
        id: resolved.dispatch_id.clone(),
        session: session.to_owned(),
        inline_exit_code,
    }
}

/// What a dispatch that was only shown comes to: a success, under its own name.
pub fn dry_run_outcome(resolved: &ResolvedInput) -> (r: DispatchOutcome)
    ensures
        r.id@ == resolved.dispatch_id@,
        r.session@ == resolved.dispatch_id@,
        r.inline_exit_code == Some(0i32),
{
    dispatch_outcome(resolved, resolved.dispatch_id.as_str(), Some(0))
}

/// A record made up to let a resolver clean up before anything was stored: it
/// has failed, and ran nowhere.
pub fn make_tmp_record(
    resolved: &ResolvedInput,
    opts: &RunOpts,
    resolver_name: &str,
    provider: &str,
    now: Timestamp,
) -> (r: DispatchRecord)
    ensures
        r.id@ == resolved.dispatch_id@,
        r.task_slug == resolved.task_slug,
        r.branch@ == resolved.branch@,
        r.worktree_path@.len() == 0,
        r.session@.len() == 0,
        r.log_file@.len() == 0,
        r.status == Status::Failed,
        r.directive == resolved.directive,
        r.retries == opts.retries,
        r.resolver@ == resolver_name@,
        text::views(r.pr_urls@) == as_list(strmap::opt_view(opts.pr_url)),
        r.no_worktree == opts.no_worktree,
        r.original_input is None,
        r.checks == no_checks(),
        r.kb_root == resolved.kb_root,
        r.cost is None && r.num_turns is None && r.duration_ms is None,
        r.artifacts is None && r.work_unit_id is None,
        r.agent_provider@ == provider@,
        r.agent_session_id is None && r.agent_transcript_cwd is None && r.resume_of_dispatch_id
            is None,
        r.agent_capabilities is None && r.terminal_locator is None,
        r.dispatched_at == now && r.updated_at == now,
{
    DispatchRecord {
        id: resolved.dispatch_id.clone(),
        task_slug: copy_opt(&resolved.task_slug),
        branch: resolved.branch.clone(),
        worktree_path: String::new(),
        session: String::new(),
        log_file: String::new(),
        status: Status::Failed,
        directive: resolved.directive,
        retries: opts.retries,
        resolver: resolver_name.to_owned(),
        pr_urls: opt_to_list(&opts.pr_url),
        no_worktree: opts.no_worktree,
        original_input: None,
        checks: fresh_checks(),
        kb_root: copy_opt(&resolved.kb_root),
        cost: None,
        num_turns: None,
        duration_ms: None,
        artifacts: None,
        work_unit_id: None,
        agent_provider: provider.to_owned(),
        agent_session_id: None,
        agent_transcript_cwd: None,
        resume_of_dispatch_id: None,
        agent_capabilities: None,
        terminal_locator: None,
        dispatched_at: now,
        updated_at: now,
    }
}

/// The record of a dispatch whose agent was started.
pub fn make_record(
    resolved: &ResolvedInput,
    opts: &RunOpts,
    input: &str,
    resolver_name: &str,
    pr_url: &Option<String>,
    worktree: &str,
    session: &str,
    log_file: &str,
    exit: Option<i32>,
    work_unit_id: &Option<String>,
    agent: &AgentSession,
    now: Timestamp,
) -> (r: DispatchRecord)
    ensures
        r.id@ == resolved.dispatch_id@,
        r.task_slug == resolved.task_slug,
        r.branch@ == resolved.branch@,
        r.worktree_path@ == worktree@,
        r.session@ == session@,
        r.log_file@ == log_file@,
        r.status == crate::pipeline::inputs::status_after(exit),
        r.directive == resolved.directive,
        r.retries == opts.retries,
        r.resolver@ == resolver_name@,
        text::views(r.pr_urls@) == as_list(strmap::opt_view(*pr_url)),
        r.no_worktree == opts.no_worktree,
        strmap::opt_view(r.original_input) == Some(input@),
        r.checks == no_checks(),
        r.kb_root == resolved.kb_root,
        r.cost is None && r.num_turns is None && r.duration_ms is None && r.artifacts is None,
        r.work_unit_id == *work_unit_id,
        r.agent_provider@ == agent.provider@,
        r.agent_session_id == agent.session_id,
        r.agent_transcript_cwd == agent.transcript_cwd,
        r.resume_of_dispatch_id == agent.resume_of,
        r.agent_capabilities == agent.capabilities,
        r.terminal_locator is None,
        r.dispatched_at == now && r.updated_at == now,
{
    DispatchRecord {
        id: resolved.dispatch_id.clone(),
        task_slug: copy_opt(&resolved.task_slug),
        branch: resolved.branch.clone(),
        worktree_path: worktree.to_owned(),
        session: session.to_owned(),
        log_file: log_file.to_owned(),
        status: crate::pipeline::inputs::status_of_exit(exit),
        directive: resolved.directive,
        retries: opts.retries,
        resolver: resolver_name.to_owned(),
        pr_urls: opt_to_list(pr_url),
        no_worktree: opts.no_worktree,
        original_input: Some(input.to_owned()),
        checks: fresh_checks(),
        kb_root: copy_opt(&resolved.kb_root),
        cost: None,
        num_turns: None,
        duration_ms: None,
        artifacts: None,
        work_unit_id: copy_opt(work_unit_id),
        agent_provider: agent.provider.clone(),
        agent_session_id: copy_opt(&agent.session_id),
        agent_transcript_cwd: copy_opt(&agent.transcript_cwd),
        resume_of_dispatch_id: copy_opt(&agent.resume_of),
        agent_capabilities: agent.capabilities,
        terminal_locator: None,
        dispatched_at: now,
        updated_at: now,
    }
}

/// Human-readable description of what a worktree policy actually does.
pub open spec fn policy_label(policy: WorktreePolicy) -> Seq<char> {
    match policy {
        WorktreePolicy::Branch => "create or reuse a worktree by branch name"@,
        WorktreePolicy::Document => "use the document workspace path"@,
        WorktreePolicy::Root => "no worktree — run in the canonical repo root"@,
        WorktreePolicy::Current => "no worktree — run in the current working directory"@,
    }
}

pub fn worktree_policy_label(policy: WorktreePolicy) -> (r: &'static str)
    ensures
        r@ == policy_label(policy),
{
    match policy {
        WorktreePolicy::Branch => "create or reuse a worktree by branch name",
        WorktreePolicy::Document => "use the document workspace path",
        WorktreePolicy::Root => "no worktree — run in the canonical repo root",
        WorktreePolicy::Current => "no worktree — run in the current working directory",
    }
}

/// The path a dispatch will use.
pub open spec fn described_path(
    worktree_base: Seq<char>,
    branch: Seq<char>,
    primary: Option<Seq<char>>,
    policy: WorktreePolicy,
    workspace_root: Seq<char>,
    cwd: Seq<char>,
) -> Seq<char> {
    match policy {
        WorktreePolicy::Branch => dispatch::worktree_place(worktree_base, branch, primary),
        WorktreePolicy::Document => workspace_root,
        WorktreePolicy::Root => workspace_root,
        WorktreePolicy::Current => cwd,
    }
}

/// Describe the resolved worktree location for a dispatch policy: its label,
/// the path the dispatch will use, and a hint where a default is used.
///
/// `base_is_default` tells that no worktree base is configured.
pub fn describe_worktree(
    worktree_base: &str,
    base_is_default: bool,
    branch: &str,
    primary_repo: Option<&str>,
    policy: WorktreePolicy,
    workspace_root: &str,
    cwd: &str,
) -> (r: (&'static str, String, Option<String>))
    ensures
        r.0@ == policy_label(policy),
        r.1@ == described_path(
            worktree_base@,
            branch@,
            match primary_repo {
                Some(p) => Some(p@),
                None => None,
            },
            policy,
            workspace_root@,
            cwd@,
        ),
        strmap::opt_view(r.2) == if policy == WorktreePolicy::Branch && base_is_default {
            Some(
                "worktree_base is unset; using default "@ + worktree_base@
                    + ". Set [dispatch] worktree_base in .atc/config.toml to override."@,
            )
        } else {
            None
        },
{
    let label = worktree_policy_label(policy);
    match policy {
        WorktreePolicy::Branch => {
            let path = worktree_path(worktree_base, branch, primary_repo);
            let hint = if base_is_default {
                let head = concat("worktree_base is unset; using default ", worktree_base);
                Some(
                    concat(
                        head.as_str(),
                        ". Set [dispatch] worktree_base in .atc/config.toml to override.",
                    ),
                )
            } else {
                None
            };
            (label, path, hint)
        },
        WorktreePolicy::Document => (label, workspace_root.to_owned(), None),
        WorktreePolicy::Root => (label, workspace_root.to_owned(), None),
        WorktreePolicy::Current => (label, cwd.to_owned(), None),
    }
}

/// The message for each reason of the flow's own.
pub open spec fn refusal(
    why: Why,
    directive: Directive,
    session: Seq<char>,
    slug: Seq<char>,
) -> Option<Seq<char>> {
    match why {
        Why::EphemeralNeedsInline => Some("--ephemeral requires --inline"@),
        Why::NoResolver => Some(
            "no resolver can handle the provided input. Check that resolvers are enabled in [resolvers] config."@,
        ),
        Why::PrRequired => Some(
            directive.name()
                + " directive requires a PR URL (--pr-url or --param pr=<url>). Cannot dispatch without it.\nhint: pass `--pr-url <url>` or `--param pr=<url>` — never as a positional arg."@,
        ),
        Why::SessionExists => Some(
            "tmux session '"@ + session
                + "' already exists. Use --force to override.\nhint: `atc info "@ + session
                + "` shows the existing dispatch; `atc stop` and `atc cleanup` end it cleanly."@,
        ),
        Why::EphemeralNeedsTemplate => Some(
            "--ephemeral requires a template dispatch (template_body is None). Use `atc quick <template>` or `atc run <template> --ephemeral --inline`."@,
        ),
        Why::UnsafeSlug => Some(
            "invalid slug for document policy: unsafe path '"@ + slug + "'"@,
        ),
        Why::DocumentNeedsSlug => Some(
            "worktree: document requires a task or slug parameter to resolve the document workspace (set --param task=<slug> or use a task dispatch)"@,
        ),
        Why::StepFailed => None,
    }
}

/// The message for a dispatch that the flow gives up; a step that failed brings
/// its own.
pub fn failure_message(why: Why, directive: Directive, session: &str, slug: &str) -> (r: Option<
    String,
>)
    ensures
        strmap::opt_view(r) == refusal(why, directive, session@, slug@),
{
    match why {
        Why::EphemeralNeedsInline => Some("--ephemeral requires --inline".to_owned()),
        Why::NoResolver => Some(
            "no resolver can handle the provided input. Check that resolvers are enabled in [resolvers] config.".to_owned(),
        ),
        Why::PrRequired => Some(
            concat(
                directive.as_str(),
                " directive requires a PR URL (--pr-url or --param pr=<url>). Cannot dispatch without it.\nhint: pass `--pr-url <url>` or `--param pr=<url>` — never as a positional arg.",
            ),
        ),
        Why::SessionExists => {
            let mut m = concat("tmux session '", session);
            push_str(&mut m, "' already exists. Use --force to override.\nhint: `atc info ");
            push_str(&mut m, session);
            push_str(
                &mut m,
                "` shows the existing dispatch; `atc stop` and `atc cleanup` end it cleanly.",
            );
            Some(m)
        },
        Why::EphemeralNeedsTemplate => Some(
            "--ephemeral requires a template dispatch (template_body is None). Use `atc quick <template>` or `atc run <template> --ephemeral --inline`.".to_owned(),
        ),
        Why::UnsafeSlug => {
            let mut m = concat("invalid slug for document policy: unsafe path '", slug);
            push_str(&mut m, "'");
            Some(m)
        },
        Why::DocumentNeedsSlug => Some(
            "worktree: document requires a task or slug parameter to resolve the document workspace (set --param task=<slug> or use a task dispatch)".to_owned(),
        ),
        Why::StepFailed => None,
    }
}

/// The argument list that removes a worktree again; with `meta` it is passed to
/// `meta`, else to `git`.
pub fn rollback_args(is_meta: bool, worktree: &str) -> (r: Vec<String>)
    ensures
        text::views(r@) == if is_meta {
            seq!["git"@, "worktree"@, "remove"@, "--force"@, worktree@]
        } else {
            seq!["worktree"@, "remove"@, "--force"@, worktree@]
        },
{
    let mut args: Vec<String> = Vec::new();
    if is_meta {
        args.push("git".to_owned());
    }
    args.push("worktree".to_owned());
    args.push("remove".to_owned());
    args.push("--force".to_owned());
    args.push(worktree.to_owned());
    proof {
        if is_meta {
            assert(text::views(args@) =~= seq![
                "git"@,
                "worktree"@,
                "remove"@,
                "--force"@,
                worktree@,
            ]);
        } else {
            assert(text::views(args@) =~= seq!["worktree"@, "remove"@, "--force"@, worktree@]);
        }
    }
    args
}

fn push_line(lines: &mut Vec<String>, label: &str, value: &str)
    ensures
        text::views(final(lines)@) == text::views(old(lines)@).push(label@ + value@),
{
    let line = concat(label, value);
    proof {
        text::views_push(lines@, line);
    }
    lines.push(line);
}

/// The worktree line: policy and what it does.
pub open spec fn worktree_note(policy: WorktreePolicy) -> Seq<char> {
    policy.name() + " ("@ + policy_label(policy) + ")"@
}

fn write_worktree_note(policy: WorktreePolicy) -> (r: String)
    ensures
        r@ == worktree_note(policy),
{
    let mut note = concat(policy.as_str(), " (");
    push_str(&mut note, worktree_policy_label(policy));
    push_str(&mut note, ")");
    note
}

/// What a dry run shows. Budget and providers come as they are written.
pub struct Preview {
    pub pr_url: Option<String>,
    pub budget: String,
    pub turns: u32,
    pub resolver: String,
    pub providers: String,
    pub ephemeral: bool,
    pub policy: WorktreePolicy,
    pub repos: Vec<String>,
    pub path: String,
    pub hint: Option<String>,
}

/// The lines every preview has.
pub open spec fn preview_head(resolved: ResolvedInput, p: Preview) -> Seq<Seq<char>> {
    seq![
        if p.ephemeral {
            "=== DRY RUN (ephemeral) ==="@
        } else {
            "=== DRY RUN ==="@
        },
        "Input:       "@ + match resolved.task_slug {
            Some(t) => t@,
            None => resolved.branch@,
        },
        "Resolver:    "@ + p.resolver@,
        "Directive:   "@ + resolved.directive.name(),
        "Branch:      "@ + resolved.branch@,
        "ID:          "@ + resolved.dispatch_id@,
        "Budget:      $"@ + p.budget@,
        "Turns:       "@ + text::decimal(p.turns as nat),
        "PR URL:      "@ + match p.pr_url {
            Some(u) => u@,
            None => "(none)"@,
        },
        "Worktree:    "@ + worktree_note(p.policy),
        "Path:        "@ + p.path@,
    ]
}

pub open spec fn preview_lines(resolved: ResolvedInput, p: Preview) -> Seq<Seq<char>> {
    preview_head(resolved, p) + (if p.repos@.len() > 0 {
        seq!["Repo:        "@ + text::joined(text::views(p.repos@), ", "@)]
    } else {
        Seq::empty()
    }) + (match p.hint {
        Some(h) => seq!["Hint:        "@ + h@],
        None => Seq::empty(),
    }) + (if p.ephemeral {
        seq!["Providers:   (skipped — ephemeral)"@, "System:      (skipped — ephemeral)"@]
    } else {
        seq!["Providers:   "@ + p.providers@]
    }) + (if resolved.is_template {
        seq!["Template:    yes (system prompt from directive config)"@]
    } else {
        Seq::empty()
    })
}

fn dry_run_head(resolved: &ResolvedInput, p: &Preview) -> (r: Vec<String>)
    ensures
        text::views(r@) == preview_head(*resolved, *p),
{
    let mut out: Vec<String> = Vec::new();
    if p.ephemeral {
        out.push("=== DRY RUN (ephemeral) ===".to_owned());
    } else {
        out.push("=== DRY RUN ===".to_owned());
    }
    match &resolved.task_slug {
        Some(t) => push_line(&mut out, "Input:       ", t.as_str()),
        None => push_line(&mut out, "Input:       ", resolved.branch.as_str()),
    }
    push_line(&mut out, "Resolver:    ", p.resolver.as_str());
    push_line(&mut out, "Directive:   ", resolved.directive.as_str());
    push_line(&mut out, "Branch:      ", resolved.branch.as_str());
    push_line(&mut out, "ID:          ", resolved.dispatch_id.as_str());
    push_line(&mut out, "Budget:      $", p.budget.as_str());
    push_line(&mut out, "Turns:       ", write_u64(p.turns as u64).as_str());
    match &p.pr_url {
        Some(u) => push_line(&mut out, "PR URL:      ", u.as_str()),
        None => push_line(&mut out, "PR URL:      ", "(none)"),
    }
    push_line(&mut out, "Worktree:    ", write_worktree_note(p.policy).as_str());
    push_line(&mut out, "Path:        ", p.path.as_str());
    proof {
        assert(text::views(out@) =~= preview_head(*resolved, *p));
    }
    out
}

/// The lines of a dry run.
pub fn dry_run(resolved: &ResolvedInput, p: &Preview) -> (r: Vec<String>)
    ensures
        text::views(r@) == preview_lines(*resolved, *p),
{
    let mut out = dry_run_head(resolved, p);
    if p.repos.len() > 0 {
        push_line(&mut out, "Repo:        ", join(&p.repos, ", ").as_str());
    }
    if let Some(h) = &p.hint {
        push_line(&mut out, "Hint:        ", h.as_str());
    }
    let ghost mid = out@;
    if p.ephemeral {
        out.push("Providers:   (skipped — ephemeral)".to_owned());
        out.push("System:      (skipped — ephemeral)".to_owned());
        proof {
            assert(text::views(out@) =~= text::views(mid) + seq![
                "Providers:   (skipped — ephemeral)"@,
                "System:      (skipped — ephemeral)"@,
            ]);
        }
    } else {
        push_line(&mut out, "Providers:   ", p.providers.as_str());
    }
    let ghost late = out@;
    if resolved.is_template {
        out.push("Template:    yes (system prompt from directive config)".to_owned());
        proof {
            assert(text::views(out@) =~= text::views(late).push(
                "Template:    yes (system prompt from directive config)"@,
            ));
        }
    }
    proof {
        assert(text::views(out@) =~= preview_lines(*resolved, *p));
    }
    out
}

pub open spec fn confirmation_lines(
    r: DispatchRecord,
    policy: WorktreePolicy,
    primary: Option<Seq<char>>,
) -> Seq<Seq<char>> {
    seq![
        "Dispatched: "@ + match r.task_slug {
            Some(t) => t@,
            None => "(none)"@,
        },
        "  Resolver:  "@ + r.resolver@,
        "  Directive: "@ + r.directive.name(),
        "  ID:        "@ + r.id@,
        "  Branch:    "@ + r.branch@,
        "  Worktree:  "@ + worktree_note(policy),
        "  Path:      "@ + r.worktree_path@,
    ] + (match primary {
        Some(p) => seq!["  Repo:      "@ + p],
        None => Seq::empty(),
    }) + seq!["  Session:   "@ + r.session@, "  Log:       "@ + r.log_file@, ""@, "  Next steps:"@]
        + (match r.task_slug {
        Some(t) => seq!["    atc logs "@ + t@],
        None => Seq::empty(),
    }) + seq![
        "    atc watch --id \""@ + r.id@ + "\""@,
        "    atc watch --id \""@ + r.id@ + "\" --pretty"@,
        "    atc status --flat --json"@,
    ] + (match r.task_slug {
        Some(t) => seq!["    atc redirect "@ + t@ + " [message]"@],
        None => Seq::empty(),
    })
}

/// The lines shown after a dispatch.
pub fn dispatch_confirmation(
    r: &DispatchRecord,
    policy: WorktreePolicy,
    primary_repo: &Option<String>,
) -> (out: Vec<String>)
    ensures
        text::views(out@) == confirmation_lines(*r, policy, strmap::opt_view(*primary_repo)),
{
    let mut out: Vec<String> = Vec::new();
    match &r.task_slug {
        Some(t) => push_line(&mut out, "Dispatched: ", t.as_str()),
        None => push_line(&mut out, "Dispatched: ", "(none)"),
    }
    push_line(&mut out, "  Resolver:  ", r.resolver.as_str());
    push_line(&mut out, "  Directive: ", r.directive.as_str());
    push_line(&mut out, "  ID:        ", r.id.as_str());
    push_line(&mut out, "  Branch:    ", r.branch.as_str());
    push_line(&mut out, "  Worktree:  ", write_worktree_note(policy).as_str());
    push_line(&mut out, "  Path:      ", r.worktree_path.as_str());
    if let Some(repo) = primary_repo {
        push_line(&mut out, "  Repo:      ", repo.as_str());
    }
    push_line(&mut out, "  Session:   ", r.session.as_str());
    push_line(&mut out, "  Log:       ", r.log_file.as_str());
    let ghost mid = out@;
    out.push("".to_owned());
    out.push("  Next steps:".to_owned());
    proof {
        assert(text::views(out@) =~= text::views(mid) + seq![""@, "  Next steps:"@]);
    }
    if let Some(t) = &r.task_slug {
        push_line(&mut out, "    atc logs ", t.as_str());
    }
    let watch = concat("    atc watch --id \"", r.id.as_str());
    push_line(&mut out, watch.as_str(), "\"");
    push_line(&mut out, watch.as_str(), "\" --pretty");
    let ghost late = out@;
    out.push("    atc status --flat --json".to_owned());
    proof {
        assert(text::views(out@) =~= text::views(late).push("    atc status --flat --json"@));
    }
    if let Some(t) = &r.task_slug {
        let head = concat("    atc redirect ", t.as_str());
        push_line(&mut out, head.as_str(), " [message]");
    }
    proof {
        assert(text::views(out@) =~= confirmation_lines(
            *r,
            policy,
            strmap::opt_view(*primary_repo),
        ));
    }
    out
}

/// The flow has a message for each reason of its own, and none where a step of
/// another failed: that one brings its own. What is in the way is named.
pub proof fn refusals_name_what_is_in_the_way(
    why: Why,
    directive: Directive,
    session: Seq<char>,
    slug: Seq<char>,
)
    ensures
        refusal(why, directive, session, slug) is None <==> why is StepFailed,
        text::starts(refusal(Why::PrRequired, directive, session, slug)->0, directive.name()),
        text::starts(
            refusal(Why::SessionExists, directive, session, slug)->0,
            "tmux session '"@ + session + "' already exists. Use --force to override."@,
        ),
        text::ends(refusal(Why::UnsafeSlug, directive, session, slug)->0, "'"@ + slug + "'"@),
{
    let m = refusal(Why::PrRequired, directive, session, slug)->0;
    assert(m.subrange(0, directive.name().len() as int) =~= directive.name());
    reveal_strlit("' already exists. Use --force to override.");
    reveal_strlit("' already exists. Use --force to override.\nhint: `atc info ");
    let m = refusal(Why::SessionExists, directive, session, slug)->0;
    let p = "tmux session '"@ + session + "' already exists. Use --force to override."@;
    assert(m.subrange(0, p.len() as int) =~= p);
    reveal_strlit("invalid slug for document policy: unsafe path '");
    reveal_strlit("'");
    let m = refusal(Why::UnsafeSlug, directive, session, slug)->0;
    let p = "'"@ + slug + "'"@;
    assert(m.subrange(m.len() - p.len(), m.len() as int) =~= p);
}

/// Only a branch has a place of its own in the worktrees; the other policies stay
/// in the workspace or where they were called.
pub proof fn described_paths_follow_the_policy(
    worktree_base: Seq<char>,
    branch: Seq<char>,
    primary: Option<Seq<char>>,
    workspace_root: Seq<char>,
    cwd: Seq<char>,
)
    ensures
        described_path(
            worktree_base,
            branch,
            primary,
            WorktreePolicy::Branch,
            workspace_root,
            cwd,
        ) == dispatch::worktree_place(worktree_base, branch, primary),
        described_path(
            worktree_base,
            branch,
            primary,
            WorktreePolicy::Document,
            workspace_root,
            cwd,
        ) == workspace_root,
        described_path(
            worktree_base,
            branch,
            primary,
            WorktreePolicy::Root,
            workspace_root,
            cwd,
        ) == workspace_root,
        described_path(
            worktree_base,
            branch,
            primary,
            WorktreePolicy::Current,
            workspace_root,
            cwd,
        ) == cwd,
{
}

/// A preview shows what would be dispatched: where, under which name, on what, and
/// within which limits. What is not there has no line.
pub proof fn previews_show_what_would_run(resolved: ResolvedInput, p: Preview)
    ensures
        ({
            let lines = preview_lines(resolved, p);
            &&& lines[0] == if p.ephemeral {
                "=== DRY RUN (ephemeral) ==="@
            } else {
                "=== DRY RUN ==="@
            }
            &&& resolved.task_slug matches Some(t) ==> lines[1] == "Input:       "@ + t@
            &&& resolved.task_slug is None ==> lines[1] == "Input:       "@ + resolved.branch@
            &&& lines.contains("Resolver:    "@ + p.resolver@)
            &&& lines.contains("Directive:   "@ + resolved.directive.name())
            &&& lines.contains("Branch:      "@ + resolved.branch@)
            &&& lines.contains("ID:          "@ + resolved.dispatch_id@)
            &&& lines.contains("Budget:      $"@ + p.budget@)
            &&& lines.contains("Turns:       "@ + text::decimal(p.turns as nat))
            &&& p.pr_url matches Some(u) ==> lines.contains("PR URL:      "@ + u@)
            &&& p.pr_url is None ==> lines.contains("PR URL:      "@ + "(none)"@)
            &&& lines.contains(
                "Worktree:    "@ + (p.policy.name() + " ("@ + policy_label(p.policy) + ")"@),
            )
            &&& lines.contains("Path:        "@ + p.path@)
            &&& p.repos@.len() > 0 ==> lines.contains(
                "Repo:        "@ + text::joined(text::views(p.repos@), ", "@),
            )
            &&& p.hint matches Some(h) ==> lines.contains("Hint:        "@ + h@)
            &&& !p.ephemeral ==> lines.contains("Providers:   "@ + p.providers@)
            &&& p.ephemeral ==> lines.contains("Providers:   (skipped — ephemeral)"@)
            &&& lines.len() == 11 + (if p.repos@.len() > 0 {
                1int
            } else {
                0
            }) + (if p.hint is Some {
                1int
            } else {
                0
            }) + (if p.ephemeral {
                2int
            } else {
                1
            }) + (if resolved.is_template {
                1int
            } else {
                0
            })
        }),
{
    let lines = preview_lines(resolved, p);
    let head = preview_head(resolved, p);
    assert(head.len() == 11);
    assert forall|i: int| 0 <= i < 11 implies lines[i] == head[i] && lines.contains(
        #[trigger] head[i],
    ) by {
        assert(lines[i] == head[i]);
    }
    assert(lines.contains(head[2]) && lines.contains(head[3]) && lines.contains(head[4]));
    assert(lines.contains(head[5]) && lines.contains(head[6]) && lines.contains(head[7]));
    assert(lines.contains(head[8]) && lines.contains(head[9]) && lines.contains(head[10]));
    let repo: int = if p.repos@.len() > 0 {
        1
    } else {
        0
    };
    let hint: int = if p.hint is Some {
        1
    } else {
        0
    };
    if p.repos@.len() > 0 {
        assert(lines[11] == "Repo:        "@ + text::joined(text::views(p.repos@), ", "@));
    }
    if let Some(h) = p.hint {
        assert(lines[11 + repo] == "Hint:        "@ + h@);
    }
    assert(lines[11 + repo + hint] == if p.ephemeral {
        "Providers:   (skipped — ephemeral)"@
    } else {
        "Providers:   "@ + p.providers@
    });
}

/// A confirmation names what was dispatched and where it runs, and how to follow
/// it by its name.
pub proof fn confirmations_name_what_was_dispatched(
    r: DispatchRecord,
    policy: WorktreePolicy,
    primary: Option<Seq<char>>,
)
    ensures
        ({
            let lines = confirmation_lines(r, policy, primary);
            &&& r.task_slug matches Some(t) ==> {
                &&& lines[0] == "Dispatched: "@ + t@
                &&& lines.contains("    atc logs "@ + t@)
                &&& lines.contains("    atc redirect "@ + t@ + " [message]"@)
            }
            &&& r.task_slug is None ==> lines[0] == "Dispatched: "@ + "(none)"@
            &&& lines.contains("  Resolver:  "@ + r.resolver@)
            &&& lines.contains("  Directive: "@ + r.directive.name())
            &&& lines.contains("  ID:        "@ + r.id@)
            &&& lines.contains("  Branch:    "@ + r.branch@)
            &&& lines.contains("  Path:      "@ + r.worktree_path@)
            &&& lines.contains("  Session:   "@ + r.session@)
            &&& lines.contains("  Log:       "@ + r.log_file@)
            &&& lines.contains("    atc watch --id \""@ + r.id@ + "\""@)
            &&& lines.contains("    atc watch --id \""@ + r.id@ + "\" --pretty"@)
            &&& primary matches Some(p) ==> lines.contains("  Repo:      "@ + p)
        }),
{
    let lines = confirmation_lines(r, policy, primary);
    let repo: int = if primary is Some {
        1
    } else {
        0
    };
    let task: int = if r.task_slug is Some {
        1
    } else {
        0
    };
    assert(lines[1] == "  Resolver:  "@ + r.resolver@);
    assert(lines[2] == "  Directive: "@ + r.directive.name());
    assert(lines[3] == "  ID:        "@ + r.id@);
    assert(lines[4] == "  Branch:    "@ + r.branch@);
    assert(lines[6] == "  Path:      "@ + r.worktree_path@);
    if let Some(p) = primary {
        assert(lines[7] == "  Repo:      "@ + p);
    }
    assert(lines[7 + repo] == "  Session:   "@ + r.session@);
    assert(lines[8 + repo] == "  Log:       "@ + r.log_file@);
    if let Some(t) = r.task_slug {
        assert(lines[11 + repo] == "    atc logs "@ + t@);
        assert(lines[15 + repo] == "    atc redirect "@ + t@ + " [message]"@);
    }
    assert(lines[11 + repo + task] == "    atc watch --id \""@ + r.id@ + "\""@);
    assert(lines[12 + repo + task] == "    atc watch --id \""@ + r.id@ + "\" --pretty"@);
}

} // verus!
