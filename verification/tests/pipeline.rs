use atc::pipeline::environment::{merge_env, seal_env, seal_ephemeral_env, token_present};
use atc::pipeline::flow::{
    choose_policy, start, Action, Cleanup, Event, Facts, Flow, Phase, RunFlags, SlugState, Why,
};
use atc::pipeline::inputs::{
    adds_pr_context, choose_document_slug, effective_pr_url, enrich_params, first_path,
    kb_workspace, needs_pr_lookup, pick_limit, resolve_base_repos, slug_state, status_of_exit,
};
use atc::pipeline::place::{
    check_env_file, choose_ephemeral_place, choose_preview_root, choose_run_place,
};
use atc::pipeline::prompt::{
    apply_variables, deferred_placeholder, fill_default_branch, fill_start_comment, fill_worktree,
    mentions_default_branch, meta_context_line, prepend_sections, render_pr_start_comment,
    stdin_content,
};
use atc::pipeline::report::{
    describe_worktree, dispatch_confirmation, dispatch_envelope, dispatch_outcome, dry_run,
    dry_run_outcome, error_envelope, failure_message, format_error_chain, make_record, make_tmp_record, rollback_args,
    unrecorded_envelope, worktree_policy_label, AgentSession, DispatchEnvelope, ErrorEnvelope,
    Preview, RunOutputV1, SCHEMA_VERSION,
};
use atc::pipeline::work_unit::{
    generate_work_unit_id, new_work_unit, repos_to_add, resolve_work_unit,
    resolve_work_unit_start, work_unit_task, Answer, Query,
};
use atc::resolvers::prompt::PromptResolver;
use atc::strmap::StrMap;
use atc::types::{
    AgentCapabilities, Directive, DispatchRecord, HealthChecks, ResolvedInput, RunOpts, Status,
    Timestamp, WorktreePolicy,
};

fn s(t: &str) -> String {
    t.to_string()
}

fn time(t: &str) -> Timestamp {
    let at = chrono::DateTime::parse_from_rfc3339(t).unwrap();
    Timestamp {
        secs: at.timestamp(),
        nanos: 0,
    }
}

fn no_checks() -> HealthChecks {
    HealthChecks {
        agent_exited_clean: false,
        branch_pushed: false,
        pr_created: false,
        ci_passed: false,
        reviews_approved: false,
        threads_resolved: false,
    }
}

fn record(id: &str, status: Status) -> DispatchRecord {
    DispatchRecord {
        id: s(id),
        task_slug: Some(s("tasks/foo")),
        branch: s("tasks--foo"),
        worktree_path: s("/tmp/wt"),
        session: s("test-session"),
        log_file: s("/tmp/test.jsonl"),
        status,
        directive: Directive::Implement,
        retries: 0,
        resolver: s("task"),
        pr_urls: vec![],
        no_worktree: false,
        original_input: None,
        checks: no_checks(),
        kb_root: None,
        cost: None,
        num_turns: None,
        duration_ms: None,
        artifacts: None,
        work_unit_id: None,
        agent_provider: s("codex"),
        agent_session_id: None,
        agent_transcript_cwd: None,
        resume_of_dispatch_id: None,
        agent_capabilities: None,
        terminal_locator: None,
        dispatched_at: time("2026-03-12T05:31:41Z"),
        updated_at: time("2026-03-12T05:31:41Z"),
    }
}

fn map(entries: &[(&str, &str)]) -> StrMap {
    let mut m = StrMap::new();
    for (k, v) in entries {
        m.insert(k, v);
    }
    m
}

fn capabilities() -> AgentCapabilities {
    AgentCapabilities {
        supports_resume_by_session_id: true,
        supports_tmux_attach: true,
        supports_tmux_redirect: true,
    }
}

#[test]
fn test_run_output_v1_dispatch_envelope_shape() {
    let envelope = RunOutputV1 {
        schema_version: SCHEMA_VERSION,
        kind: "dispatch",
        data: DispatchEnvelope {
            dispatch_id: s("tasks--foo@implement@1234567890-0001"),
            task_slug: Some(s("tasks/foo")),
            branch: s("tasks--foo"),
            session: s("tasks--foo@implement@1234567890-0001"),
            directive: "implement",
            worktree_path: "/tmp/wt/tasks--foo".to_string(),
            worktree_policy: "branch",
            status: "running",
            resolver: s("task"),
            pr_urls: vec![s("https://github.com/o/r/pull/1")],
            log_file: Some("/tmp/logs/tasks--foo.jsonl".to_string()),
            agent_provider: s("codex"),
            agent_session_id: Some("00000000-0000-4000-8000-000000000200".to_string()),
            agent_transcript_cwd: Some("/tmp/wt/tasks--foo".to_string()),
            resume_of_dispatch_id: None,
            agent_capabilities: Some(capabilities()),
            is_dry_run: false,
            inline_exit_code: None,
            dispatched_at: time("2026-05-04T12:00:00Z"),
        },
    };
    assert_eq!(envelope.schema_version, 1);
    assert_eq!(envelope.kind, "dispatch");
    let data = &envelope.data;
    assert_eq!(data.dispatch_id, "tasks--foo@implement@1234567890-0001");
    assert_eq!(data.task_slug.as_deref(), Some("tasks/foo"));
    assert_eq!(data.branch, "tasks--foo");
    assert_eq!(data.session, "tasks--foo@implement@1234567890-0001");
    assert_eq!(data.directive, "implement");
    assert_eq!(data.worktree_path, "/tmp/wt/tasks--foo");
    assert_eq!(data.worktree_policy, "branch");
    assert_eq!(data.status, "running");
    assert_eq!(data.resolver, "task");
    assert_eq!(data.pr_urls[0], "https://github.com/o/r/pull/1");
    assert_eq!(data.log_file.as_deref(), Some("/tmp/logs/tasks--foo.jsonl"));
    assert_eq!(data.agent_provider, "codex");
    assert_eq!(
        data.agent_session_id.as_deref(),
        Some("00000000-0000-4000-8000-000000000200")
    );
    assert_eq!(data.agent_transcript_cwd.as_deref(), Some("/tmp/wt/tasks--foo"));
    assert!(data.resume_of_dispatch_id.is_none());
    assert!(data.agent_capabilities.unwrap().supports_resume_by_session_id);
    assert!(!data.is_dry_run);
    assert!(data.inline_exit_code.is_none());
    let at = chrono::DateTime::from_timestamp(data.dispatched_at.secs, data.dispatched_at.nanos);
    assert_eq!(
        serde_json::to_value(at.unwrap()).unwrap(),
        serde_json::Value::String(s("2026-05-04T12:00:00Z"))
    );
    assert_eq!(
        atc::times::write_rfc3339(data.dispatched_at),
        "2026-05-04T12:00:00+00:00"
    );
}

#[test]
fn previews_end_well_under_their_own_name() {
    let shown = dry_run_outcome(&resolved());
    assert_eq!(shown.id, "tasks--foo@implement@1234567890-0001");
    assert_eq!(shown.session, "tasks--foo@implement@1234567890-0001");
    assert_eq!(shown.inline_exit_code, Some(0));
    let ran = dispatch_outcome(&resolved(), "elsewhere", Some(3));
    assert_eq!(ran.id, "tasks--foo@implement@1234567890-0001");
    assert_eq!(ran.session, "elsewhere");
    assert_eq!(ran.inline_exit_code, Some(3));
}

fn resolved() -> ResolvedInput {
    ResolvedInput {
        system_prompt: s("do it"),
        directive: Directive::Implement,
        task_slug: Some(s("tasks/foo")),
        branch: s("tasks--foo"),
        dispatch_id: s("tasks--foo@implement@1234567890-0001"),
        env_overrides: StrMap::new(),
        kb_root: None,
        is_template: false,
        template_body: None,
        max_turns: None,
        worktree_policy: None,
    }
}

fn agent() -> AgentSession {
    AgentSession {
        provider: s("codex"),
        session_id: None,
        transcript_cwd: None,
        resume_of: None,
        capabilities: None,
    }
}

#[test]
fn test_run_output_v1_dry_run_envelope_uses_preview_status() {
    let envelope = unrecorded_envelope(
        &resolved(),
        "task",
        &None,
        "/tmp/wt/tasks--foo",
        WorktreePolicy::Branch,
        &agent(),
        None,
        time("2026-05-04T12:00:00Z"),
    );
    assert!(envelope.data.is_dry_run);
    assert_eq!(envelope.data.status, "preview");
    assert!(envelope.data.log_file.is_none());
}

#[test]
fn test_run_output_v1_error_envelope_shape() {
    let envelope = RunOutputV1 {
        schema_version: SCHEMA_VERSION,
        kind: "error",
        data: ErrorEnvelope {
            code: "dispatch_error",
            message: s("tasks/harmony-9999 not found in KB"),
        },
    };
    let made = error_envelope(&vec![s("tasks/harmony-9999 not found in KB")]);
    for e in [envelope, made] {
        assert_eq!(e.schema_version, 1);
        assert_eq!(e.kind, "error");
        assert_eq!(e.data.code, "dispatch_error");
        assert!(e.data.message.contains("not found in KB"));
    }
}

#[test]
fn test_emit_run_error_envelope_includes_full_chain() {
    let inner = std::io::Error::new(std::io::ErrorKind::NotFound, "no such file");
    let err = anyhow::Error::new(inner).context("failed to read template");
    let messages: Vec<String> = err.chain().map(|e| e.to_string()).collect();
    let joined = format_error_chain(&messages);
    assert!(joined.contains("failed to read template"));
    assert!(joined.contains("no such file"));
}

#[test]
fn error_chains_are_joined() {
    assert_eq!(format_error_chain(&vec![s("a"), s("b"), s("c")]), "a: b: c");
}

#[test]
fn test_render_pr_start_comment_with_task() {
    let out = render_pr_start_comment(
        "review-fix",
        Some("tasks/my-task"),
        "feat/branch",
        "/tmp/wt/branch",
        "sess-123",
    );
    assert!(out.contains("review-fix"), "should contain directive");
    assert!(out.contains("tasks/my-task"), "should contain task");
    assert!(out.contains("feat/branch"), "should contain branch");
    assert!(out.contains("sess-123"), "should contain session");
    assert!(
        out.contains("atc watch --id sess-123"),
        "should have watch cmd"
    );
    assert!(!out.contains("{{"), "no template tags remaining: {}", out);
}

#[test]
fn test_render_pr_start_comment_without_task() {
    let out = render_pr_start_comment(
        "pr-comments",
        None,
        "feat/branch",
        "/tmp/wt/branch",
        "sess-456",
    );
    assert!(out.contains("pr-comments"), "should contain directive");
    assert!(!out.contains("Task:"), "task line should be removed");
    assert!(!out.contains("\n\n\n"), "no triple blank lines");
    assert!(!out.contains("{{"), "no template tags remaining: {}", out);
}

#[test]
fn comments_can_have_any_template() {
    let template = "{{directive}} {{branch}}{{#if task}} for {{task}}{{/if}}\n\n\n\n{{session}} in {{worktree}}\n";
    assert_eq!(
        fill_start_comment(template, "close", Some("tasks/a"), "b", "/w", "s"),
        "close b for tasks/a\n\ns in /w"
    );
    assert_eq!(
        fill_start_comment(template, "close", None, "b", "/w", "s"),
        "close b\n\ns in /w"
    );
}

#[test]
fn test_worktree_policy_label_covers_all_variants() {
    for policy in [
        WorktreePolicy::Branch,
        WorktreePolicy::Document,
        WorktreePolicy::Root,
        WorktreePolicy::Current,
    ] {
        let label = worktree_policy_label(policy);
        assert!(!label.is_empty(), "label empty for {:?}", policy);
    }
    assert_eq!(
        worktree_policy_label(WorktreePolicy::Branch),
        "create or reuse a worktree by branch name"
    );
    assert_eq!(
        worktree_policy_label(WorktreePolicy::Current),
        "no worktree \u{2014} run in the current working directory"
    );
}

#[test]
fn test_describe_worktree_branch_uses_primary_repo() {
    let (_, with_repo, _) = describe_worktree(
        "/tmp/wt",
        false,
        "feat/x",
        Some("open-source/atc"),
        WorktreePolicy::Branch,
        "/tmp/ws",
        "/tmp/cwd",
    );
    assert_eq!(
        with_repo, "/tmp/wt/feat--x/open-source/atc",
        "primary_repo must be appended to the branch path"
    );

    let (_, without_repo, _) = describe_worktree(
        "/tmp/wt",
        false,
        "feat/x",
        None,
        WorktreePolicy::Branch,
        "/tmp/ws",
        "/tmp/cwd",
    );
    assert_eq!(
        without_repo, "/tmp/wt/feat--x",
        "missing primary_repo must yield the bare branch path"
    );
}

#[test]
fn test_describe_worktree_document_and_none_use_workspace_root() {
    for policy in [WorktreePolicy::Document, WorktreePolicy::Root] {
        let (_, path, _) = describe_worktree(
            "/tmp/default",
            true,
            "feat/x",
            None,
            policy,
            "/tmp/meta-ws",
            "/tmp/cwd",
        );
        assert_eq!(path, "/tmp/meta-ws");
    }
}

const FLAGS: RunFlags = RunFlags {
    ephemeral: false,
    inline: false,
    dry_run: false,
    force: false,
    no_worktree: false,
    project_env: false,
};

const FACTS: Facts = Facts {
    directive: Directive::Implement,
    has_pr: false,
    policy: None,
    slug: SlugState::Safe,
    has_template_body: false,
    is_template: false,
    has_providers: false,
    has_token: true,
};

fn play(flags: RunFlags, events: &[Event]) -> (Flow, Vec<Action>) {
    let (mut flow, first) = start(flags);
    let mut actions = vec![first];
    for e in events {
        let (next, action) = flow.step(*e);
        flow = next;
        actions.push(action);
    }
    (flow, actions)
}

#[test]
fn dispatch_goes_from_input_to_record() {
    let (flow, actions) = play(
        FLAGS,
        &[
            Event::ResolverFound(true),
            Event::Resolved(Some(FACTS)),
            Event::BranchValid(true),
            Event::SessionAlive(false),
            Event::ContextReady,
            Event::WorktreeReady {
                created: true,
                is_meta: false,
            },
            Event::LogReady(true),
            Event::Assembled {
                needs_default_branch: false,
            },
            Event::Spawned(true),
            Event::WorkUnitTried,
            Event::Inserted(true),
        ],
    );
    assert_eq!(flow.phase, Phase::Over);
    assert_eq!(
        actions,
        vec![
            Action::FindResolver,
            Action::Resolve,
            Action::ValidateBranch,
            Action::ProbeSession,
            Action::GatherContext,
            Action::EnsureWorktree,
            Action::PrepareLog,
            Action::AssemblePrompt,
            Action::Spawn,
            Action::ResolveWorkUnit,
            Action::InsertRecord,
            Action::Finish,
        ]
    );
    assert_eq!(actions.iter().filter(|a| **a == Action::Spawn).count(), 1);
}

#[test]
fn failed_spawn_rolls_back_a_new_worktree() {
    for created in [true, false] {
        let (_, actions) = play(
            FLAGS,
            &[
                Event::ResolverFound(true),
                Event::Resolved(Some(FACTS)),
                Event::BranchValid(true),
                Event::SessionAlive(false),
                Event::ContextReady,
                Event::WorktreeReady {
                    created,
                    is_meta: true,
                },
                Event::LogReady(true),
                Event::Assembled {
                    needs_default_branch: false,
                },
                Event::Spawned(false),
            ],
        );
        match actions.last().unwrap() {
            Action::Fail(f) => {
                assert_eq!(f.why, Why::StepFailed);
                assert_eq!(f.rollback, created);
                assert_eq!(f.cleanup, Cleanup::Temporary);
            }
            other => panic!("expected a failure, got {other:?}"),
        }
    }
}

#[test]
fn unrecorded_agents_are_stopped() {
    let (_, actions) = play(
        FLAGS,
        &[
            Event::ResolverFound(true),
            Event::Resolved(Some(FACTS)),
            Event::BranchValid(true),
            Event::SessionAlive(false),
            Event::ContextReady,
            Event::WorktreeReady {
                created: true,
                is_meta: false,
            },
            Event::LogReady(true),
            Event::Assembled {
                needs_default_branch: false,
            },
            Event::Spawned(true),
            Event::WorkUnitTried,
            Event::Inserted(false),
            Event::SessionKilled(true),
        ],
    );
    assert_eq!(actions[actions.len() - 2], Action::KillSession);
    assert!(matches!(actions.last(), Some(Action::Fail(f)) if f.cleanup == Cleanup::Recorded));
}

#[test]
fn dry_runs_end_with_a_preview() {
    let (_, actions) = play(
        RunFlags {
            dry_run: true,
            ..FLAGS
        },
        &[
            Event::ResolverFound(true),
            Event::Resolved(Some(FACTS)),
            Event::BranchValid(true),
            Event::SessionAlive(false),
        ],
    );
    assert_eq!(actions.last(), Some(&Action::Preview));
}

#[test]
fn refusals_are_explained() {
    let (_, actions) = play(
        RunFlags {
            ephemeral: true,
            ..FLAGS
        },
        &[],
    );
    assert!(
        matches!(actions[0], Action::Fail(f) if f.why == Why::EphemeralNeedsInline),
        "{actions:?}"
    );
    let (_, actions) = play(FLAGS, &[Event::ResolverFound(false)]);
    assert!(matches!(actions[1], Action::Fail(f) if f.why == Why::NoResolver));
    let (_, actions) = play(
        FLAGS,
        &[
            Event::ResolverFound(true),
            Event::Resolved(Some(Facts {
                directive: Directive::ReviewFix,
                ..FACTS
            })),
        ],
    );
    assert!(matches!(actions[2], Action::Fail(f) if f.why == Why::PrRequired));
    let (_, actions) = play(
        FLAGS,
        &[
            Event::ResolverFound(true),
            Event::Resolved(Some(FACTS)),
            Event::BranchValid(true),
            Event::SessionAlive(true),
        ],
    );
    assert!(matches!(actions[4], Action::Fail(f) if f.why == Why::SessionExists));
    for why in [
        Why::EphemeralNeedsInline,
        Why::NoResolver,
        Why::PrRequired,
        Why::SessionExists,
        Why::EphemeralNeedsTemplate,
        Why::UnsafeSlug,
        Why::DocumentNeedsSlug,
    ] {
        assert!(failure_message(why, Directive::ReviewFix, "sess", "slug").is_some());
    }
    assert!(failure_message(Why::StepFailed, Directive::ReviewFix, "sess", "slug").is_none());
}

#[test]
fn document_policy_needs_a_safe_slug() {
    for (slug, why) in [
        (SlugState::Missing, Why::DocumentNeedsSlug),
        (SlugState::Unsafe, Why::UnsafeSlug),
    ] {
        let (_, actions) = play(
            FLAGS,
            &[
                Event::ResolverFound(true),
                Event::Resolved(Some(Facts {
                    policy: Some(WorktreePolicy::Document),
                    slug,
                    ..FACTS
                })),
                Event::BranchValid(true),
                Event::SessionAlive(false),
                Event::ContextReady,
            ],
        );
        assert!(matches!(actions.last(), Some(Action::Fail(f)) if f.why == why));
    }
}

#[test]
fn policies_are_chosen() {
    assert_eq!(choose_policy(true, Some(WorktreePolicy::Branch)), WorktreePolicy::Current);
    assert_eq!(choose_policy(false, Some(WorktreePolicy::Root)), WorktreePolicy::Root);
    assert_eq!(choose_policy(false, None), WorktreePolicy::Branch);
}

#[test]
fn comments_lead_to_their_pull_request() {
    let (params, id, kind) = enrich_params(&map(&[(
        "comment",
        "https://github.com/org/repo/pull/42#issuecomment-1",
    )]));
    assert_eq!(params.get("pr"), Some(s("https://github.com/org/repo/pull/42")));
    assert_eq!(id, Some(s("1")));
    assert_eq!(kind, Some(s("issue")));
    let (params, _, _) = enrich_params(&map(&[
        ("comment", "https://github.com/org/repo/pull/42#issuecomment-1"),
        ("pr", "given"),
    ]));
    assert_eq!(params.get("pr"), Some(s("given")));
}

#[test]
fn inputs_have_precedence() {
    let params = map(&[("pr", "p"), ("task", "t"), ("slug", "l")]);
    assert_eq!(effective_pr_url(&Some(s("o")), &params), Some(s("o")));
    assert_eq!(effective_pr_url(&None, &params), Some(s("p")));
    assert_eq!(effective_pr_url(&Some(s("")), &params), Some(s("p")));
    assert_eq!(effective_pr_url(&Some(s("")), &map(&[("pr", "")])), None);
    assert_eq!(pick_limit(None, Some(2), Some(3), 4), 2);
    assert_eq!(pick_limit(None, None, None, 4), 4);
    assert_eq!(choose_document_slug(&None, &params), Some(s("t")));
    assert_eq!(choose_document_slug(&Some(s("x")), &params), Some(s("x")));
    assert_eq!(slug_state(&Some(s("../x"))), SlugState::Unsafe);
    assert_eq!(slug_state(&Some(s("tasks/x"))), SlugState::Safe);
    assert_eq!(slug_state(&None), SlugState::Missing);
    assert_eq!(first_path(&None, &Some(s("b")), "c"), "b");
    assert_eq!(status_of_exit(Some(0)), Status::Done);
    assert_eq!(status_of_exit(Some(3)), Status::Failed);
    assert_eq!(status_of_exit(None), Status::Running);
    assert!(adds_pr_context(&params, &None, &vec![]));
    assert!(!adds_pr_context(&params, &None, &vec![s("pr-context")]));
}

#[test]
fn repositories_have_precedence() {
    let asked = vec![s("a")];
    let env = Some(s(" e "));
    assert!(!needs_pr_lookup(&asked, &None));
    assert!(needs_pr_lookup(&vec![], &Some(s(" "))));
    assert_eq!(
        resolve_base_repos(&asked, &env, &Some(s("p")), &Some(s("c")), &Some(s("w"))),
        vec!["a"]
    );
    assert_eq!(
        resolve_base_repos(&vec![], &env, &Some(s("p")), &None, &None),
        vec!["e"]
    );
    assert_eq!(
        resolve_base_repos(&vec![], &None, &Some(s("p")), &Some(s("c")), &None),
        vec!["p"]
    );
    assert_eq!(
        resolve_base_repos(&vec![], &None, &None, &Some(s("c")), &Some(s("w"))),
        vec!["c"]
    );
}

#[test]
fn environment_is_sealed() {
    let overrides = map(&[
        ("AGENT_ALLOWED_PATHS", "/"),
        ("GITKB_ROOT", "/elsewhere"),
        ("KEEP", "1"),
    ]);
    let env = merge_env(&map(&[("KEEP", "0"), ("PROJECT", "p")]), &overrides);
    assert_eq!(env.get("KEEP"), Some(s("1")));
    assert_eq!(env.get("PROJECT"), Some(s("p")));
    let sealed = seal_env(&env, WorktreePolicy::Current, &overrides, "a/b", "/wt", "/kb");
    assert_eq!(sealed.get("GITKB_ROOT"), Some(s("/kb")));
    assert_eq!(sealed.get("GITKB_WORKSPACE"), Some(s("a--b")));
    assert_eq!(sealed.get("KEEP"), Some(s("1")));
    assert_ne!(sealed.get("AGENT_ALLOWED_PATHS"), Some(s("/")));
    assert!(sealed.get("AGENT_ALLOWED_PATHS").unwrap().contains("/wt"));
    let alone = seal_ephemeral_env(&overrides, "/cwd");
    assert!(alone.get("AGENT_ALLOWED_PATHS").unwrap().contains("/cwd"));
    assert!(!token_present(&env));
    assert!(token_present(&map(&[("GH_TOKEN", "t")])));
    assert_eq!(kb_workspace(WorktreePolicy::Root, &overrides, "b"), Some(s("main")));
}

#[test]
fn prompts_are_filled_in() {
    assert_eq!(deferred_placeholder("x"), "__ATC_DEFER_x__");
    let vars = vec![(s("x"), s("1")), (s("y"), s("2"))];
    assert_eq!(apply_variables("{{x}} __ATC_DEFER_y__ {{z}}", &vars), "1 2 {{z}}");
    assert_eq!(fill_worktree("{{worktree}}/a", "/wt"), "/wt/a");
    assert!(mentions_default_branch("__ATC_DEFER_default_branch__", &None));
    assert!(!mentions_default_branch("plain", &None));
    assert_eq!(fill_default_branch("on {{default_branch}}", "main"), "on main");
    assert!(prepend_sections(&vec![s("a"), s("b")], "p").ends_with('p'));
    assert_eq!(prepend_sections(&vec![], "p"), "p");
    assert!(meta_context_line(true, &vec![s("r")], "/wt").contains("r"));
    assert_eq!(meta_context_line(false, &vec![s("r")], "/wt"), "");
    assert_eq!(stdin_content(true, &Some(s("x")), "b"), None);
    assert_eq!(stdin_content(false, &Some(s("x")), "b"), Some(s("x")));
    assert_eq!(
        stdin_content(false, &None, "b"),
        Some(s("Non-task dispatch (b). All instructions are in the system prompt."))
    );
}

#[test]
fn rollback_uses_the_tool_that_made_the_worktree() {
    assert_eq!(
        rollback_args(true, "/wt"),
        vec!["git", "worktree", "remove", "--force", "/wt"]
    );
    assert_eq!(
        rollback_args(false, "/wt"),
        vec!["worktree", "remove", "--force", "/wt"]
    );
}

fn run_opts() -> RunOpts {
    RunOpts::plain(s("tasks/foo"), None, None)
}

#[test]
fn records_hold_what_was_dispatched() {
    let now = time("2026-05-04T12:00:00Z");
    let r = make_record(
        &resolved(),
        &run_opts(),
        "tasks/foo",
        "task",
        &Some(s("https://github.com/o/r/pull/1")),
        "/wt",
        "sess",
        "/log",
        None,
        &Some(s("wu-1")),
        &agent(),
        now,
    );
    assert_eq!(r.id, "tasks--foo@implement@1234567890-0001");
    assert_eq!(r.status, Status::Running);
    assert_eq!(r.pr_urls, vec!["https://github.com/o/r/pull/1"]);
    assert_eq!(r.work_unit_id, Some(s("wu-1")));
    let envelope = dispatch_envelope(&r, WorktreePolicy::Branch, None);
    assert_eq!(envelope.kind, "dispatch");
    assert_eq!(envelope.data.status, "running");
    assert!(!envelope.data.is_dry_run);
    let lines = dispatch_confirmation(&r, WorktreePolicy::Branch, &None);
    assert!(lines.iter().any(|l| l.contains("tasks--foo")));
    let tmp = make_tmp_record(&resolved(), &run_opts(), "task", "codex", now);
    assert_eq!(tmp.id, r.id);
}

#[test]
fn previews_show_the_plan() {
    let lines = dry_run(
        &resolved(),
        &Preview {
            pr_url: None,
            budget: s("5.00"),
            turns: 10,
            resolver: s("task"),
            providers: s("none"),
            ephemeral: false,
            policy: WorktreePolicy::Branch,
            repos: vec![],
            path: s("/tmp/wt/tasks--foo"),
            hint: None,
        },
    );
    assert!(lines.iter().any(|l| l.contains("/tmp/wt/tasks--foo")));
    assert!(lines.iter().any(|l| l.contains("5.00")));
}

#[test]
fn work_units_are_found_before_they_are_made() {
    let (state, query) = resolve_work_unit_start(true);
    assert_eq!(query, Query::FindByTask);
    let (state, query) = resolve_work_unit(state, true, Answer::NotFound);
    assert_eq!(query, Query::FindByBranch);
    let (_, query) = resolve_work_unit(state, true, Answer::NotFound);
    assert_eq!(query, Query::InsertNew);
    let (_, query) = resolve_work_unit_start(false);
    assert_eq!(query, Query::FindByBranch);
}

#[test]
fn work_units_are_made() {
    let now = time("2026-05-04T12:00:00Z");
    let unit = new_work_unit(s("wu-1"), &Some(s("t")), "b", &vec![s("r")], now);
    assert_eq!(unit.branch, Some(s("b")));
    assert_eq!(unit.repos, vec!["r"]);
    assert_eq!(repos_to_add(&vec![s("r"), s("q")], &vec![s("r")]), vec!["q"]);
    assert_eq!(work_unit_task(&None, &map(&[("task", "t")])), Some(s("t")));
    assert_ne!(generate_work_unit_id(1, 1, 2), generate_work_unit_id(1, 2, 2));
    assert!(generate_work_unit_id(1, 1, 2).starts_with("wu-"));
}

#[test]
fn prompts_resolve_to_themselves() {
    let r = PromptResolver.resolve("say hi", None, 12, 3, 4);
    assert_eq!(r.branch, "prompt-12-3-4");
    assert_eq!(r.system_prompt, "say hi");
    assert_eq!(r.dispatch_id, "prompt-12-3-4@implement@12-0007");
}

#[test]
fn places_follow_the_policy() {
    let place = |policy, found| choose_run_place(policy, "/cwd", "/ws", found);
    assert_eq!(place(WorktreePolicy::Current, Some("/x")), "/cwd");
    assert_eq!(place(WorktreePolicy::Root, Some("/x")), "/ws");
    assert_eq!(place(WorktreePolicy::Document, Some("/doc")), "/doc");
    assert_eq!(place(WorktreePolicy::Document, None), "/ws");
    assert_eq!(place(WorktreePolicy::Branch, Some("/wt")), "/wt");
}

#[test]
fn ephemeral_places_need_no_worktree() {
    let place = |policy, document| choose_ephemeral_place(policy, "/cwd", "/ws", document);
    assert_eq!(place(WorktreePolicy::Root, None), "/ws");
    assert_eq!(place(WorktreePolicy::Document, Some("/doc")), "/doc");
    assert_eq!(place(WorktreePolicy::Document, None), "/cwd");
    assert_eq!(place(WorktreePolicy::Branch, Some("/doc")), "/cwd");
    assert_eq!(place(WorktreePolicy::Current, None), "/cwd");
}

#[test]
fn previews_show_the_root_of_the_document() {
    let root = |policy, document| choose_preview_root(policy, "/ws", document);
    assert_eq!(root(WorktreePolicy::Document, Some("/doc")), "/doc");
    assert_eq!(root(WorktreePolicy::Document, None), "/ws");
    assert_eq!(root(WorktreePolicy::Branch, Some("/doc")), "/ws");
}

#[test]
fn environment_files_must_lie_in_the_worktree() {
    assert_eq!(check_env_file("/wt/.dispatch/env", "/wt"), Ok(()));
    assert_eq!(
        check_env_file("/etc/env", "/wt"),
        Err(".dispatch/env path escapes worktree: /etc/env".to_string())
    );
}

#[test]
fn the_kb_root_is_named_once_however_it_is_written() {
    let sealed = seal_env(
        &StrMap::new(),
        WorktreePolicy::Root,
        &StrMap::new(),
        "b",
        "/ws",
        "/ws/",
    );
    let plain = seal_env(
        &StrMap::new(),
        WorktreePolicy::Root,
        &StrMap::new(),
        "b",
        "/ws",
        "/ws",
    );
    assert_eq!(
        sealed.get("AGENT_ALLOWED_PATHS"),
        plain.get("AGENT_ALLOWED_PATHS")
    );
}
