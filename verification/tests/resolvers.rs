use atc::resolvers::prompt::PromptResolver;
use atc::resolvers::task::{
    self, claim_error_message, directive_from_field, discover_kb_root, is_searched,
    not_found_error, paths_of_entries, plan_release, project_paths, resolve_directive, show_error,
    DirectiveField, Probe, ProjectEntry, ReleasePlan, Siblings, TaskFacts, TaskResolver,
};
use atc::resolvers::template::{
    self, build_params, check_name, check_required, choose_branch, deferred_vars, is_ref_safe,
    judge_name, list_templates, plan_branch, templates_dir, TemplateResolver,
};
use atc::pipeline::prompt::{apply_variables, deferred_placeholder};
use atc::pipeline::resolver_by_name;
use atc::resolvers::{build_resolvers, make_resolver, Resolver, ResolverConfig};
use atc::strmap::StrMap;
use atc::types::{Directive, DispatchRecord, HealthChecks, Status, Timestamp};

fn s(t: &str) -> String {
    t.to_string()
}

fn list(names: &[&str]) -> Vec<String> {
    names.iter().map(|n| s(n)).collect()
}

fn map(entries: &[(&str, &str)]) -> StrMap {
    let mut m = StrMap::new();
    for (k, v) in entries {
        m.insert(k, v);
    }
    m
}

/// A template with its parameters in place, and marks for what comes later.
fn render(template: &str, params: &StrMap, deferred: &[String]) -> String {
    let mut vars = params.entries.clone();
    for name in deferred {
        vars.push((name.clone(), deferred_placeholder(name)));
    }
    apply_variables(template, &vars)
}

#[test]
fn names_of_projects_may_hold_any_character() {
    let listing = r#"{"a/b": "x/y", "c~1": {"path": "z"}, "d": {"path": 3}, "e": "/out"}"#;
    assert_eq!(project_paths(listing), vec!["x/y", "z"]);
    assert!(project_paths("[\"a\"]").is_empty());
    assert!(project_paths("{").is_empty());
}

#[test]
fn test_build_resolvers_default_order() {
    let resolvers = build_resolvers(&ResolverConfig::default());
    assert_eq!(resolvers.len(), 3);
    assert_eq!(resolvers[0].name(), "task");
    assert_eq!(resolvers[1].name(), "template");
    assert_eq!(resolvers[2].name(), "prompt");
}

#[test]
fn test_build_resolvers_task_disabled() {
    let config = ResolverConfig {
        task_enabled: false,
        ..ResolverConfig::default()
    };
    let resolvers = build_resolvers(&config);
    assert_eq!(resolvers.len(), 2);
    assert_eq!(resolvers[0].name(), "template");
    assert_eq!(resolvers[1].name(), "prompt");
}

#[test]
fn test_build_resolvers_custom_order() {
    let config = ResolverConfig {
        order: list(&["prompt", "template"]),
        ..ResolverConfig::default()
    };
    let resolvers = build_resolvers(&config);
    assert_eq!(resolvers.len(), 2);
    assert_eq!(resolvers[0].name(), "prompt");
    assert_eq!(resolvers[1].name(), "template");
}

#[test]
fn test_build_resolvers_all_disabled() {
    let config = ResolverConfig {
        task_enabled: false,
        template_enabled: false,
        prompt_enabled: false,
        ..ResolverConfig::default()
    };
    assert!(build_resolvers(&config).is_empty());
}

#[test]
fn test_build_resolvers_unknown_name_skipped() {
    let config = ResolverConfig {
        order: list(&["nonexistent", "task", "typo"]),
        ..ResolverConfig::default()
    };
    let resolvers = build_resolvers(&config);
    assert_eq!(resolvers.len(), 1);
    assert_eq!(resolvers[0].name(), "task");
}

#[test]
fn resolvers_are_made_by_name() {
    for r in [Resolver::Task, Resolver::Template, Resolver::Prompt] {
        assert_eq!(make_resolver(r.name()), Some(r));
        assert_eq!(resolver_by_name(r.name()), Some(r));
    }
    assert_eq!(make_resolver("nope"), None);
}

#[test]
fn test_prompt_resolver_name() {
    let resolver = PromptResolver;
    assert_eq!(resolver.name(), "prompt");
}

#[test]
fn test_can_resolve_always_true() {
    let resolver = PromptResolver;
    assert!(resolver.can_resolve("anything"));
    assert!(resolver.can_resolve(""));
}

#[test]
fn test_resolve_prompt() {
    let resolver = PromptResolver;
    let result = resolver.resolve(
        "Fix the bug in auth.rs",
        Some(Directive::Implement),
        1_700_000_000_000,
        2,
        3,
    );
    assert_eq!(result.system_prompt, "Fix the bug in auth.rs");
    assert_eq!(result.directive, Directive::Implement);
    assert!(result.task_slug.is_none());
    assert!(result.branch.starts_with("prompt-"));
    assert!(result.dispatch_id.contains("@implement@"));
}

#[test]
fn test_resolve_prompt_default_directive() {
    let result = PromptResolver.resolve("test", None, 1_700_000_000_000, 2, 3);
    assert_eq!(result.directive, Directive::Implement);
}

#[test]
fn test_task_resolver_name() {
    let resolver = TaskResolver::new();
    assert_eq!(resolver.name(), "task");
}

#[test]
fn test_discover_meta_projects_meta_not_available() {
    let projects = project_paths("");
    assert!(
        projects.is_empty(),
        "expected empty vec when meta is not available"
    );
}

#[test]
fn test_discover_kb_root_returns_none_for_nonexistent() {
    let result = discover_kb_root("/tmp/x", false, &vec![]);
    assert!(result.is_none());
}

#[test]
fn tasks_are_found_in_the_primary_base_first() {
    let probes = || {
        vec![
            Probe {
                path: s("/a"),
                hit: false,
            },
            Probe {
                path: s("/b"),
                hit: true,
            },
            Probe {
                path: s("/c"),
                hit: true,
            },
        ]
    };
    assert_eq!(discover_kb_root("/p", true, &probes()), Some(s("/p")));
    assert_eq!(discover_kb_root("/p", false, &probes()), Some(s("/b")));
    assert!(is_searched(false, true));
    assert!(!is_searched(true, true));
    assert!(!is_searched(false, false));
}

#[test]
fn project_lists_are_read() {
    let paths = project_paths(
        "{\"one\":{\"path\":\"a\"},\"out\":\"../x\",\"three\":\"b/c\",\"two\":{\"name\":\"x\"}}",
    );
    assert_eq!(paths, vec!["a", "b/c"]);
    assert!(project_paths("not json").is_empty());
    assert_eq!(
        paths_of_entries(&vec![
            ProjectEntry {
                itself: Some(s("plain")),
                path: None
            },
            ProjectEntry {
                itself: None,
                path: Some(s("obj"))
            },
            ProjectEntry {
                itself: None,
                path: None
            },
        ]),
        vec!["plain", "obj"]
    );
}

#[test]
fn discovered_places_are_remembered_once() {
    let mut r = TaskResolver::new();
    r.remember("tasks/a", s("/kb"));
    assert_eq!(r.recall("tasks/b"), None);
    assert_eq!(r.recall("tasks/a"), Some(s("/kb")));
    assert_eq!(r.recall("tasks/a"), None);
}

#[test]
fn directives_are_read_from_tasks() {
    let read = |json: &str| resolve_directive(&json.as_bytes().to_vec(), "tasks/a");
    assert!(read("{}").unwrap_err().contains("no directive specified"));
    assert!(read("nonsense").is_err());
    assert_eq!(
        directive_from_field(&DirectiveField::One(s("research")), "tasks/a"),
        Ok(Directive::Research)
    );
    assert_eq!(
        directive_from_field(&DirectiveField::Several(Some(s("close"))), "tasks/a"),
        Ok(Directive::Close)
    );
    assert!(directive_from_field(&DirectiveField::Absent, "tasks/a").is_err());
    assert!(directive_from_field(&DirectiveField::One(s("nope")), "tasks/a").is_err());
    assert!(directive_from_field(&DirectiveField::Unreadable(s("bad")), "tasks/a").is_err());
}

#[test]
fn task_errors_name_the_task() {
    assert!(show_error("tasks/a", "boom").contains("tasks/a"));
    assert!(not_found_error("tasks/a").contains("tasks/a"));
    assert!(claim_error_message("tasks/a", "taken").contains("taken"));
}

fn play(facts: TaskFacts, answers: &[bool]) -> Vec<task::Action> {
    let (mut flow, first) = task::start(facts);
    let mut actions = vec![first];
    for ok in answers {
        let (next, action) = flow.step(*ok);
        flow = next;
        actions.push(action);
    }
    actions
}

const TASK_FACTS: TaskFacts = TaskFacts {
    dry_run: false,
    remembered: false,
    directive_given: false,
};

#[test]
fn tasks_are_claimed_and_rendered() {
    assert_eq!(
        play(TASK_FACTS, &[true, true, true, true]),
        vec![
            task::Action::Discover,
            task::Action::ReadDirective,
            task::Action::Claim,
            task::Action::Render,
            task::Action::Finish,
        ]
    );
}

#[test]
fn failed_rendering_gives_the_claim_back() {
    let actions = play(TASK_FACTS, &[true, true, true, false, true]);
    assert_eq!(actions[4], task::Action::Unassign);
    assert_eq!(actions[5], task::Action::Fail);
}

#[test]
fn dry_runs_do_not_claim() {
    let actions = play(
        TaskFacts {
            dry_run: true,
            ..TASK_FACTS
        },
        &[true, true, true],
    );
    assert!(!actions.contains(&task::Action::Claim));
}

fn task_record() -> DispatchRecord {
    let at = Timestamp { secs: 0, nanos: 0 };
    DispatchRecord {
        id: s("a"),
        task_slug: Some(s("tasks/a")),
        branch: s("tasks--a"),
        worktree_path: s("/wt"),
        session: s("s"),
        log_file: s("/l"),
        status: Status::Stopped,
        directive: Directive::Implement,
        retries: 0,
        resolver: s("task"),
        pr_urls: vec![],
        no_worktree: false,
        original_input: None,
        checks: HealthChecks {
            agent_exited_clean: false,
            branch_pushed: false,
            pr_created: false,
            ci_passed: false,
            reviews_approved: false,
            threads_resolved: false,
        },
        kb_root: Some(s("/kb")),
        cost: None,
        num_turns: None,
        duration_ms: None,
        artifacts: None,
        work_unit_id: None,
        agent_provider: s("codex"),
        agent_session_id: None,
        agent_transcript_cwd: None,
        resume_of_dispatch_id: None,
        agent_capabilities: None,
        terminal_locator: None,
        dispatched_at: at,
        updated_at: at,
    }
}

#[test]
fn claims_are_kept_while_siblings_work() {
    let r = task_record();
    assert_eq!(
        plan_release(&r, Siblings::Known { live: true }),
        ReleasePlan::Keep
    );
    assert_eq!(
        plan_release(&r, Siblings::Known { live: false }),
        ReleasePlan::Release
    );
}

#[test]
fn resolved_tasks_carry_their_base() {
    let r = task::resolved("tasks/a", s("do it"), Directive::Implement, "/kb", 12, 3, 4);
    assert_eq!(r.branch, "tasks--a");
    assert_eq!(r.task_slug, Some(s("tasks/a")));
    assert_eq!(r.kb_root, Some(s("/kb")));
}

#[test]
fn test_template_resolver_name() {
    let resolver = TemplateResolver;
    assert_eq!(resolver.name(), "template");
}

#[test]
fn test_list_templates_empty_dir() {
    let names = list_templates(&vec![]);
    assert!(names.is_empty());
}

#[test]
fn test_list_templates_finds_md_files() {
    let names = list_templates(&list(&["review.md", "deploy.md", "notes.txt"]));
    assert_eq!(names, vec!["deploy", "review"]);
}

#[test]
fn test_can_resolve_rejects_path_traversal() {
    let resolver = TemplateResolver;
    assert!(!resolver.can_resolve("../secret", true));
    assert!(!resolver.can_resolve("../../etc/passwd", true));
    assert!(!resolver.can_resolve("sub/dir", true));
    assert!(!resolver.can_resolve("sub\\dir", true));
    assert!(!resolver.can_resolve("..", true));
}

#[test]
fn test_can_resolve_rejects_invalid_refname_chars() {
    let resolver = TemplateResolver;
    assert!(!resolver.can_resolve("my template", true));
    assert!(!resolver.can_resolve("star*", true));
    assert!(!resolver.can_resolve("colon:", true));
    assert!(!resolver.can_resolve("q?mark", false));
    assert!(!resolver.can_resolve("tilde~1", false));
}

#[test]
fn test_is_ref_safe() {
    assert!(is_ref_safe("review"));
    assert!(is_ref_safe("my-template"));
    assert!(is_ref_safe("v1.0"));
    assert!(!is_ref_safe("has space"));
    assert!(!is_ref_safe("star*"));
    assert!(!is_ref_safe("colon:x"));
    assert!(!is_ref_safe("q?mark"));
    assert!(!is_ref_safe("caret^"));
    assert!(!is_ref_safe("tilde~"));
    assert!(!is_ref_safe("bracket[0]"));
    assert!(!is_ref_safe(""));
    assert!(!is_ref_safe(".hidden"));
    assert!(!is_ref_safe("trail."));
    assert!(!is_ref_safe("dbl..dot"));
}

#[test]
fn test_resolve_rejects_path_traversal() {
    let result = check_name("../secret");
    assert!(result.is_err());
    assert!(result.unwrap_err().to_string().contains("path separators"));
}

#[test]
fn refused_names_are_shown_with_quotes() {
    assert_eq!(
        check_name("a b\n").unwrap_err(),
        "template name contains characters invalid in Git refnames: \"a b\\n\""
    );
    assert!(check_name("review").is_ok());
    assert_eq!(
        judge_name("a/b", "<a/b>").unwrap_err(),
        "template name must not contain path separators or '..': <a/b>"
    );
}

#[test]
fn test_can_resolve_existing_template() {
    let resolver = TemplateResolver;
    assert!(resolver.can_resolve("review", true));
    assert!(!resolver.can_resolve("nonexistent", false));
}

#[test]
fn test_resolve_template() {
    let params = build_params(&map(&[("pr_url", "https://github.com/org/repo/pull/1")]));
    let rendered = render("Review PR: {{pr_url}}", &params, &deferred_vars(&vec![]));
    let d = template::resolve_directive(None, &Some(s("review-fix")), &vec![], "review");
    let branch = choose_branch(
        &plan_branch(&None, &params),
        &None,
        &None,
        "review",
        1,
        3,
        4,
    );
    let result = template::resolved(rendered, d.unwrap(), branch, 1, 3, 4);
    assert_eq!(result.directive, Directive::ReviewFix);
    assert!(result.is_template);
    let body = result.template_body.as_deref().unwrap();
    assert!(
        body.contains("https://github.com/org/repo/pull/1"),
        "expected PR URL in template_body, got: {}",
        body
    );
    assert!(
        result.system_prompt.is_empty(),
        "system_prompt should be empty for template dispatch"
    );
    assert!(result.task_slug.is_none());
    assert!(
        result.branch.starts_with("tpl--review-"),
        "branch should be made up, got: {}",
        result.branch
    );
}

#[test]
fn test_resolve_template_with_deferred_provider_var() {
    let params = build_params(&map(&[("pr", "https://github.com/org/repo/pull/42")]));
    assert!(check_required(&list(&["pr"]), &params, "pr-review").is_ok());
    let deferred = deferred_vars(&list(&["prefetch"]));
    assert_eq!(deferred, vec!["prefetch", "worktree"]);
    let rendered = render("PR: {{pr}}\n\n{{prefetch}}", &params, &deferred);
    let d = template::resolve_directive(None, &Some(s("review-fix")), &vec![], "pr-review");
    let result = template::resolved(rendered, d.unwrap(), s("b"), 1, 3, 4);
    assert!(result.is_template);
    let body = result.template_body.as_deref().unwrap();
    assert!(
        body.contains("https://github.com/org/repo/pull/42"),
        "expected PR URL in template_body, got: {}",
        body
    );
    assert!(
        body.contains("__ATC_DEFER_prefetch__"),
        "expected deferred placeholder for prefetch, got: {}",
        body
    );
    assert_eq!(result.directive, Directive::ReviewFix);
}

#[test]
fn test_resolve_template_directive_singular() {
    let d = template::resolve_directive(None, &Some(s("close")), &vec![], "close").unwrap();
    assert_eq!(d, Directive::Close);
    let result = template::resolved(s("Close it."), d, s("b"), 1, 3, 4);
    assert_eq!(result.directive, Directive::Close);
    assert!(result.is_template);
    assert_eq!(result.template_body.as_deref(), Some("Close it."));
    assert!(result.system_prompt.is_empty());
}

#[test]
fn test_resolve_template_required_params_missing() {
    let result = check_required(&list(&["pr"]), &map(&[]), "pr-review");
    assert!(result.is_err());
    let err = result.unwrap_err();
    assert!(
        err.contains("requires --param pr="),
        "expected required_params error, got: {}",
        err
    );
}

#[test]
fn test_resolve_template_required_params_provided() {
    let params = build_params(&map(&[("pr", "https://github.com/org/repo/pull/1")]));
    assert!(check_required(&list(&["pr"]), &params, "pr-review").is_ok());
    assert_eq!(params.get("comment"), Some(s("")));
    let deferred = deferred_vars(&list(&["prefetch"]));
    let rendered = render("Review PR: {{pr}}\n\n{{prefetch}}", &params, &deferred);
    let d = template::resolve_directive(None, &Some(s("review-fix")), &vec![], "pr-review");
    let result = template::resolved(rendered, d.unwrap(), s("b"), 1, 3, 4);
    assert_eq!(result.directive, Directive::ReviewFix);
    assert!(result.is_template);
    let body = result.template_body.as_deref().unwrap();
    assert!(body.contains("https://github.com/org/repo/pull/1"));
}

#[test]
fn test_resolve_all_six_templates() {
    for (template, named, directive) in [
        ("pr-review", "review-fix", Directive::ReviewFix),
        ("pr-comment", "pr-comments", Directive::PrComments),
        ("branch-review", "review-fix", Directive::ReviewFix),
        ("close", "close", Directive::Close),
        ("push-branch", "implement", Directive::Implement),
        ("swot", "research", Directive::Research),
    ] {
        let d = template::resolve_directive(None, &Some(s(named)), &vec![], template);
        let r = template::resolved(s("body"), d.unwrap(), s("b"), 1, 3, 4);
        assert_eq!(r.directive, directive);
        assert!(r.is_template);
    }
    let required = list(&["pr"]);
    for pr in ["https://example.com/pull/1", "https://example.com/pull/2"] {
        let params = build_params(&map(&[("pr", pr)]));
        assert!(check_required(&required, &params, "pr-review").is_ok());
        let rendered = render("Review {{pr}}\n\n{{prefetch}}", &params, &list(&["prefetch"]));
        assert!(rendered.contains(pr));
    }
}

#[test]
fn test_resolve_template_cli_directive_override() {
    let d = template::resolve_directive(
        Some(Directive::Implement),
        &Some(s("research")),
        &vec![],
        "swot",
    );
    assert_eq!(d, Ok(Directive::Implement));
}

#[test]
fn test_resolve_template_unknown_directive_errors() {
    let result =
        template::resolve_directive(None, &Some(s("nonexistent-directive")), &vec![], "bad");
    assert!(result.is_err());
    let err = result.unwrap_err();
    assert!(
        err.contains("unknown directive"),
        "expected unknown directive error, got: {}",
        err
    );
}

#[test]
fn made_up_branches_are_told_apart() {
    let prompt = |ms: i64, pid: u32, seq: u32| PromptResolver.resolve("x", None, ms, pid, seq).branch;
    assert_eq!(prompt(1, 23, 4), "prompt-1-23-4");
    assert_ne!(prompt(1, 23, 4), prompt(12, 3, 4));
    assert_ne!(prompt(1, 23, 4), prompt(1, 23, 5));
    let current = plan_branch(&None, &map(&[]));
    let made = |name: &str, seq: u32| choose_branch(&current, &None, &None, name, 1, 2, seq);
    assert_eq!(made("review", 11), "tpl--review-1-2-11");
    assert_ne!(made("review", 11), made("review-1-2", 1));
}

#[test]
fn templates_choose_a_branch() {
    let none = map(&[]);
    let current = plan_branch(&None, &none);
    assert_eq!(
        choose_branch(&current, &None, &Some(s("feat/x\n")), "review", 1, 2, 3),
        "feat/x"
    );
    assert_eq!(
        choose_branch(&current, &None, &Some(s("main")), "review", 1, 2, 3),
        "tpl--review-1-2-3"
    );
    let given = plan_branch(&None, &map(&[("branch", "b")]));
    assert_eq!(choose_branch(&given, &None, &None, "review", 1, 2, 3), "b");
    let head = plan_branch(&Some(s("url")), &none);
    assert_eq!(choose_branch(&head, &Some(s("h")), &None, "review", 1, 2, 3), "h");
    assert_eq!(templates_dir("templates", Some("/c")), "/c/templates");
}

#[test]
fn templates_are_checked_in_order() {
    let walk = |plan: &template::BranchPlan, answers: &[bool]| -> Vec<template::Action> {
        let (mut flow, mut action) = template::start(template::template_facts(plan));
        let mut done = vec![action];
        for ok in answers {
            (flow, action) = flow.step(*ok);
            done.push(action);
        }
        done
    };
    let given = plan_branch(&None, &map(&[("branch", "b")]));
    assert_eq!(
        walk(&given, &[true; 5]),
        vec![
            template::Action::CheckName,
            template::Action::Read,
            template::Action::CheckParams,
            template::Action::Render,
            template::Action::ChooseDirective,
            template::Action::Finish,
        ]
    );
    let head = plan_branch(&Some(s("url")), &map(&[]));
    let asked = walk(&head, &[true, true, true, true, true, false]);
    assert_eq!(asked[5..], [template::Action::AskHead, template::Action::Finish]);
    let current = plan_branch(&None, &map(&[]));
    let asked = walk(&current, &[true, true, true, true, true, false]);
    assert_eq!(asked[5..], [template::Action::AskCurrent, template::Action::Finish]);
    for n in 0..5 {
        let mut answers = vec![true; n];
        answers.push(false);
        assert_eq!(walk(&current, &answers).last(), Some(&template::Action::Fail));
    }
}
