use atc::dispatch::{
    build_dispatch_id, build_git_worktree_args, build_meta_worktree_args, check_worktree_collision,
    collision_message, compute_allowed_paths, derive_branch, derive_pr_url_from_comment,
    diag_content, discover_meta, ensure_worktree, extract_pr_head_branch, find_listed_worktree,
    find_repo, find_worktree_for_branch, is_passed_over, meta_of_entries, named_output,
    parse_comment_url, plan_worktree, repository_of_pr, resolve_document_workspace,
    resolve_pr_repo_path, select_from_matches, selected_workspace, token_from_env, token_of_answer,
    validate_branch_name, worktree_path, worktree_search_paths, Collision, MetaEntry, Project,
    ToolAnswer, WorkspaceEntry, WorkspaceScan, WorktreeOpts, WorktreePlan,
};
use atc::types::Directive;

fn s(t: &str) -> String {
    t.to_string()
}

#[test]
fn test_derive_branch() {
    assert_eq!(derive_branch("tasks/gitkb-42"), "tasks--gitkb-42");
    assert_eq!(derive_branch("tasks/gitkb-264"), "tasks--gitkb-264");
    assert_eq!(
        derive_branch("tasks/deep/nested/slug"),
        "tasks--deep--nested--slug"
    );
    assert_eq!(derive_branch("simple"), "simple");
}

#[test]
fn test_derive_branch_edge_cases() {
    assert_eq!(derive_branch(""), "");
    assert_eq!(derive_branch("tasks/"), "tasks--");
    assert_eq!(derive_branch("/tasks"), "--tasks");
    assert_eq!(derive_branch("a//b"), "a----b");
    assert_eq!(derive_branch("no-slashes-here"), "no-slashes-here");
}

#[test]
fn test_build_dispatch_id_format() {
    let id = build_dispatch_id(
        "tasks--gitkb-42",
        Directive::Implement,
        1_700_000_000_123,
        77,
        0,
    );
    let parts: Vec<&str> = id.split('@').collect();
    assert_eq!(parts.len(), 3);
    assert_eq!(parts[0], "tasks--gitkb-42");
    assert_eq!(parts[1], "implement");
    let ts_rand: Vec<&str> = parts[2].split('-').collect();
    assert_eq!(
        ts_rand.len(),
        2,
        "expected ts-rand format, got: {}",
        parts[2]
    );
    let ts: i64 = ts_rand[0].parse().expect("timestamp should be a number");
    assert!(ts > 0);
    assert_eq!(ts_rand[1].len(), 4);
    u16::from_str_radix(ts_rand[1], 16).expect("suffix should be valid hex");
}

#[test]
fn test_build_dispatch_id_uniqueness() {
    let id1 = build_dispatch_id("tasks--foo", Directive::Implement, 1_700_000_000_123, 77, 0);
    let id2 = build_dispatch_id("tasks--foo", Directive::Implement, 1_700_000_000_123, 77, 1);
    assert_ne!(id1, id2, "consecutive dispatch IDs should differ");
}

#[test]
fn test_build_dispatch_id_sanitizes_slashes() {
    let id = build_dispatch_id(
        "fix/simplify-rebase-msg",
        Directive::ReviewFix,
        1_700_000_000_123,
        77,
        0,
    );
    assert!(
        !id.contains('/'),
        "dispatch ID must not contain slashes (would create subdirs in log path), got: {id}"
    );
    assert!(
        id.starts_with("fix--simplify-rebase-msg@review-fix@"),
        "expected sanitized branch in ID, got: {id}"
    );
}

#[test]
fn dispatch_id_is_exact() {
    assert_eq!(
        build_dispatch_id("a/b", Directive::Research, 12, 0x1_0001, 2),
        "a--b@research@12-0003"
    );
    assert_eq!(
        build_dispatch_id("b", Directive::Close, -5, 0xabcd, 0),
        "b@close@-5-abcd"
    );
}

#[test]
fn test_compute_allowed_paths() {
    let result = compute_allowed_paths("/tmp/wt", &vec![]);
    assert!(result.contains("/tmp/wt"));
    assert!(result.contains("/tmp"));
    assert!(result.contains("/private/tmp"));

    let result = compute_allowed_paths("/tmp/wt", &vec!["/extra/path".to_string()]);
    assert!(result.contains("/extra/path"));
}

#[test]
fn test_derive_branch_shell_metacharacters() {
    assert_eq!(derive_branch("tasks/$(whoami)"), "tasks--$(whoami)");
    assert_eq!(derive_branch("tasks/;rm -rf /"), "tasks--;rm -rf --");
}

#[test]
fn test_derive_branch_double_hyphen_invariant() {
    assert_eq!(derive_branch("tasks/a--b"), "tasks--a--b");
}

fn project(path: Option<&str>, repo: &str, projects: Option<Vec<Project>>) -> Project {
    Project {
        path: path.map(s),
        repo: Some(s(repo)),
        projects,
    }
}

fn resolve_pr_repo_path_sync(projects: &Vec<Project>, target: &str) -> Option<String> {
    find_repo(projects, "", target)
}

#[test]
fn test_find_repo_nested_meta_workspace() {
    let json = vec![
        project(
            Some("clients"),
            "git@github.com:harmony-labs/harmony-clients.git",
            Some(vec![
                project(
                    Some("desktop"),
                    "git@github.com:harmony-labs/harmony-desktop.git",
                    None,
                ),
                project(
                    Some("mobile"),
                    "https://github.com/harmony-labs/harmony-mobile.git",
                    None,
                ),
            ]),
        ),
        project(
            Some("open-source"),
            "git@github.com:harmony-labs/harmony-oss.git",
            Some(vec![
                project(Some("atc"), "git@github.com:harmony-labs/atc.git", None),
                project(
                    Some("gitkb"),
                    "git@github.com:harmony-labs/harmony-gitkb.git",
                    Some(vec![project(
                        Some("core"),
                        "git@github.com:harmony-labs/gitkb-core.git",
                        None,
                    )]),
                ),
            ]),
        ),
        project(
            Some("platform"),
            "git@github.com:harmony-labs/harmony-platform.git",
            Some(vec![project(
                Some("api"),
                "https://github.com/harmony-labs/harmony-api",
                None,
            )]),
        ),
    ];

    assert_eq!(
        resolve_pr_repo_path_sync(&json, "harmony-labs/harmony-desktop"),
        Some("clients/desktop".to_string())
    );
    assert_eq!(
        resolve_pr_repo_path_sync(&json, "harmony-labs/atc"),
        Some("open-source/atc".to_string())
    );
    assert_eq!(
        resolve_pr_repo_path_sync(&json, "harmony-labs/harmony-api"),
        Some("platform/api".to_string())
    );
    assert_eq!(
        resolve_pr_repo_path_sync(&json, "harmony-labs/gitkb-core"),
        Some("open-source/gitkb/core".to_string())
    );
    assert_eq!(
        resolve_pr_repo_path_sync(&json, "harmony-labs/harmony-mobile"),
        Some("clients/mobile".to_string())
    );
    assert_eq!(
        resolve_pr_repo_path_sync(&json, "harmony-labs/nonexistent"),
        None
    );
    assert_eq!(
        resolve_pr_repo_path_sync(&json, "harmony-labs/harmony-clients"),
        Some("clients".to_string())
    );
}

#[test]
fn test_find_repo_skips_missing_path_and_unsafe_entries() {
    let json = vec![
        project(None, "git@github.com:org/no-path.git", None),
        project(Some("../escaped"), "git@github.com:org/escaped.git", None),
        project(Some("/etc/passwd"), "git@github.com:org/absolute.git", None),
        project(Some("."), "git@github.com:org/dot.git", None),
        project(Some("valid-repo"), "git@github.com:org/valid.git", None),
    ];
    assert_eq!(resolve_pr_repo_path_sync(&json, "org/no-path"), None);
    assert_eq!(resolve_pr_repo_path_sync(&json, "org/escaped"), None);
    assert_eq!(resolve_pr_repo_path_sync(&json, "org/absolute"), None);
    assert_eq!(resolve_pr_repo_path_sync(&json, "org/dot"), None);
    assert_eq!(
        resolve_pr_repo_path_sync(&json, "org/valid"),
        Some("valid-repo".to_string())
    );
}

#[test]
fn test_parse_comment_url_issue_comment() {
    let (id, ctype) = parse_comment_url("https://github.com/org/repo/pull/42#issuecomment-123456");
    assert_eq!(id.as_deref(), Some("123456"));
    assert_eq!(ctype.as_deref(), Some("issue"));
}

#[test]
fn test_parse_comment_url_review_comment() {
    let (id, ctype) = parse_comment_url("https://github.com/org/repo/pull/42#discussion_r789012");
    assert_eq!(id.as_deref(), Some("789012"));
    assert_eq!(ctype.as_deref(), Some("review_comment"));
}

#[test]
fn test_parse_comment_url_review() {
    let (id, ctype) =
        parse_comment_url("https://github.com/org/repo/pull/42#pullrequestreview-456789");
    assert_eq!(id.as_deref(), Some("456789"));
    assert_eq!(ctype.as_deref(), Some("review"));
}

#[test]
fn test_parse_comment_url_no_fragment() {
    let (id, ctype) = parse_comment_url("https://github.com/org/repo/pull/42");
    assert!(id.is_none());
    assert!(ctype.is_none());
}

#[test]
fn test_parse_comment_url_unknown_fragment() {
    let (id, ctype) = parse_comment_url("https://github.com/org/repo/pull/42#unknown-fragment");
    assert!(id.is_none());
    assert!(ctype.is_none());
}

#[test]
fn test_derive_pr_url_from_comment() {
    assert_eq!(
        derive_pr_url_from_comment("https://github.com/org/repo/pull/42#issuecomment-123"),
        Some("https://github.com/org/repo/pull/42".to_string())
    );
    assert_eq!(
        derive_pr_url_from_comment("https://github.com/org/repo/pull/42#discussion_r789"),
        Some("https://github.com/org/repo/pull/42".to_string())
    );
    assert_eq!(
        derive_pr_url_from_comment("https://github.com/org/repo/pull/42"),
        Some("https://github.com/org/repo/pull/42".to_string())
    );
    assert_eq!(
        derive_pr_url_from_comment("https://github.com/org/repo/issues/42#issuecomment-123"),
        None
    );
}

fn scan(in_main: bool, with_document: &[&str]) -> WorkspaceScan {
    WorkspaceScan {
        in_main,
        entries: with_document
            .iter()
            .map(|n| WorkspaceEntry {
                name: s(n),
                has_document: true,
            })
            .collect(),
        current_branch: None,
    }
}

#[test]
fn test_resolve_document_workspace_finds_in_main() {
    let result = resolve_document_workspace(
        "tasks/harmony-350",
        &scan(true, &[]),
        "/tmp/worktrees",
        "/kb",
        &vec![],
    )
    .unwrap();
    assert!(result.is_some());
    let ws = result.unwrap();
    assert_eq!(ws.workspace_branch, "main");
    assert_eq!(ws.cwd, "/kb");
}

#[test]
fn test_resolve_document_workspace_finds_in_worktree_branch() {
    let result = resolve_document_workspace(
        "tasks/harmony-350",
        &scan(false, &["tasks--harmony-350"]),
        "/kb/worktrees",
        "/kb",
        &vec![s("/kb/worktrees/tasks--harmony-350")],
    )
    .unwrap();
    assert!(result.is_some());
    let ws = result.unwrap();
    assert_eq!(ws.workspace_branch, "tasks--harmony-350");
    assert_eq!(ws.cwd, "/kb/worktrees/tasks--harmony-350");
}

#[test]
fn test_resolve_document_workspace_returns_none_when_not_found() {
    let result = resolve_document_workspace(
        "tasks/nonexistent",
        &scan(false, &[]),
        "/tmp/worktrees",
        "/kb",
        &vec![],
    )
    .unwrap();
    assert!(result.is_none());
}

#[test]
fn test_resolve_document_workspace_ambiguous_warns_and_picks_alphabetically() {
    let result = resolve_document_workspace(
        "tasks/harmony-999",
        &scan(false, &["branch-b", "branch-a"]),
        "/tmp/worktrees",
        "/kb",
        &vec![],
    )
    .unwrap();
    assert!(result.is_some());
    let ws = result.unwrap();
    assert_eq!(ws.workspace_branch, "branch-a");
}

#[test]
fn document_slugs_that_wander_are_refused() {
    assert!(
        resolve_document_workspace("../x", &scan(true, &[]), "/tmp/worktrees", "/kb", &vec![])
            .is_err()
    );
    assert!(
        resolve_document_workspace("/x", &scan(true, &[]), "/tmp/worktrees", "/kb", &vec![])
            .is_err()
    );
}

#[test]
fn test_find_worktree_for_branch_worktree_base() {
    let result = find_worktree_for_branch(
        "tasks--foo",
        "/w/worktrees",
        "/w/repo",
        &vec![s("/w/worktrees/tasks--foo"), s("/w/repo")],
    );
    assert_eq!(result, Some(s("/w/worktrees/tasks--foo")));
}

#[test]
fn test_find_worktree_for_branch_local_worktrees() {
    let result = find_worktree_for_branch(
        "tasks--bar",
        "/w/empty-base",
        "/w/repo",
        &vec![s("/w/empty-base"), s("/w/repo/.worktrees/tasks--bar")],
    );
    assert_eq!(result, Some(s("/w/repo/.worktrees/tasks--bar")));
}

#[test]
fn test_find_worktree_for_branch_returns_none() {
    let result = find_worktree_for_branch(
        "nonexistent",
        "/w/empty",
        "/w/repo",
        &vec![s("/w/empty"), s("/w/repo")],
    );
    assert_eq!(result, None);
}

#[test]
fn test_build_meta_worktree_args_includes_recursive() {
    let args = build_meta_worktree_args(
        "tasks--harmony-407",
        &vec![s("open-source/gitkb/core")],
        "tasks/harmony-407",
    );
    assert!(
        args.contains(&s("--recursive")),
        "args must include --recursive for nested dep resolution: {args:?}"
    );
    assert_eq!(
        args,
        vec![
            "git",
            "worktree",
            "create",
            "tasks--harmony-407",
            "--recursive",
            "--repo",
            "open-source/gitkb/core",
            "--branch",
            "tasks/harmony-407",
        ]
    );
}

#[test]
fn test_build_meta_worktree_args_multiple_repos() {
    let args = build_meta_worktree_args(
        "my-branch",
        &vec![s("repo-a"), s("repo-b")],
        "feature/my-branch",
    );
    assert!(args.contains(&s("--recursive")));
    assert_eq!(
        args.iter().filter(|a| **a == "--repo").count(),
        2,
        "should have two --repo flags"
    );
}

#[test]
fn git_worktree_args_create_a_branch_only_if_it_is_missing() {
    assert_eq!(
        build_git_worktree_args("/w/b", "b", true),
        vec!["worktree", "add", "/w/b", "b"]
    );
    assert_eq!(
        build_git_worktree_args("/w/b", "b", false),
        vec!["worktree", "add", "/w/b", "-b", "b"]
    );
}

#[test]
fn branch_names_are_judged() {
    assert!(validate_branch_name("ok", true).is_ok());
    assert_eq!(
        validate_branch_name("a b", false).unwrap_err(),
        "invalid branch name 'a b': git check-ref-format rejected it"
    );
}

#[test]
fn repository_of_pull_request() {
    assert_eq!(
        repository_of_pr("https://github.com/org/repo/pull/42"),
        Some(s("org/repo"))
    );
    assert_eq!(repository_of_pr("nonsense"), None);
}

#[test]
fn meta_workspace_is_the_first_that_provides() {
    let entry = |name: &str, path: Option<&str>, provides: bool| MetaEntry {
        name: s(name),
        path: path.map(s),
        provides,
    };
    let found = meta_of_entries(
        &vec![
            entry("a", Some("a"), false),
            entry("b", Some("sub/b"), true),
            entry("c", Some("c"), true),
        ],
        "/w",
    );
    let found = found.unwrap();
    assert_eq!(found.workspace_root, "/w");
    assert_eq!(found.repo, "b");
    assert!(meta_of_entries(&vec![], "/w").is_none());
}

#[test]
fn live_collisions_are_refused_unless_forced() {
    assert_eq!(check_worktree_collision(true, false), Collision::Refuse);
    assert_eq!(check_worktree_collision(false, false), Collision::MarkFailed);
    assert_eq!(
        check_worktree_collision(true, true),
        Collision::KillAndMarkFailed
    );
    assert!(collision_message("/w", "id-1", "sess").contains("id-1"));
}

#[test]
fn workspaces_are_chosen_by_name() {
    assert!(is_passed_over("main"));
    assert!(is_passed_over(".."));
    assert!(!is_passed_over("tasks--x"));
    assert_eq!(select_from_matches(&vec![s("b"), s("a")]), "a");
    assert_eq!(selected_workspace(&scan(false, &["b", "a"])), Some(s("a")));
    assert_eq!(selected_workspace(&scan(true, &["b"])), Some(s("main")));
    assert_eq!(selected_workspace(&scan(false, &[])), None);
}

#[test]
fn worktrees_are_searched_in_order() {
    assert_eq!(
        worktree_search_paths("b", "/base", "/root"),
        vec!["/base/b", "/base/b", "/root/.worktrees/b", "/root/.worktrees/b"]
    );
    assert_eq!(
        worktree_search_paths("a/b", "/base", "/root"),
        vec![
            "/base/a--b",
            "/base/a/b",
            "/root/.worktrees/a--b",
            "/root/.worktrees/a/b"
        ]
    );
    assert_eq!(worktree_path("/base", "a/b", Some("repo")), "/base/a--b/repo");
    assert_eq!(worktree_path("/base", "a/b", None), "/base/a--b");
}

#[test]
fn listed_worktrees_are_found_by_branch() {
    let porcelain = "worktree /r\nHEAD 1\nbranch refs/heads/main\n\nworktree /r/x\nHEAD 2\nbranch refs/heads/x\n";
    assert_eq!(find_listed_worktree(porcelain, "x"), Some(s("/r/x")));
    assert_eq!(find_listed_worktree(porcelain, "y"), None);
}

fn worktree_opts(repos: Vec<String>) -> WorktreeOpts {
    WorktreeOpts {
        worktree_base: s("/base"),
        repos,
        branch: s("a/b"),
        meta_workspace_root: s("/root"),
        kb_root: s("/kb"),
        force: false,
    }
}

#[test]
fn worktree_plans_follow_the_repositories() {
    let opts = worktree_opts(vec![]);
    let plan = plan_worktree(&opts, Some("worktree /r/ab\nbranch refs/heads/a/b\n"));
    assert!(matches!(&plan, WorktreePlan::Reuse { path, .. } if path == "/r/ab"));
    let made = ensure_worktree(&opts, plan, &answer(false, None, "", "")).ok().unwrap();
    assert_eq!(made.path, "/r/ab");
    assert!(!made.created);
}

#[test]
fn worktrees_that_cannot_be_made_are_errors() {
    let opts = worktree_opts(vec![]);
    let made = ensure_worktree(&opts, WorktreePlan::CreateGit, &answer(true, Some(0), "", ""));
    let made = made.ok().unwrap();
    assert!(made.created && !made.is_meta);
    assert_eq!(
        made.path,
        worktree_path(&opts.worktree_base, &opts.branch, None)
    );
    let refused = answer(false, Some(128), "", "fatal: no\n");
    let e = ensure_worktree(&opts, WorktreePlan::CreateGit, &refused);
    assert_eq!(
        e.err().unwrap(),
        "git worktree add failed (exit Some(128)):\nfatal: no\n"
    );
    let many = worktree_opts(vec![s("core")]);
    let e = ensure_worktree(&many, WorktreePlan::CreateMeta, &answer(false, None, "", "gone"));
    assert_eq!(
        e.err().unwrap(),
        "meta git worktree create failed (exit None):\ngone"
    );
}

#[test]
fn reused_worktrees_are_looked_at_unless_they_are_the_expected_ones() {
    let opts = worktree_opts(vec![]);
    let place = worktree_path(&opts.worktree_base, &opts.branch, None);
    let listed = |path: &str| format!("worktree {path}\nbranch refs/heads/{}\n", opts.branch);
    let expected = plan_worktree(&opts, Some(&listed(&format!("{place}/"))));
    assert!(matches!(expected, WorktreePlan::Reuse { recheck: false, .. }));
    let other = plan_worktree(&opts, Some(&listed("/elsewhere")));
    assert!(matches!(other, WorktreePlan::Reuse { recheck: true, .. }));
}

#[test]
fn tokens_come_from_the_environment() {
    assert_eq!(token_from_env(&Some(s(" t ")), &None), Some(s("t")));
    assert_eq!(token_from_env(&Some(s("  ")), &Some(s("u"))), Some(s("u")));
    assert_eq!(token_from_env(&None, &None), None);
    assert_eq!(named_output(" x\n"), Some(s("x")));
    assert_eq!(named_output("\n"), None);
}

#[test]
fn diagnostics_say_whether_a_token_is_there() {
    let with = diag_content(true, Some((0, "out", "err")));
    let without = diag_content(false, None);
    assert_ne!(with, without);
    assert!(with.contains("out"));
    assert!(with.contains("err"));
}

fn answer(success: bool, code: Option<i32>, stdout: &str, stderr: &str) -> ToolAnswer {
    ToolAnswer {
        success,
        code,
        stdout: s(stdout),
        stderr: s(stderr),
    }
}

const LISTING: &str = r#"{
    "projects": [
        {
            "name": "clients",
            "path": "clients",
            "repo": "git@github.com:harmony-labs/harmony-clients.git",
            "projects": [
                {
                    "name": "desktop",
                    "path": "desktop",
                    "repo": "git@github.com:harmony-labs/harmony-desktop.git"
                }
            ]
        },
        {
            "name": "open-source",
            "path": "open-source",
            "projects": [
                {
                    "name": "gitkb",
                    "path": "gitkb",
                    "projects": [
                        {
                            "path": "core",
                            "repo": "https://github.com/harmony-labs/gitkb-core.git"
                        }
                    ]
                },
                "not a project",
                { "path": "atc", "repo": "git@github.com:harmony-labs/atc.git" }
            ]
        },
        { "path": "odd", "repo": "git@github.com:harmony-labs/odd.git", "projects": 3 }
    ]
}"#;

fn place_of(listing: &str, repo: &str) -> Result<Option<String>, String> {
    let url = format!("https://github.com/{repo}/pull/27");
    resolve_pr_repo_path(&url, Some(&listing.as_bytes().to_vec()))
}

#[test]
fn pull_requests_are_placed_by_the_listing() {
    let found = |repo: &str| place_of(LISTING, repo).unwrap();
    assert_eq!(found("harmony-labs/harmony-clients"), Some(s("clients")));
    assert_eq!(
        found("harmony-labs/harmony-desktop"),
        Some(s("clients/desktop"))
    );
    assert_eq!(
        found("harmony-labs/gitkb-core"),
        Some(s("open-source/gitkb/core"))
    );
    assert_eq!(found("harmony-labs/atc"), Some(s("open-source/atc")));
    assert_eq!(found("harmony-labs/odd"), Some(s("odd")));
    assert_eq!(found("harmony-labs/nonexistent"), None);
}

#[test]
fn listings_that_say_nothing_place_nothing() {
    assert_eq!(place_of("{}", "org/repo"), Ok(None));
    assert_eq!(place_of("[]", "org/repo"), Ok(None));
    let url = "https://github.com/org/repo/pull/1";
    assert_eq!(resolve_pr_repo_path(url, None), Ok(None));
}

#[test]
fn faults_of_a_listing_are_reported() {
    let e = place_of("{\"projects\": [", "org/repo").unwrap_err();
    assert_eq!(e, "EOF while parsing a list at line 1 column 14");
    assert_eq!(
        resolve_pr_repo_path("https://example.com/org/repo/pull/1", None),
        Err(s(
            "cannot extract org/repo from PR URL: https://example.com/org/repo/pull/1"
        ))
    );
}

#[test]
fn projects_are_found_however_deep_they_nest() {
    let mut listing = s(r#"{"path": "leaf", "repo": "git@github.com:org/leaf.git"}"#);
    let mut place = s("leaf");
    for _ in 0..62 {
        listing = format!("{{\"path\": \"p\", \"projects\": [{listing}]}}");
        place = format!("p/{place}");
    }
    let listing = format!("{{\"projects\": [{listing}]}}");
    assert_eq!(place_of(&listing, "org/leaf"), Ok(Some(place)));
    let deeper = format!("{{\"projects\": [{listing}]}}");
    assert!(place_of(&deeper, "org/leaf").is_err());
}

#[test]
fn meta_workspaces_are_discovered_from_what_meta_prints() {
    let printed = r#" {".": {"path": "/ws"}, "api": {"path": "api"}, "core": {"provides": ["x"]}}
"#;
    let found = discover_meta(&answer(true, Some(0), printed, ""), "/cwd").unwrap();
    assert_eq!(found.repo, "core");
    assert_eq!(found.workspace_root, "/ws");
    let plain = discover_meta(&answer(true, Some(0), r#"{".": "x", "b": 1}"#, ""), "/cwd").unwrap();
    assert_eq!(plain.repo, "b");
    assert_eq!(plain.workspace_root, "/cwd");
    let odd = r#"{"a/b": {}, "c~1/d": {"provides": null}}"#;
    let found = discover_meta(&answer(true, Some(0), odd, ""), "/cwd").unwrap();
    assert_eq!(found.repo, "c~1/d");
    assert!(discover_meta(&answer(true, Some(0), "{}", ""), "/cwd").is_none());
    assert!(discover_meta(&answer(true, Some(0), "no json", ""), "/cwd").is_none());
    assert!(discover_meta(&answer(false, Some(1), printed, ""), "/cwd").is_none());
}

#[test]
fn tokens_are_read_from_the_answer() {
    assert_eq!(
        token_of_answer(&answer(true, Some(0), " tok\n", "")),
        Ok(s("tok"))
    );
    assert_eq!(
        token_of_answer(&answer(true, Some(0), " \n", "")),
        Err(s(
            "could not resolve GH_TOKEN: gh auth token returned an empty token"
        ))
    );
    assert_eq!(
        token_of_answer(&answer(false, Some(4), "", "no login")),
        Err(s(
            "could not resolve GH_TOKEN: gh auth token failed (exit Some(4))"
        ))
    );
    assert_eq!(
        token_of_answer(&answer(false, None, "", "")),
        Err(s("could not resolve GH_TOKEN: gh auth token failed (exit None)"))
    );
}

#[test]
fn head_branches_are_read_from_the_answer() {
    let url = "https://github.com/org/repo/pull/7";
    assert_eq!(
        extract_pr_head_branch(url, &answer(true, Some(0), "feature/x\n", "")),
        Ok(s("feature/x"))
    );
    assert_eq!(
        extract_pr_head_branch(url, &answer(true, Some(0), "\n", "")),
        Err(s(
            "gh pr view returned empty headRefName for https://github.com/org/repo/pull/7"
        ))
    );
    assert_eq!(
        extract_pr_head_branch(url, &answer(false, Some(1), "", "not found\n")),
        Err(s(
            "gh pr view --json headRefName failed (exit Some(1)):\nnot found\n"
        ))
    );
}
