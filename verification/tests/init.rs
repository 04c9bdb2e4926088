use atc::init::agents::{
    agent_registry, agent_status, check_failures, expected_symlink_target, fallback_warning,
    files_to_remove, find_agent, format_status, fresh_message, list_agents, no_skills_message,
    outcome_of, plan_wire,
    refusal_message, skills_to_restore, unknown_agent_message, wired_message,
    write_summary, AgentEntry,
    AgentOpts, AgentStatus, TargetProbe, Vendor, WireFailure, WireOutcome, WirePlan,
    COPY_MARKER_BODY, COPY_MARKER_FILENAME,
};
use atc::init::picker::{
    build_options, chosen_rows, no_directories_message, opts_for_row, render_options, PICKER_HELP,
};
use atc::init::{
    build_config_toml, check_fresh, choose_route, copied_message, initialized_lines, is_copied,
    ConfigParts, InitOpts, Route,
};
use atc::resolvers::ResolverConfig;

fn s(t: &str) -> String {
    t.to_string()
}

fn registry() -> Vec<AgentEntry> {
    agent_registry(&Vendor {
        name: s("codex"),
        product: s("Codex"),
    })
}

#[test]
fn registry_has_v1_entries() {
    let all = registry();
    assert!(find_agent(&all, "codex").is_some());
    assert!(find_agent(&all, "agents").is_some());
    assert!(find_agent(&all, "nonexistent").is_none());
}

#[test]
fn expected_symlink_target_for_claude() {
    let all = registry();
    let entry = find_agent(&all, "codex").unwrap();
    assert_eq!(expected_symlink_target(entry), "../../.atc/skills");
}

#[test]
fn expected_symlink_target_for_agents() {
    let all = registry();
    let entry = find_agent(&all, "agents").unwrap();
    assert_eq!(expected_symlink_target(entry), "../../.atc/skills");
}

#[test]
fn entries_name_their_directories() {
    let all = registry();
    let entry = find_agent(&all, "codex").unwrap();
    assert_eq!(entry.target_dir, ".codex/skills/atc");
    assert_eq!(entry.parent_dir, ".codex/skills");
    assert_eq!(entry.description, "Codex skills directory");
    let entry = find_agent(&all, "agents").unwrap();
    assert_eq!(entry.target_dir, ".agents/skills/atc");
    assert_eq!(entry.description, "Generic .agents/ skills convention");
}

/// Wires an agent whose target holds what `probe` says, where links can be made
/// if `linked`.
fn wire(probe: TargetProbe, force: bool, copy: bool, linked: bool) -> Result<WireOutcome, String> {
    let all = registry();
    let status = agent_status(&all[0], &probe);
    let plan = plan_wire(&status, AgentOpts { force, copy });
    match outcome_of(plan, linked) {
        Some(outcome) => Ok(outcome),
        None => Err(refusal_message(&status, &all[0].target_dir)),
    }
}

#[test]
fn fresh_wire_creates_relative_symlink() {
    let fresh = || TargetProbe::Absent {
        parent_exists: true,
    };
    assert_eq!(wire(fresh(), false, false, true), Ok(WireOutcome::Created));
    assert_eq!(
        wire(fresh(), false, false, false),
        Ok(WireOutcome::SymlinkFallbackToCopy)
    );
    let all = registry();
    assert_eq!(expected_symlink_target(&all[0]), "../../.atc/skills");
    assert_eq!(
        plan_wire(
            &agent_status(&all[0], &fresh()),
            AgentOpts {
                force: false,
                copy: false
            }
        ),
        WirePlan::Fresh { copy: false }
    );
}

#[test]
fn rerun_is_idempotent() {
    let wired = TargetProbe::Symlink(s("../../.atc/skills"));
    assert_eq!(wire(wired, false, false, true), Ok(WireOutcome::AlreadyWired));
}

#[test]
fn wrong_target_errors_without_force() {
    let wrong = || TargetProbe::Symlink(s("../../somewhere-else"));
    let err = wire(wrong(), false, false, true).unwrap_err();
    assert!(err.contains("--force"), "should mention --force, got: {err}");
    assert!(err.contains("../../somewhere-else"), "{err}");
    assert_eq!(wire(wrong(), true, false, true), Ok(WireOutcome::Replaced));
}

#[test]
fn real_user_dir_is_refused_even_with_force() {
    for force in [false, true] {
        for copy in [false, true] {
            let err = wire(TargetProbe::Dir { marked: false }, force, copy, true).unwrap_err();
            assert!(err.contains("Refusing to delete user content"), "{err}");
        }
    }
}

#[test]
fn copy_mode_mirror_round_trip() {
    let copied = || TargetProbe::Dir { marked: true };
    assert_eq!(wire(copied(), false, true, true), Ok(WireOutcome::Mirrored));
    assert_eq!(wire(copied(), true, true, true), Ok(WireOutcome::Mirrored));
    assert!(wire(copied(), false, false, true).is_err());
    assert_eq!(wire(copied(), true, false, true), Ok(WireOutcome::Replaced));
    let known = vec![s("dispatch.md"), s("monitor.md")];
    let present = vec![s("custom.md"), s("dispatch.md"), s("monitor.md")];
    let removed = files_to_remove(&present, &known, &vec![s("dispatch.md")]);
    assert!(removed.contains(&s("monitor.md")));
    assert!(!removed.contains(&s("dispatch.md")));
    assert!(!removed.contains(&s("custom.md")));
}

#[test]
fn unknown_agent_errors() {
    assert!(find_agent(&registry(), "vscode").is_none());
    let err = unknown_agent_message("vscode");
    assert!(err.contains("unknown agent"));
    assert!(err.contains("--list-agents"));
}

#[test]
fn missing_atc_skills_errors() {
    let err = no_skills_message("/p/.atc/skills");
    assert!(err.contains("Run 'atc init' first"));
}

#[test]
fn parent_dir_created_when_missing() {
    let absent = TargetProbe::Absent {
        parent_exists: false,
    };
    assert_eq!(wire(absent, false, false, true), Ok(WireOutcome::Created));
}

#[test]
fn agent_status_reports_states() {
    let all = registry();
    let status = |p: TargetProbe| format_status(&agent_status(&all[0], &p));
    assert_eq!(
        status(TargetProbe::Absent {
            parent_exists: false
        }),
        "parent-missing"
    );
    assert_eq!(
        status(TargetProbe::Absent {
            parent_exists: true
        }),
        "available"
    );
    assert_eq!(status(TargetProbe::Symlink(s("../../.atc/skills"))), "wired");
    assert_eq!(
        status(TargetProbe::Symlink(s("../../somewhere-else"))),
        "wrong-target"
    );
    assert_eq!(status(TargetProbe::Dir { marked: false }), "user-dir");
    assert_eq!(status(TargetProbe::Dir { marked: true }), "copied");
    assert_eq!(status(TargetProbe::Other), "user-dir");
}

#[test]
fn user_dir_with_default_skill_filename_is_not_copied() {
    let all = registry();
    assert!(matches!(
        agent_status(&all[0], &TargetProbe::Dir { marked: false }),
        AgentStatus::UserDir
    ));
}

#[test]
fn copy_mode_writes_marker_file() {
    assert_eq!(COPY_MARKER_FILENAME, ".atc-skills-managed");
    assert_eq!(COPY_MARKER_BODY, "atc init copy-mode marker; do not edit\n");
}

#[test]
fn list_agents_runs() {
    let all = registry();
    let table = list_agents(&all, &vec![AgentStatus::Wired, AgentStatus::Available]);
    assert!(table.contains("Agent"));
    assert!(table.contains(".codex/skills/atc"));
    assert!(table.contains("wired"));
    assert!(table.contains('+'));
}

#[test]
fn mirrors_remove_known_skills_only() {
    let known = vec![s("a.md"), s("b.md")];
    let source = vec![s("a.md")];
    let present = vec![s("a.md"), s("b.md"), s("mine.md")];
    assert_eq!(files_to_remove(&present, &known, &source), vec!["b.md"]);
    assert_eq!(skills_to_restore(&known, &source), vec!["b.md"]);
}

#[test]
fn links_are_replaced_by_copies_only_when_forced() {
    let wired = || TargetProbe::Symlink(s("../../.atc/skills"));
    assert!(wire(wired(), false, true, true).is_err());
    assert_eq!(wire(wired(), true, true, true), Ok(WireOutcome::Created));
    assert_eq!(
        plan_wire(
            &AgentStatus::Wired,
            AgentOpts {
                force: true,
                copy: true
            }
        ),
        WirePlan::LinkToCopy
    );
}

#[test]
fn wiring_is_told() {
    assert_eq!(
        wired_message(WirePlan::Keep, "agents", "/t").as_deref(),
        Some("  agents: already wired (-> .atc/skills)")
    );
    assert_eq!(
        wired_message(WirePlan::Mirror, "agents", "/t").as_deref(),
        Some("  agents: mirrored .atc/skills into /t")
    );
    assert_eq!(wired_message(WirePlan::Fresh { copy: true }, "agents", "/t"), None);
    assert_eq!(fresh_message("/t", None), "  created /t (copy)");
    assert_eq!(fresh_message("/t", Some("../x")), "  created /t -> ../x");
    assert!(fallback_warning("denied", "agents").contains("atc init agents --copy"));
}

#[test]
fn wiring_all_is_summed_up() {
    let lines = write_summary(
        1,
        &vec![s("codex")],
        &vec![WireFailure {
            name: s("agents"),
            message: s("broken"),
        }],
    );
    assert_eq!(
        lines,
        vec![
            "\n--- atc init --all-agents summary ---",
            "  wired:   1",
            "  skipped: codex (parent dir missing)",
            "  failed:",
            "    agents: broken",
        ]
    );
    assert!(check_failures(0).is_ok());
    assert_eq!(check_failures(2).unwrap_err(), "2 agent(s) failed to wire");
}

#[test]
fn build_options_classifies_parent_missing() {
    let opts = build_options(
        &registry(),
        vec![AgentStatus::ParentMissing, AgentStatus::ParentMissing],
    );
    assert_eq!(opts.len(), 2);
    for o in &opts {
        assert!(matches!(o.status, AgentStatus::ParentMissing));
        assert!(!o.selectable);
        assert!(!o.default_selected);
    }
}

#[test]
fn build_options_marks_available_default_selected() {
    let opts = build_options(
        &registry(),
        vec![AgentStatus::Available, AgentStatus::ParentMissing],
    );
    assert_eq!(opts[0].entry.name, "codex");
    assert!(matches!(opts[0].status, AgentStatus::Available));
    assert!(opts[0].selectable);
    assert!(opts[0].default_selected);
    assert_eq!(opts[1].entry.name, "agents");
    assert!(matches!(opts[1].status, AgentStatus::ParentMissing));
    assert!(!opts[1].selectable);
}

#[test]
fn render_options_golden_no_parents() {
    let opts = build_options(
        &registry(),
        vec![AgentStatus::ParentMissing, AgentStatus::ParentMissing],
    );
    let rendered = render_options(&opts);
    assert!(rendered.contains("parent missing"));
    assert!(!rendered.contains("[x]"));
    assert!(!rendered.contains("[ ]"));
    assert_eq!(
        rendered,
        "    codex     .codex/skills/atc         \u{b7}  parent missing\n    agents    .agents/skills/atc        \u{b7}  parent missing\n"
    );
}

#[test]
fn render_options_golden_one_available() {
    let opts = build_options(
        &registry(),
        vec![AgentStatus::Available, AgentStatus::ParentMissing],
    );
    let rendered = render_options(&opts);
    assert!(rendered.contains("[x]"));
    assert!(rendered.contains("available"));
    assert!(rendered.contains("parent missing"));
    assert_eq!(
        rendered,
        "[x] codex     .codex/skills/atc         +  available\n    agents    .agents/skills/atc        \u{b7}  parent missing\n"
    );
}

#[test]
fn build_options_user_dir_is_unselectable() {
    let opts = build_options(
        &registry(),
        vec![AgentStatus::UserDir, AgentStatus::Wired],
    );
    assert!(matches!(opts[0].status, AgentStatus::UserDir));
    assert!(!opts[0].selectable);
    assert!(!opts[0].default_selected);
    assert!(opts[1].selectable);
}

#[test]
fn apply_selection_auto_force_for_wrong_target() {
    let all = registry();
    let status = agent_status(&all[0], &TargetProbe::Symlink(s("../../somewhere")));
    let opts = build_options(&all, vec![status, AgentStatus::Available]);
    assert!(matches!(&opts[0].status, AgentStatus::WrongTarget(_)));
    assert!(opts_for_row(&opts[0], false, false).force);
    assert_eq!(
        plan_wire(&opts[0].status, opts_for_row(&opts[0], false, false)),
        WirePlan::Rewire { copy: false }
    );
    assert_eq!(expected_symlink_target(&all[0]), "../../.atc/skills");
    assert!(!opts_for_row(&opts[1], false, false).force);
}

#[test]
fn apply_selection_auto_copy_for_copied_rows() {
    let opts = build_options(
        &registry(),
        vec![AgentStatus::Copied, AgentStatus::Available],
    );
    assert!(matches!(opts[0].status, AgentStatus::Copied));
    assert!(opts[0].selectable, "Copied rows should be selectable");
    assert!(opts_for_row(&opts[0], false, false).copy);
    assert_eq!(
        plan_wire(&opts[0].status, opts_for_row(&opts[0], false, false)),
        WirePlan::Mirror
    );
    assert!(!opts_for_row(&opts[1], false, false).copy);
}

#[test]
fn apply_selection_threads_copy_flag() {
    let opts = build_options(
        &registry(),
        vec![AgentStatus::Available, AgentStatus::Available],
    );
    assert!(matches!(opts[0].status, AgentStatus::Available));
    assert!(opts_for_row(&opts[0], true, false).copy);
    assert_eq!(
        plan_wire(&opts[0].status, opts_for_row(&opts[0], true, false)),
        WirePlan::Fresh { copy: true }
    );
}

#[test]
fn run_picker_errors_when_skills_src_missing() {
    let err = no_skills_message("/p/.atc/skills");
    assert!(
        err.contains("Run 'atc init' first"),
        "expected preflight bail, got: {err}"
    );
}

#[test]
fn chosen_rows_follow_the_labels() {
    let opts = build_options(
        &registry(),
        vec![AgentStatus::Available, AgentStatus::UserDir],
    );
    let labels: Vec<String> = opts.iter().map(|o| o.label.clone()).collect();
    assert_eq!(chosen_rows(&opts, &labels), vec![0]);
    assert!(chosen_rows(&opts, &vec![]).is_empty());
}

fn parts() -> ConfigParts {
    ConfigParts {
        registry: Some(s("")),
        registry_set: false,
        dispatch: Some(s("max_turns = 10000\n")),
        batch: Some(s("max_concurrency = 4\n")),
        batch_changed: false,
        health: Some(s("auto_review = false\n")),
        health_changed: false,
        watch: Some(s("poll_interval_secs = 5\n")),
        watch_changed: false,
        resolvers: Some(s("[resolvers]\norder = [\"task\"]\n")),
        resolver_config: ResolverConfig::default(),
        prompt: Some(s("components_dir = \"components\"\n")),
        prompt_changed: false,
        paths: Some(s("search_path = []\n")),
        search_path: vec![],
        notifications: None,
    }
}

#[test]
fn test_build_config_toml_default_includes_dispatch() {
    let toml = build_config_toml(&parts());
    assert!(
        toml.contains("[dispatch]"),
        "default config should include [dispatch] section, got: {toml}"
    );
    assert!(!toml.contains("[registry]"));
    assert!(!toml.contains("[resolvers]"));
    assert!(!toml.contains("[prompt]"));
    assert_eq!(toml, "[dispatch]\nmax_turns = 10000\n");
}

#[test]
fn test_build_config_toml_includes_registry_when_set() {
    let mut cfg = parts();
    cfg.registry = Some(s("path = \"/tmp/test.db\"\n"));
    cfg.registry_set = true;
    let toml = build_config_toml(&cfg);
    assert!(toml.contains("[registry]"), "missing [registry] section");
    assert!(toml.contains("test.db"), "missing registry path");
}

#[test]
fn test_build_config_toml_includes_notifications_when_set() {
    let mut cfg = parts();
    cfg.notifications = Some(s(
        "macos = true\nwebhook_url = \"https://example.com/hook\"\n",
    ));
    let toml = build_config_toml(&cfg);
    assert!(
        toml.contains("[notifications]"),
        "missing [notifications] section"
    );
    assert!(toml.contains("example.com/hook"), "missing webhook URL");
}

#[test]
fn test_build_config_toml_resolvers_nested_tables_correct() {
    let mut cfg = parts();
    cfg.resolver_config.task_enabled = false;
    cfg.resolvers = Some(s(
        "[resolvers]\norder = [\"task\"]\n\n[resolvers.task]\nenabled = false\n",
    ));
    let toml = build_config_toml(&cfg);
    assert!(
        toml.contains("[resolvers.task]"),
        "resolvers sub-tables must use dotted keys, got:\n{toml}"
    );
    assert!(
        !toml.contains("\n[task]\n"),
        "resolvers sub-tables must not appear as top-level tables"
    );
    assert!(toml.starts_with("[dispatch]\nmax_turns = 10000\n\n[resolvers]\n"));
}

#[test]
fn test_build_config_toml_roundtrip_resolvers() {
    let mut cfg = parts();
    cfg.resolver_config.task_enabled = false;
    cfg.resolvers = Some(s(
        "[resolvers]\norder = [\"task\"]\n\n[resolvers.task]\nenabled = false\n\n[resolvers.template]\nenabled = true\n",
    ));
    let toml_str = build_config_toml(&cfg);
    let reparsed: toml::Table = toml::from_str(&toml_str).expect("generated TOML must be valid");
    let enabled = |name: &str| reparsed["resolvers"][name]["enabled"].as_bool().unwrap();
    assert!(!enabled("task"));
    assert!(enabled("template"));
}

#[test]
fn test_build_config_toml_includes_prompt_when_non_default() {
    let mut cfg = parts();
    cfg.prompt = Some(s("components_dir = \"custom/components\"\n"));
    cfg.prompt_changed = true;
    let toml = build_config_toml(&cfg);
    assert!(toml.contains("[prompt]"), "missing [prompt] section");
    assert!(
        toml.contains("custom/components"),
        "missing custom components_dir"
    );
}

#[test]
fn test_build_config_toml_includes_paths_when_non_empty() {
    let mut cfg = parts();
    cfg.search_path = vec![s("~/.config/atc")];
    let toml = build_config_toml(&cfg);
    assert!(toml.contains("[paths]"), "missing [paths] section");
}

#[test]
fn empty_configurations_say_where_things_are() {
    let mut cfg = parts();
    cfg.dispatch = Some(s("  \n"));
    cfg.health = None;
    cfg.health_changed = true;
    let toml = build_config_toml(&cfg);
    assert!(toml.starts_with("# ATC configuration\n"));
}

#[test]
fn test_run_init_fails_if_exists_without_force() {
    let err = check_fresh(true, false, "/p/.atc").unwrap_err();
    assert!(err.contains("already exists"));
}

#[test]
fn test_run_init_force_overwrites() {
    assert!(check_fresh(true, true, "/p/.atc").is_ok());
    assert!(check_fresh(false, false, "/p/.atc").is_ok());
}

#[test]
fn setting_up_is_told() {
    assert_eq!(copied_message("templates", Some(3), "/t"), "  Copied 3 templates");
    assert_eq!(
        copied_message("templates", None, "/t"),
        "  Skipping templates (source dir not found: /t)"
    );
    assert!(is_copied("a.md"));
    assert!(!is_copied("a.txt"));
    assert_eq!(initialized_lines("/p/.atc", false).len(), 1);
    assert_eq!(initialized_lines("/p/.atc", true).len(), 2);
}

#[test]
fn routes_have_precedence() {
    let opts = || InitOpts {
        agent: None,
        force: false,
        copy: false,
        list_agents: false,
        list_agents_json: false,
        all_agents: false,
        no_interactive: false,
        interactive: false,
    };
    assert_eq!(choose_route(&opts(), true), Route::Scaffold { pick: true });
    assert_eq!(choose_route(&opts(), false), Route::Scaffold { pick: false });
    let mut o = opts();
    o.interactive = true;
    assert_eq!(choose_route(&o, false), Route::Picker);
    o.agent = Some(s("agents"));
    assert_eq!(choose_route(&o, false), Route::OneAgent);
    o.all_agents = true;
    assert_eq!(choose_route(&o, false), Route::AllAgents);
    o.list_agents = true;
    o.list_agents_json = true;
    assert_eq!(choose_route(&o, false), Route::List { json: true });
}

#[test]
fn picker_says_what_can_be_done() {
    assert_eq!(
        no_directories_message(".agents/skills"),
        "atc init: no agent skill directories detected. Create one (e.g. mkdir -p .agents/skills) \
         and re-run `atc init --interactive`."
    );
    assert!(PICKER_HELP.starts_with("space toggle"));
    assert!(PICKER_HELP.ends_with("esc cancel"));
}
