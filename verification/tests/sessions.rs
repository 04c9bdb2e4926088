use atc::sessions::actions::{action_state, enabled_action_labels, resume_opts};
use atc::sessions::app::{
    apply_filter_edit, handle_key, optional_filter_value, Action, FilterEdit, FilterField, Key,
    PendingAction, Request, SessionsApp,
};
use atc::sessions::filter::{
    group_key, parse_status, record_matches_filter, search_haystack, task_slug_for_record,
    SessionFilter, SessionGroupBy, SessionsOpts,
};
use atc::sessions::screen::{
    action_message, confirmation_text, empty_text, footer_text, header_text,
    refresh_failed_message, ActionEnd, TuiSetupCleanup,
};
use atc::sessions::snapshot::{
    build_snapshot, path_to_nonempty_string, SessionSnapshot, SessionSource,
};
use atc::sessions::view::{
    detail_text, format_cost, render_once, screen_row, truncate_middle,
};
use atc::times::parse_poll_interval;
use atc::types::{
    AgentCapabilities, Cost, CostBand, Directive, DispatchRecord, HealthChecks, Status, Timestamp,
    WorkUnit, WorkUnitStatus,
};
use std::cell::RefCell;

fn s(t: &str) -> String {
    t.to_string()
}

fn time(t: &str) -> Timestamp {
    let at = chrono::DateTime::parse_from_rfc3339(t).unwrap();
    Timestamp {
        secs: at.timestamp(),
        nanos: 0,
    }
}

fn no_capabilities() -> AgentCapabilities {
    AgentCapabilities {
        supports_resume_by_session_id: false,
        supports_tmux_attach: false,
        supports_tmux_redirect: false,
    }
}

fn record(id: &str, status: Status) -> DispatchRecord {
    DispatchRecord {
        id: s(id),
        task_slug: Some(s("tasks/harmony-794")),
        branch: s("tasks-harmony-794-atc-sessions"),
        worktree_path: s("/tmp/worktree"),
        session: format!("session-{id}"),
        log_file: s("/tmp/missing-log.jsonl"),
        status,
        directive: Directive::Implement,
        retries: 0,
        resolver: s("task"),
        pr_urls: vec![s("https://github.com/gitkb/atc/pull/99")],
        no_worktree: false,
        original_input: Some(s("tasks/harmony-794")),
        checks: HealthChecks {
            agent_exited_clean: false,
            branch_pushed: false,
            pr_created: false,
            ci_passed: false,
            reviews_approved: false,
            threads_resolved: false,
        },
        kb_root: None,
        cost: Some(Cost {
            amount: s("1.25"),
            band: CostBand::Low,
        }),
        num_turns: Some(7),
        duration_ms: Some(65_000),
        artifacts: None,
        work_unit_id: Some(s("wu-1")),
        agent_provider: s("codex"),
        agent_session_id: Some(s("00000000-0000-4000-8000-000000000794")),
        agent_transcript_cwd: Some(s("/tmp/worktree")),
        resume_of_dispatch_id: None,
        agent_capabilities: Some(AgentCapabilities {
            supports_resume_by_session_id: true,
            supports_tmux_attach: true,
            supports_tmux_redirect: true,
        }),
        terminal_locator: None,
        dispatched_at: time("2026-06-03T12:00:00Z"),
        updated_at: time("2026-06-03T12:05:00Z"),
    }
}

fn source(record: DispatchRecord) -> SessionSource {
    SessionSource {
        record,
        log_readable: false,
    }
}

fn work_unit() -> WorkUnit {
    WorkUnit {
        id: s("wu-1"),
        task_slug: Some(s("tasks/harmony-794")),
        branch: Some(s("tasks-harmony-794-atc-sessions")),
        repos: vec![s("open-source/atc")],
        pr_urls: vec![],
        status: WorkUnitStatus::Active,
        created_at: time("2026-06-03T12:00:00Z"),
        updated_at: time("2026-06-03T12:05:00Z"),
    }
}

fn all() -> SessionFilter {
    SessionFilter {
        all: true,
        ..SessionFilter::default()
    }
}

fn snapshot(records: Vec<DispatchRecord>, group: SessionGroupBy) -> SessionSnapshot {
    let sources: Vec<SessionSource> = records.into_iter().map(source).collect();
    build_snapshot(&sources, vec![work_unit()], &all(), group)
}

#[test]
fn rows_do_not_depend_on_the_reading_order() {
    let records = || {
        let mut l = record("z-late", Status::Running);
        l.dispatched_at = time("2026-06-03T12:01:00Z");
        let mut n = record("newest", Status::Failed);
        n.updated_at = time("2026-06-03T12:06:00Z");
        vec![record("b", Status::Running), l, record("a", Status::Done), n]
    };
    let forward = snapshot(records(), SessionGroupBy::Task);
    let mut turned = records();
    turned.reverse();
    let backward = snapshot(turned, SessionGroupBy::Task);
    let ids = |s: &SessionSnapshot| -> Vec<String> { s.rows.iter().map(|r| r.id.clone()).collect() };
    assert_eq!(ids(&forward), vec!["newest", "z-late", "a", "b"]);
    assert_eq!(ids(&backward), ids(&forward));
    assert_eq!(backward.summary, forward.summary);
    assert_eq!(forward.summary.total, 4);
    assert_eq!(backward.work_units.len(), forward.work_units.len());
}

#[test]
fn snapshot_filters_default_to_interesting_statuses() {
    let filter = SessionFilter::default();
    let snapshot = build_snapshot(
        &vec![
            source(record("running", Status::Running)),
            source(record("done", Status::Done)),
        ],
        vec![work_unit()],
        &filter,
        SessionGroupBy::Task,
    );
    assert_eq!(snapshot.rows.len(), 1);
    assert_eq!(snapshot.rows[0].id, "running");
    assert_eq!(snapshot.summary.running, 1);
}

#[test]
fn snapshot_allows_all_and_search_filters() {
    let filter = SessionFilter {
        all: true,
        search: Some("pull/99".to_string()),
        ..SessionFilter::default()
    };
    let snapshot = build_snapshot(
        &vec![
            source(record("done", Status::Done)),
            source(record("failed", Status::Failed)),
        ],
        vec![work_unit()],
        &filter,
        SessionGroupBy::Provider,
    );
    assert_eq!(snapshot.rows.len(), 2);
    assert!(snapshot.rows.iter().all(|row| row.group_key == "codex"));
}

#[test]
fn snapshot_filters_and_searches_work_unit_task_fallback() {
    let fallback = || {
        let mut fallback = record("fallback", Status::Running);
        fallback.task_slug = None;
        fallback.work_unit_id = Some("wu-1".to_string());
        vec![source(fallback)]
    };

    let task_filter = SessionFilter {
        task: Some("tasks/harmony-794".to_string()),
        ..SessionFilter::default()
    };
    let snapshot = build_snapshot(
        &fallback(),
        vec![work_unit()],
        &task_filter,
        SessionGroupBy::Task,
    );
    assert_eq!(snapshot.rows.len(), 1);
    assert_eq!(snapshot.rows[0].id, "fallback");
    assert_eq!(
        snapshot.rows[0].task_slug.as_deref(),
        Some("tasks/harmony-794")
    );
    assert_eq!(snapshot.rows[0].group_key, "tasks/harmony-794");

    let search_filter = SessionFilter {
        search: Some("harmony-794".to_string()),
        ..SessionFilter::default()
    };
    let snapshot = build_snapshot(
        &fallback(),
        vec![work_unit()],
        &search_filter,
        SessionGroupBy::Ungrouped,
    );
    assert_eq!(snapshot.rows.len(), 1);
    assert_eq!(snapshot.rows[0].id, "fallback");
}

#[test]
fn action_state_gates_resume_and_redirect() {
    let mut running = record("running", Status::Running);
    let running_actions = action_state(&running, false);
    assert!(running_actions.redirect.enabled);
    assert!(!running_actions.resume.enabled);

    running.status = Status::NeedsHuman;
    let terminal_actions = action_state(&running, false);
    assert!(!terminal_actions.redirect.enabled);
    assert!(terminal_actions.resume.enabled);

    running.agent_capabilities = Some(no_capabilities());
    let unsupported = action_state(&running, false);
    assert!(!unsupported.resume.enabled);
    assert!(unsupported
        .resume
        .reason
        .unwrap()
        .contains("provider does not advertise"));
}

#[test]
fn action_state_enables_logs_only_for_openable_files() {
    let readable = record("readable", Status::Running);
    let actions = action_state(&readable, true);
    assert!(actions.logs.enabled);
    assert!(actions.follow_logs.enabled);
}

#[test]
fn action_state_rejects_unreadable_log_files() {
    let unreadable = record("unreadable", Status::Running);
    let actions = action_state(&unreadable, false);
    assert!(!actions.logs.enabled);
    assert!(!actions.follow_logs.enabled);
}

#[test]
fn stopping_excludes_resuming() {
    for status in [Status::Running, Status::Done, Status::NeedsHuman, Status::Retrying] {
        let actions = action_state(&record("x", status), true);
        assert!(!(actions.stop.enabled && actions.resume.enabled));
    }
    let labels = enabled_action_labels(&action_state(&record("x", Status::Running), true));
    assert!(labels.contains(&s("stop")));
    assert!(!labels.contains(&s("resume")));
}

#[test]
fn filter_edits_apply_and_clear_values() {
    let mut filter = SessionFilter::default();

    let message = apply_filter_edit(
        &mut filter,
        FilterEdit {
            field: FilterField::Provider,
            value: " codex ".to_string(),
        },
    )
    .unwrap();
    assert_eq!(message, "provider filter set to codex");
    assert_eq!(filter.provider.as_deref(), Some("codex"));

    let message = apply_filter_edit(
        &mut filter,
        FilterEdit {
            field: FilterField::Provider,
            value: " ".to_string(),
        },
    )
    .unwrap();
    assert_eq!(message, "provider filter cleared");
    assert!(filter.provider.is_none());

    apply_filter_edit(
        &mut filter,
        FilterEdit {
            field: FilterField::Status,
            value: "needs-review".to_string(),
        },
    )
    .unwrap();
    assert_eq!(filter.status, Some(Status::NeedsReview));
}

#[test]
fn filter_edits_reject_invalid_status() {
    let mut filter = SessionFilter::default();
    let err = apply_filter_edit(
        &mut filter,
        FilterEdit {
            field: FilterField::Status,
            value: "not-a-status".to_string(),
        },
    )
    .unwrap_err();
    assert!(!err.to_string().is_empty());
    assert!(filter.status.is_none());
}

#[test]
fn group_by_cycles_through_interactive_order() {
    let mut group = SessionGroupBy::Ungrouped;
    group = group.next();
    assert_eq!(group, SessionGroupBy::Task);
    group = group.next();
    assert_eq!(group, SessionGroupBy::WorkUnit);
    group = group.next();
    assert_eq!(group, SessionGroupBy::Branch);
    group = group.next();
    assert_eq!(group, SessionGroupBy::Provider);
    group = group.next();
    assert_eq!(group, SessionGroupBy::Status);
    group = group.next();
    assert_eq!(group, SessionGroupBy::Ungrouped);
}

#[test]
fn parse_poll_interval_rejects_zero_and_too_fast_values() {
    let default = parse_poll_interval(None).unwrap();
    assert_eq!((default.secs, default.nanos), (2, 0));
    let least = parse_poll_interval(Some("250ms")).unwrap();
    assert_eq!((least.secs, least.nanos), (0, 250_000_000));
    assert!(parse_poll_interval(Some("0s"))
        .unwrap_err()
        .to_string()
        .contains("at least 250ms"));
    assert!(parse_poll_interval(Some("249ms"))
        .unwrap_err()
        .to_string()
        .contains("at least 250ms"));
}

#[test]
fn tui_setup_cleanup_runs_registered_cleanup_in_reverse_order() {
    let calls = RefCell::new(Vec::new());
    let mut cleanup = TuiSetupCleanup::active();

    cleanup
        .cleanup_with_ops(
            || {
                calls.borrow_mut().push("leave-alternate");
                Ok::<(), String>(())
            },
            || {
                calls.borrow_mut().push("disable-raw");
                Ok(())
            },
        )
        .unwrap();

    assert_eq!(calls.into_inner(), vec!["leave-alternate", "disable-raw"]);
    assert!(!cleanup.alternate_screen_entered);
    assert!(!cleanup.raw_mode_enabled);
}

#[test]
fn tui_setup_cleanup_reports_first_error_and_still_cleans_all_state() {
    let calls = RefCell::new(Vec::new());
    let mut cleanup = TuiSetupCleanup::active();

    let err = cleanup
        .cleanup_with_ops(
            || {
                calls.borrow_mut().push("leave-alternate");
                Err(s("leave failed"))
            },
            || {
                calls.borrow_mut().push("disable-raw");
                Err(s("raw failed"))
            },
        )
        .unwrap_err();

    assert_eq!(err.to_string(), "leave failed");
    assert_eq!(calls.into_inner(), vec!["leave-alternate", "disable-raw"]);
    assert!(!cleanup.alternate_screen_entered);
    assert!(!cleanup.raw_mode_enabled);
}

#[test]
fn only_what_was_set_up_is_undone() {
    let mut cleanup = TuiSetupCleanup::untouched();
    cleanup.mark_raw_mode_enabled();
    let calls = RefCell::new(Vec::new());
    cleanup
        .cleanup_with_ops(
            || {
                calls.borrow_mut().push("leave-alternate");
                Ok::<(), String>(())
            },
            || {
                calls.borrow_mut().push("disable-raw");
                Ok(())
            },
        )
        .unwrap();
    assert_eq!(*calls.borrow(), vec!["disable-raw"]);
    let again = cleanup.cleanup_with_ops(|| Err(s("leave")), || Err(s("raw")));
    assert_eq!(again, Ok(()));
    cleanup.mark_alternate_screen_entered();
    cleanup.disarm();
    assert_eq!(cleanup, TuiSetupCleanup::untouched());
}

#[test]
fn app_navigation_and_refresh_preserve_selection() {
    let first = snapshot(
        vec![
            record("one", Status::Running),
            record("two", Status::Running),
        ],
        SessionGroupBy::Task,
    );
    let mut app = SessionsApp::new(first);

    assert_eq!(app.selected_row().map(|row| row.id.as_str()), Some("one"));
    app.move_down();
    assert_eq!(app.selected_row().map(|row| row.id.as_str()), Some("two"));
    app.move_up();
    assert_eq!(app.selected_row().map(|row| row.id.as_str()), Some("one"));
    app.move_down();

    let refreshed = snapshot(vec![record("one", Status::Running)], SessionGroupBy::Task);
    app.set_snapshot(refreshed);
    assert_eq!(app.selected_row().map(|row| row.id.as_str()), Some("one"));

    let empty = build_snapshot(&vec![], vec![], &all(), SessionGroupBy::Task);
    app.set_snapshot(empty);
    assert_eq!(app.selected, 0);
    assert!(app.selected_row().is_none());
}

#[test]
fn refresh_follows_the_selected_session() {
    let mut app = SessionsApp::new(snapshot(
        vec![record("a", Status::Running), record("b", Status::Running)],
        SessionGroupBy::Ungrouped,
    ));
    app.move_down();
    let mut newer = record("c", Status::Running);
    newer.updated_at = time("2026-06-03T12:06:00Z");
    app.set_snapshot(snapshot(
        vec![newer, record("a", Status::Running), record("b", Status::Running)],
        SessionGroupBy::Ungrouped,
    ));
    assert_eq!(app.selected_id(), Some(s("b")));
}

#[test]
fn once_render_contains_core_fields_without_shell_interpolation() {
    let mut hostile = record("disp-$(touch pwned)", Status::NeedsHuman);
    hostile.session = "tmux; touch pwned".to_string();
    hostile.branch = "branch && rm -rf /".to_string();
    let output = render_once(
        &snapshot(vec![hostile], SessionGroupBy::Ungrouped),
        time("2026-06-03T13:00:00Z"),
        "1.25",
        None,
    );
    assert!(output.contains("ATC Sessions"));
    assert!(output.contains("tasks/harmony-794"));
    assert!(output.contains("tmux; touch pwned"));
}

#[test]
fn renderer_draws_main_layout() {
    let app = SessionsApp::new(snapshot(
        vec![record("running", Status::Running)],
        SessionGroupBy::Task,
    ));
    let rendered = format!(
        "{}\n{}",
        header_text(&app, "1.25"),
        screen_row(&app.snapshot.rows[0]).join(" ")
    );
    assert!(rendered.contains("ATC Sessions"));
    assert!(rendered.contains("tasks/harmony-794"));
    assert!(rendered.contains("session-running"));
    assert!(!footer_text(&app).is_empty());
}

#[test]
fn renderer_draws_empty_state() {
    let filter = SessionFilter::default();
    let snapshot = build_snapshot(&vec![], vec![], &filter, SessionGroupBy::Ungrouped);
    let app = SessionsApp::new(snapshot);
    let rendered = empty_text(&app).unwrap();
    assert!(rendered.contains("No sessions found"));
    let once = render_once(&app.snapshot, time("2026-06-03T13:00:00Z"), "0.00", None);
    assert!(once.contains("No sessions found"));
    assert_eq!(refresh_failed_message("locked"), "refresh failed: locked");
}

#[test]
fn renderer_draws_detail_with_disabled_actions() {
    let mut unsupported = record("unsupported", Status::NeedsHuman);
    unsupported.agent_capabilities = Some(no_capabilities());
    unsupported.agent_session_id = None;
    unsupported.agent_transcript_cwd = None;
    let snapshot = snapshot(vec![unsupported], SessionGroupBy::Task);
    let rendered = detail_text(&snapshot.rows[0]);
    assert!(rendered.contains("provider_session"));
    assert!(rendered.contains("provider does not advertise"));
    assert!(rendered.contains("log file missing or unreadable"));
}

#[test]
fn renderer_draws_confirmation_dialog() {
    let rendered = confirmation_text(PendingAction::Cleanup);
    assert!(rendered.contains("Confirm cleanup selected dispatch"));
    assert!(rendered.contains("Press y to confirm"));
}

fn press(
    app: &mut SessionsApp,
    filter: &mut SessionFilter,
    group: &mut SessionGroupBy,
    keys: &[Key],
) -> Vec<Request> {
    keys.iter()
        .map(|k| handle_key(*k, false, app, filter, group))
        .collect()
}

#[test]
fn destructive_actions_need_a_second_key() {
    let mut app = SessionsApp::new(snapshot(
        vec![record("running", Status::Running)],
        SessionGroupBy::Task,
    ));
    let mut filter = SessionFilter::default();
    let mut group = SessionGroupBy::Task;
    let r = press(&mut app, &mut filter, &mut group, &[Key::Char('s')]);
    assert_eq!(r, vec![Request::Nothing]);
    assert_eq!(app.pending_confirmation, Some(PendingAction::Stop));
    let r = press(&mut app, &mut filter, &mut group, &[Key::Char('n')]);
    assert_eq!(r, vec![Request::Nothing]);
    assert_eq!(app.pending_confirmation, None);
    let r = press(
        &mut app,
        &mut filter,
        &mut group,
        &[Key::Char('s'), Key::Char('y')],
    );
    assert!(matches!(
        r[1],
        Request::Perform {
            action: Action::Stop,
            ..
        }
    ));
}

#[test]
fn typing_edits_the_filter_only() {
    let mut app = SessionsApp::new(snapshot(
        vec![record("running", Status::Running)],
        SessionGroupBy::Task,
    ));
    let mut filter = SessionFilter::default();
    let mut group = SessionGroupBy::Task;
    let r = press(
        &mut app,
        &mut filter,
        &mut group,
        &[
            Key::Char('/'),
            Key::Char('s'),
            Key::Char('x'),
            Key::Backspace,
            Key::Enter,
        ],
    );
    assert_eq!(filter.search, Some(s("s")));
    assert_eq!(r[4], Request::Reload);
    assert!(app.filter_input.is_none());
    let r = press(&mut app, &mut filter, &mut group, &[Key::Char('g')]);
    assert_eq!(group, SessionGroupBy::WorkUnit);
    assert_eq!(r, vec![Request::Reload]);
    assert_eq!(handle_key(Key::Char('c'), true, &mut app, &mut filter, &mut group), Request::Quit);
}

#[test]
fn filters_come_from_options() {
    let opts = |status: Option<&str>| SessionsOpts {
        task: Some(s("t")),
        work_unit: None,
        branch: None,
        provider: None,
        status: status.map(s),
        search: None,
        group: SessionGroupBy::Task,
        all: false,
        poll_interval: None,
        once: false,
        json: false,
    };
    let f = SessionFilter::from_opts(&opts(Some("done"))).ok().unwrap();
    assert_eq!(f.task, Some(s("t")));
    assert_eq!(f.status, Some(Status::Done));
    assert!(SessionFilter::from_opts(&opts(Some("nope"))).is_err());
    assert!(parse_status("nope").is_err());
    assert_eq!(optional_filter_value(" x "), Some(s("x")));
    assert_eq!(optional_filter_value("  "), None);
}

#[test]
fn records_are_grouped_and_searched() {
    let r = record("a", Status::Running);
    let units = vec![work_unit()];
    assert_eq!(group_key(&r, &units, SessionGroupBy::Branch), r.branch);
    assert_eq!(group_key(&r, &units, SessionGroupBy::Status), "running");
    assert_eq!(task_slug_for_record(&r, &units), Some(s("tasks/harmony-794")));
    assert!(search_haystack(&r, &units).contains("pull/99"));
    assert!(record_matches_filter(&r, &units, &SessionFilter::default()));
    assert_eq!(path_to_nonempty_string(""), None);
    assert_eq!(path_to_nonempty_string("/x"), Some(s("/x")));
}

#[test]
fn rows_are_newest_first() {
    let mut old = record("old", Status::Running);
    old.updated_at = time("2026-06-03T12:01:00Z");
    let snap = snapshot(
        vec![old, record("new", Status::Running)],
        SessionGroupBy::Ungrouped,
    );
    let ids: Vec<&str> = snap.rows.iter().map(|r| r.id.as_str()).collect();
    assert_eq!(ids, vec!["new", "old"]);
    assert_eq!(snap.output().schema_version, 1);
    assert_eq!(snap.summary.total, 2);
}

#[test]
fn long_text_is_cut_in_the_middle() {
    assert_eq!(truncate_middle("abcdef", 10), "abcdef");
    let cut = truncate_middle("abcdefghij", 5);
    assert!(cut.chars().count() <= 5);
    assert!(cut.starts_with('a'));
    assert!(cut.ends_with('j'));
    assert_eq!(format_cost(&None), "-");
    assert_eq!(
        format_cost(&Some(Cost {
            amount: s("1.25"),
            band: CostBand::Low
        })),
        "$1.25"
    );
}

#[test]
fn endings_of_actions_are_told() {
    let snap = snapshot(vec![record("a", Status::Running)], SessionGroupBy::Ungrouped);
    let row = &snap.rows[0];
    assert!(action_message(Action::Resume, row, &ActionEnd::ResumedAs(s("new-id"))).contains("new-id"));
    assert!(action_message(Action::Stop, row, &ActionEnd::Failed(s("broken"))).contains("broken"));
    assert!(!action_message(Action::Stop, row, &ActionEnd::Done).is_empty());
}

#[test]
fn resuming_asks_for_nothing_but_the_message() {
    let opts = resume_opts("d-1", "go on");
    assert_eq!(opts.input, "go on");
    assert_eq!(opts.resume.as_deref(), Some("d-1"));
    assert_eq!(opts.directive, None);
    assert_eq!(opts.pr_url, None);
    assert_eq!(opts.retries, 0);
    assert!(opts.repos.is_empty());
    assert!(!opts.inline && !opts.force && !opts.dry_run && !opts.ephemeral);
}
