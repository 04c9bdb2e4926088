use atc::history::{build_history_table, choose_lookup, empty_message, not_found_message, Lookup};
use atc::info::{format_info, info_output};
use atc::post_complete::{choose_dispatch, completed_message};
use atc::status::format_pr_url;
use atc::types::{
    Cost, CostBand, Directive, DispatchRecord, HealthChecks, Status, Timestamp, WorkUnit,
    WorkUnitStatus,
};

fn s(t: &str) -> String {
    t.to_string()
}

fn time(t: &str) -> Timestamp {
    let at = chrono::DateTime::parse_from_rfc3339(t).unwrap();
    Timestamp {
        secs: at.timestamp(),
        nanos: 0,
    }
}

fn no_checks() -> HealthChecks {
    HealthChecks {
        agent_exited_clean: false,
        branch_pushed: false,
        pr_created: false,
        ci_passed: false,
        reviews_approved: false,
        threads_resolved: false,
    }
}

fn record(id: &str, status: Status) -> DispatchRecord {
    DispatchRecord {
        id: s(id),
        task_slug: Some(s("tasks/foo")),
        branch: s("tasks--foo"),
        worktree_path: s("/tmp/wt"),
        session: s("test-session"),
        log_file: s("/tmp/test.jsonl"),
        status,
        directive: Directive::Implement,
        retries: 0,
        resolver: s("task"),
        pr_urls: vec![],
        no_worktree: false,
        original_input: None,
        checks: no_checks(),
        kb_root: None,
        cost: None,
        num_turns: None,
        duration_ms: None,
        artifacts: None,
        work_unit_id: None,
        agent_provider: s("codex"),
        agent_session_id: None,
        agent_transcript_cwd: None,
        resume_of_dispatch_id: None,
        agent_capabilities: None,
        terminal_locator: None,
        dispatched_at: time("2026-03-12T05:31:41Z"),
        updated_at: time("2026-03-12T05:31:41Z"),
    }
}

fn cost(amount: &str) -> Option<Cost> {
    Some(Cost {
        amount: s(amount),
        band: CostBand::Low,
    })
}

fn sample_work_unit() -> WorkUnit {
    WorkUnit {
        id: s("wu-test-001"),
        task_slug: Some(s("tasks/harmony-370")),
        branch: Some(s("tasks-harmony-370")),
        repos: vec![s("open-source/atc")],
        pr_urls: vec![s("https://github.com/harmony-labs/atc/pull/30")],
        status: WorkUnitStatus::Merged,
        created_at: time("2026-03-26T18:00:00Z"),
        updated_at: time("2026-03-26T18:00:00Z"),
    }
}

fn sample_dispatch(directive: Directive, amount: f64) -> DispatchRecord {
    DispatchRecord {
        task_slug: Some(s("tasks/harmony-370")),
        branch: s("tasks-harmony-370"),
        directive,
        cost: cost(&format!("{amount:.2}")),
        num_turns: Some(10),
        duration_ms: Some(300_000),
        work_unit_id: Some(s("wu-test-001")),
        dispatched_at: time("2026-03-26T18:00:00Z"),
        ..record("test@implement@123", Status::Done)
    }
}

#[test]
fn test_build_history_table_shows_task_and_totals() {
    let unit = sample_work_unit();
    let dispatches = vec![
        sample_dispatch(Directive::Implement, 4.20),
        sample_dispatch(Directive::ReviewFix, 2.10),
    ];
    let table = build_history_table(&unit, &dispatches, &format!("{:.2}", 4.20 + 2.10));
    assert!(table.contains("tasks/harmony-370"));
    assert!(table.contains("tasks-harmony-370"));
    assert!(table.contains("atc#30"));
    assert!(table.contains("merged"));
    assert!(table.contains("$6.30"));
    assert!(table.contains("2 dispatches"));
}

#[test]
fn test_build_history_table_single_dispatch() {
    let unit = sample_work_unit();
    let dispatches = vec![sample_dispatch(Directive::Implement, 3.50)];
    let table = build_history_table(&unit, &dispatches, "3.50");
    assert!(table.contains("$3.50"));
    assert!(table.contains("1 dispatch"));
    assert!(!table.contains("dispatches"));
}

#[test]
fn history_shows_when_work_was_dispatched() {
    let table = build_history_table(
        &sample_work_unit(),
        &vec![sample_dispatch(Directive::Implement, 3.50)],
        "3.50",
    );
    assert!(table.contains("2026-03-26 18:00"));
}

#[test]
fn test_format_pr_url_github() {
    assert_eq!(
        format_pr_url("https://github.com/harmony-labs/atc/pull/30"),
        "atc#30"
    );
}

#[test]
fn test_format_pr_url_unknown() {
    assert_eq!(
        format_pr_url("http://other.com/pr/1"),
        "http://other.com/pr/1"
    );
}

#[test]
fn history_is_looked_up_one_way() {
    assert!(matches!(choose_lookup(Some("t"), None, None), Ok(Lookup::Task)));
    assert!(matches!(choose_lookup(None, Some("p"), None), Ok(Lookup::PullRequest)));
    assert!(matches!(choose_lookup(None, None, Some("b")), Ok(Lookup::Branch)));
    assert!(choose_lookup(None, None, None).is_err());
    assert!(not_found_message(Some("t"), None, None).contains("t"));
    assert!(empty_message(&sample_work_unit()).contains("wu-test-001"));
}

fn full_record() -> DispatchRecord {
    DispatchRecord {
        task_slug: Some(s("tasks/gitkb-42")),
        branch: s("tasks--gitkb-42"),
        worktree_path: s("/tmp/worktrees/harmony/tasks-gitkb-42/gitkb"),
        session: s("tasks--gitkb-42@implement@1773293500"),
        retries: 1,
        pr_urls: vec![s("https://github.com/acme-org/acme-core/pull/275")],
        checks: HealthChecks {
            agent_exited_clean: true,
            branch_pushed: true,
            pr_created: true,
            ci_passed: true,
            reviews_approved: true,
            threads_resolved: true,
        },
        cost: cost("8.59"),
        num_turns: Some(47),
        duration_ms: Some(592_000),
        dispatched_at: time("2026-03-12T05:31:41+00:00"),
        updated_at: time("2026-03-12T07:45:00+00:00"),
        ..record("tasks--gitkb-42@implement@1773293500", Status::Done)
    }
}

#[test]
fn test_format_info_full_record() {
    let output = format_info(&full_record());
    assert!(output.contains("id:"));
    assert!(output.contains("task_slug:"));
    assert!(output.contains("tasks/gitkb-42"));
    assert!(output.contains("status:"));
    assert!(output.contains("done"));
    assert!(output.contains("directive:"));
    assert!(output.contains("implement"));
    assert!(output.contains("resolver:"));
    assert!(output.contains("task"));
    assert!(output.contains("branch:"));
    assert!(output.contains("pr_urls:"));
    assert!(output.contains("pull/275"));
    assert!(output.contains("cost_usd:"));
    assert!(output.contains("$8.59"));
    assert!(output.contains("checks:"));
    assert!(output.contains("\u{2713}"));
}

#[test]
fn test_format_info_omits_none_fields() {
    let mut record = full_record();
    record.task_slug = None;
    record.pr_urls = vec![];
    record.cost = None;
    record.num_turns = None;
    record.duration_ms = None;
    record.retries = 0;

    let output = format_info(&record);
    assert!(!output.contains("task_slug:"));
    assert!(!output.contains("pr_urls:"));
    assert!(!output.contains("cost_usd:"));
    assert!(output.contains("id:"));
    assert!(output.contains("checks:"));
}

#[test]
fn info_envelope_has_a_version() {
    let r = full_record();
    let out = info_output(&r);
    assert_eq!(out.schema_version, 1);
    assert_eq!(out.record.id, r.id);
}

#[test]
fn completion_names_a_dispatch() {
    assert_eq!(choose_dispatch(Some("x"), &vec![]).unwrap(), "x");
    assert_eq!(
        choose_dispatch(None, &vec![record("r", Status::Running)]).unwrap(),
        "r"
    );
    assert_eq!(
        choose_dispatch(None, &vec![]).unwrap_err(),
        "no running dispatches found; specify --id"
    );
    assert_eq!(
        completed_message("r", Status::Done, None),
        "post-complete: r \u{2192} done (PR: none)"
    );
}
