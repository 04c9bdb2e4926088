use atc::health::{
    assemble_display, check_stale, collect_auto_review_candidates, collect_done, cost_warning,
    is_cleanup_candidate, is_cost_checked, may_clean_up, print_table, refresh_result,
    review_fix_notice, review_fix_opts, review_fix_outcome, signal_display, signal_values,
    transition_message, unit_transition, HealthResult, Stale, Transition,
};
use atc::types::{
    Cost, CostBand, Directive, DispatchRecord, HealthChecks, Status, Timestamp, WorkUnit,
    WorkUnitStatus,
};

fn s(t: &str) -> String {
    t.to_string()
}

fn time(t: &str) -> Timestamp {
    let at = chrono::DateTime::parse_from_rfc3339(t).unwrap();
    Timestamp {
        secs: at.timestamp(),
        nanos: 0,
    }
}

fn no_checks() -> HealthChecks {
    HealthChecks {
        agent_exited_clean: false,
        branch_pushed: false,
        pr_created: false,
        ci_passed: false,
        reviews_approved: false,
        threads_resolved: false,
    }
}

fn record(id: &str, status: Status) -> DispatchRecord {
    DispatchRecord {
        id: s(id),
        task_slug: Some(s("tasks/foo")),
        branch: s("tasks--foo"),
        worktree_path: s("/tmp/wt"),
        session: s("test-session"),
        log_file: s("/tmp/test.jsonl"),
        status,
        directive: Directive::Implement,
        retries: 0,
        resolver: s("task"),
        pr_urls: vec![],
        no_worktree: false,
        original_input: None,
        checks: no_checks(),
        kb_root: None,
        cost: None,
        num_turns: None,
        duration_ms: None,
        artifacts: None,
        work_unit_id: None,
        agent_provider: s("codex"),
        agent_session_id: None,
        agent_transcript_cwd: None,
        resume_of_dispatch_id: None,
        agent_capabilities: None,
        terminal_locator: None,
        dispatched_at: time("2026-03-12T05:31:41Z"),
        updated_at: time("2026-03-12T05:31:41Z"),
    }
}

fn make_record(status: Status, checks: HealthChecks) -> DispatchRecord {
    DispatchRecord {
        checks,
        ..record("test-id", status)
    }
}

fn make_record_with_pr(
    status: Status,
    checks: HealthChecks,
    pr_url: Option<String>,
    cost_usd: Option<f64>,
) -> DispatchRecord {
    DispatchRecord {
        pr_urls: pr_url.into_iter().collect(),
        cost: cost_usd.map(|c| Cost {
            amount: format!("{c:.2}"),
            band: CostBand::Low,
        }),
        ..make_record(status, checks)
    }
}

#[test]
fn test_signal_values_all_false_running() {
    let record = make_record(Status::Running, no_checks());
    let vals = signal_values(&record);
    assert_eq!(vals, [Some(false), None, None, None, None, None]);
}

#[test]
fn test_signal_values_needs_human_all_none() {
    let record = make_record(Status::NeedsHuman, no_checks());
    let vals = signal_values(&record);
    assert_eq!(vals, [None; 6]);
}

#[test]
fn test_signal_values_all_true() {
    let checks = HealthChecks {
        agent_exited_clean: true,
        branch_pushed: true,
        pr_created: true,
        ci_passed: true,
        reviews_approved: true,
        threads_resolved: true,
    };
    let record = make_record(Status::Done, checks);
    let vals = signal_values(&record);
    assert_eq!(vals, [Some(true); 6]);
}

#[test]
fn test_signal_values_short_circuit_at_branch() {
    let checks = HealthChecks {
        agent_exited_clean: true,
        branch_pushed: false,
        ..no_checks()
    };
    let record = make_record(Status::Failed, checks);
    let vals = signal_values(&record);
    assert_eq!(vals, [Some(true), Some(false), None, None, None, None]);
}

#[test]
fn test_signal_values_short_circuit_at_pr() {
    let checks = HealthChecks {
        agent_exited_clean: true,
        branch_pushed: true,
        pr_created: false,
        ..no_checks()
    };
    let record = make_record(Status::Failed, checks);
    let vals = signal_values(&record);
    assert_eq!(
        vals,
        [Some(true), Some(true), Some(false), None, None, None]
    );
}

fn open_pr_checks() -> HealthChecks {
    HealthChecks {
        agent_exited_clean: true,
        branch_pushed: true,
        pr_created: true,
        ci_passed: false,
        ..no_checks()
    }
}

#[test]
fn test_signal_values_short_circuit_at_ci() {
    let record = make_record(Status::NeedsReview, open_pr_checks());
    let vals = signal_values(&record);
    assert_eq!(
        vals,
        [Some(true), Some(true), Some(true), Some(false), None, None]
    );
}

#[test]
fn test_signal_values_short_circuit_at_reviews() {
    let checks = HealthChecks {
        ci_passed: true,
        reviews_approved: false,
        ..open_pr_checks()
    };
    let record = make_record(Status::NeedsReview, checks);
    let vals = signal_values(&record);
    assert_eq!(
        vals,
        [
            Some(true),
            Some(true),
            Some(true),
            Some(true),
            Some(false),
            None
        ]
    );
}

#[test]
fn test_signal_display_values() {
    assert_eq!(signal_display(Some(true)), "\u{2713}");
    assert_eq!(signal_display(Some(false)), "\u{2717}");
    assert_eq!(signal_display(None), "-");
}

const PR: &str = "https://github.com/org/repo/pull/1";

#[test]
fn test_auto_review_collects_needs_review_with_pr() {
    let record =
        make_record_with_pr(Status::NeedsReview, open_pr_checks(), Some(s(PR)), None);
    let results = vec![HealthResult {
        record,
        changed: true,
    }];
    let candidates = collect_auto_review_candidates(&results);
    assert_eq!(candidates.len(), 1);
}

#[test]
fn test_auto_review_skips_needs_review_without_pr() {
    let record = make_record_with_pr(Status::NeedsReview, open_pr_checks(), None, None);
    let results = vec![HealthResult {
        record,
        changed: true,
    }];
    let candidates = collect_auto_review_candidates(&results);
    assert!(candidates.is_empty());
}

#[test]
fn test_auto_review_skips_unchanged_needs_review() {
    let record =
        make_record_with_pr(Status::NeedsReview, open_pr_checks(), Some(s(PR)), None);
    let results = vec![HealthResult {
        record,
        changed: false,
    }];
    let candidates = collect_auto_review_candidates(&results);
    assert!(candidates.is_empty());
}

#[test]
fn test_auto_review_skips_non_needs_review() {
    let record = make_record_with_pr(Status::Running, no_checks(), Some(s(PR)), None);
    let results = vec![HealthResult {
        record,
        changed: false,
    }];
    let candidates = collect_auto_review_candidates(&results);
    assert!(candidates.is_empty());
}

#[test]
fn test_auto_review_skips_missing_task_slug() {
    let mut record =
        make_record_with_pr(Status::NeedsReview, open_pr_checks(), Some(s(PR)), None);
    record.task_slug = None;
    let results = vec![HealthResult {
        record,
        changed: true,
    }];
    let candidates = collect_auto_review_candidates(&results);
    assert!(candidates.is_empty());
}

#[test]
fn test_auto_review_skips_review_fix_directive() {
    let mut record =
        make_record_with_pr(Status::NeedsReview, open_pr_checks(), Some(s(PR)), None);
    record.directive = Directive::ReviewFix;
    let results = vec![HealthResult {
        record,
        changed: true,
    }];
    let candidates = collect_auto_review_candidates(&results);
    assert!(candidates.is_empty());
}

fn warning(cost: Option<f64>, threshold: f64) -> Option<String> {
    let record = make_record_with_pr(Status::Done, no_checks(), None, cost);
    let over = cost.map(|c| c > threshold).unwrap_or(false);
    cost_warning(&record, over, &format!("{threshold:.2}"))
}

#[test]
fn test_cost_warning_over_threshold() {
    let msg = warning(Some(15.0), 10.0);
    assert!(msg.is_some());
    let msg = msg.unwrap();
    assert!(msg.contains("15.00"));
    assert!(msg.contains("10.00"));
}

#[test]
fn test_cost_warning_under_threshold() {
    assert!(warning(Some(5.0), 10.0).is_none());
}

#[test]
fn test_cost_warning_no_cost() {
    assert!(warning(None, 10.0).is_none());
}

#[test]
fn test_cost_warning_exact_threshold() {
    assert!(warning(Some(10.0), 10.0).is_none());
}

#[test]
fn test_cost_warning_custom_threshold() {
    assert!(warning(Some(6.0), 5.0).is_some());
    assert!(warning(Some(6.0), 10.0).is_none());
}

#[test]
fn review_fixes_are_started_once() {
    let record =
        make_record_with_pr(Status::NeedsReview, open_pr_checks(), Some(s(PR)), None);
    let opts = review_fix_opts(&record).unwrap();
    assert_eq!(opts.directive, Some(Directive::ReviewFix));
    assert_eq!(opts.pr_url, Some(s(PR)));
    let again = HealthResult {
        record: DispatchRecord {
            directive: Directive::ReviewFix,
            ..make_record_with_pr(Status::NeedsReview, open_pr_checks(), Some(s(PR)), None)
        },
        changed: true,
    };
    assert!(collect_auto_review_candidates(&vec![again]).is_empty());
    assert!(review_fix_notice("tasks/foo").contains("tasks/foo"));
    assert!(review_fix_outcome("tasks/foo", &Ok(s("id-9"))).contains("id-9"));
    assert!(review_fix_outcome("tasks/foo", &Err(s("broken"))).contains("broken"));
}

#[test]
fn stale_records_are_found() {
    let mut r = make_record(Status::Done, open_pr_checks());
    assert_eq!(check_stale(&r, true), Stale::Extract);
    assert_eq!(check_stale(&r, false), Stale::NoLog);
    r.artifacts = Some(s("{}"));
    assert_eq!(check_stale(&r, true), Stale::Fine);
    assert_eq!(check_stale(&make_record(Status::Running, no_checks()), true), Stale::Fine);
}

#[test]
fn fresh_records_replace_old_ones() {
    let mut results = vec![HealthResult {
        record: record("a", Status::Running),
        changed: true,
    }];
    refresh_result(&mut results, record("a", Status::Done));
    refresh_result(&mut results, record("b", Status::Done));
    assert_eq!(results.len(), 1);
    assert_eq!(results[0].record.status, Status::Done);
    assert!(is_cost_checked(&results[0], &vec![s("a")]));
}

#[test]
fn done_work_is_cleaned_up_when_its_requests_are_over() {
    let r = make_record_with_pr(Status::Done, no_checks(), Some(s(PR)), None);
    assert!(is_cleanup_candidate(&r, true));
    assert!(!is_cleanup_candidate(&r, false));
    assert!(may_clean_up(&r, true, &vec![true]));
    assert!(!may_clean_up(&r, true, &vec![false]));
    assert!(!may_clean_up(&r, true, &vec![]));
}

#[test]
fn done_records_are_collected_once() {
    let now = time("2026-03-13T00:00:00Z");
    let results = vec![HealthResult {
        record: record("a", Status::Done),
        changed: true,
    }];
    let known = vec![record("a", Status::Done), record("b", Status::Done)];
    let done = collect_done(&results, &known, now);
    let ids: Vec<&str> = done.iter().map(|r| r.id.as_str()).collect();
    assert_eq!(ids, vec!["a", "b"]);
}

#[test]
fn units_follow_their_pull_requests() {
    let st = |v: &[&str]| v.iter().map(|t| Some(s(t))).collect::<Vec<_>>();
    assert_eq!(unit_transition(&vec![]), Transition::Stay);
    assert_eq!(unit_transition(&vec![None]), Transition::Unknown);
    assert_eq!(unit_transition(&st(&["MERGED", "OPEN"])), Transition::Stay);
    assert_eq!(
        unit_transition(&st(&["MERGED", "CLOSED"])),
        Transition::To(WorkUnitStatus::Merged)
    );
    assert_eq!(
        unit_transition(&st(&["CLOSED"])),
        Transition::To(WorkUnitStatus::Closed)
    );
    let unit = WorkUnit {
        id: s("wu-1"),
        task_slug: Some(s("tasks/foo")),
        branch: None,
        repos: vec![],
        pr_urls: vec![],
        status: WorkUnitStatus::Active,
        created_at: time("2026-03-13T00:00:00Z"),
        updated_at: time("2026-03-13T00:00:00Z"),
    };
    assert!(transition_message(&unit, WorkUnitStatus::Merged).contains("merged"));
}

#[test]
fn health_table_lists_each_record() {
    let lines = print_table(&vec![record("a", Status::Done)]);
    assert!(lines.len() == 2 && lines[1].starts_with('a'));
}

#[test]
fn shown_records_do_not_repeat() {
    let results = vec![HealthResult {
        record: record("a", Status::Running),
        changed: false,
    }];
    let shown = assemble_display(
        results,
        vec![record("h", Status::NeedsHuman)],
        Some(vec![record("a", Status::Running), record("z", Status::Done)]),
    );
    let ids: Vec<&str> = shown.iter().map(|r| r.id.as_str()).collect();
    assert_eq!(ids, vec!["a", "h", "z"]);
}
