use atc::status::{
    apply_filters, build_grouped_table, build_summary, build_table, choose_listing,
    format_duration, format_pr_list, format_pr_url, is_selected, is_shown_by_default,
    is_valid_github_pr_url, order_for_render, parse_status_filter, print_status, retain_visible,
    shorten_pr_url, truncate, Listing, StatusOpts, StatusOutputV1, StatusSummary,
};
use atc::times::{parse_since, Span};
use atc::types::{
    AgentCapabilities, Cost, CostBand, Directive, DispatchRecord, HealthChecks, Status, Timestamp,
    WorkUnit, WorkUnitStatus,
};

fn s(t: &str) -> String {
    t.to_string()
}

fn time(t: &str) -> Timestamp {
    let at = chrono::DateTime::parse_from_rfc3339(t).unwrap();
    Timestamp {
        secs: at.timestamp(),
        nanos: 0,
    }
}

fn ago(now: Timestamp, secs: i64) -> Timestamp {
    Timestamp {
        secs: now.secs - secs,
        nanos: now.nanos,
    }
}

const HOUR: i64 = 3600;
const DAY: i64 = 24 * HOUR;

fn hours(n: u64) -> Option<Span> {
    Some(Span {
        secs: n * 3600,
        nanos: 0,
    })
}

fn sample_record(id: &str, status: Status) -> DispatchRecord {
    DispatchRecord {
        id: s(id),
        task_slug: Some(s("tasks/gitkb-42")),
        branch: s("tasks--gitkb-42"),
        worktree_path: s("/tmp/wt"),
        session: s("atc-session"),
        log_file: s("/tmp/log.jsonl"),
        status,
        directive: Directive::Implement,
        retries: 0,
        resolver: s("task"),
        pr_urls: vec![],
        no_worktree: false,
        original_input: None,
        checks: HealthChecks {
            agent_exited_clean: false,
            branch_pushed: false,
            pr_created: false,
            ci_passed: false,
            reviews_approved: false,
            threads_resolved: false,
        },
        kb_root: None,
        cost: Some(Cost {
            amount: s("1.50"),
            band: CostBand::Low,
        }),
        num_turns: Some(10),
        duration_ms: Some(592_000),
        artifacts: None,
        work_unit_id: None,
        agent_provider: s("codex"),
        agent_session_id: None,
        agent_transcript_cwd: None,
        resume_of_dispatch_id: None,
        agent_capabilities: None::<AgentCapabilities>,
        terminal_locator: None,
        dispatched_at: time("2026-03-12T05:31:41Z"),
        updated_at: time("2026-03-12T05:31:41Z"),
    }
}

fn updated(id: &str, status: Status, at: Timestamp) -> DispatchRecord {
    let mut r = sample_record(id, status);
    r.updated_at = at;
    r
}

fn ids(records: &[DispatchRecord]) -> Vec<&str> {
    records.iter().map(|r| r.id.as_str()).collect()
}

#[test]
fn test_format_duration() {
    assert_eq!(format_duration(592_000), "9m 52s");
    assert_eq!(format_duration(60_000), "1m 00s");
    assert_eq!(format_duration(5_000), "5s");
    assert_eq!(format_duration(0), "0s");
    assert_eq!(format_duration(3_661_000), "61m 01s");
}

#[test]
fn test_truncate() {
    assert_eq!(truncate("short", 40), "short");
    let long = "a".repeat(50);
    let result = truncate(&long, 40);
    assert_eq!(result.chars().count(), 41);
    assert!(result.ends_with('\u{2026}'));
}

#[test]
fn test_build_table_wide_terminal() {
    let records = vec![sample_record("id-1", Status::Running)];
    let table = build_table(&records, 160, false);
    assert!(table.contains("tasks/gitkb-42"));
    assert!(table.contains("running"));
    assert!(table.contains("$1.50"));
    assert!(table.contains("9m 52s"));
}

#[test]
fn test_build_summary() {
    let records = vec![
        sample_record("id-1", Status::Running),
        sample_record("id-2", Status::Done),
        sample_record("id-3", Status::Failed),
        sample_record("id-4", Status::NeedsHuman),
    ];
    let summary = build_summary(&records, &format!("{:.2}", 1.5 * 4.0));
    assert!(summary.contains("1 running"));
    assert!(summary.contains("1 done"));
    assert!(summary.contains("1 failed"));
    assert!(summary.contains("1 needs-human"));
    assert!(summary.contains("of 4 total"));
    assert!(summary.contains("$6.00"));
}

#[test]
fn test_build_summary_includes_all_statuses() {
    let records = vec![
        sample_record("id-1", Status::Running),
        sample_record("id-2", Status::NeedsReview),
        sample_record("id-3", Status::Stopped),
        sample_record("id-4", Status::Retrying),
    ];
    let summary = build_summary(&records, "6.00");
    assert!(summary.contains("1 running"));
    assert!(summary.contains("1 needs-review"));
    assert!(summary.contains("1 stopped"));
    assert!(summary.contains("1 retrying"));
    assert!(summary.contains("of 4 total"));
}

#[test]
fn test_build_summary_omits_zero_counts() {
    let records = vec![sample_record("id-1", Status::Done)];
    let summary = build_summary(&records, "1.50");
    assert!(summary.contains("1 done"));
    assert!(!summary.contains("running"));
    assert!(!summary.contains("failed"));
}

#[test]
fn test_format_pr_list_collapses_excess() {
    let urls: Vec<String> = (1..=7)
        .map(|i| format!("https://github.com/acme/repo/pull/{i}"))
        .collect();
    let out = format_pr_list(&urls);
    assert!(
        out.contains("repo#1, repo#2, repo#3, +4 more"),
        "got: {out}"
    );
}

#[test]
fn test_format_pr_list_under_cap_no_summary() {
    let urls = vec![
        "https://github.com/acme/repo/pull/1".to_string(),
        "https://github.com/acme/repo/pull/2".to_string(),
    ];
    let out = format_pr_list(&urls);
    assert_eq!(out, "repo#1, repo#2");
}

#[test]
fn test_format_pr_url_invalid_renders_invalid() {
    let bad = "atc#36\".to_string()],\n";
    assert_eq!(format_pr_url(bad), "(invalid)");
}

#[test]
fn test_format_pr_url_valid_with_issuecomment() {
    let url = "https://github.com/acme/repo/pull/42#issuecomment-12345";
    assert_eq!(format_pr_url(url), "repo#42");
}

#[test]
fn pull_request_links_are_matched() {
    assert!(is_valid_github_pr_url("https://github.com/acme/repo/pull/42"));
    assert!(!is_valid_github_pr_url("https://github.com/acme/repo/issues/42"));
    assert!(!is_valid_github_pr_url("https://github.com/acme/repo/pull/x"));
    assert_eq!(
        shorten_pr_url("https://github.com/acme/repo/pull/42", true),
        "repo#42"
    );
    assert_eq!(
        shorten_pr_url("https://github.com/acme/repo/pull/42", false),
        "(invalid)"
    );
}

#[test]
fn addresses_on_other_hosts_are_kept() {
    let url = "https://git.example.org/a/b/-/merge_requests/7";
    assert_eq!(format_pr_url(url), url);
    assert_eq!(format_pr_url("https://github.com.example.org/x"), "https://github.com.example.org/x");
    assert_eq!(format_pr_url("http://github.com/acme/repo/pull/1"), "(invalid)");
    assert_eq!(format_pr_url("https://other.com/a b"), "(invalid)");
    assert_eq!(format_pr_url("https://other.com/\u{1b}[31m"), "(invalid)");
    assert_eq!(format_pr_url("ftp://other.com/x"), "(invalid)");
}

#[test]
fn test_apply_filters_default_keeps_running_and_actionable() {
    let now = time("2026-04-25T12:00:00Z");
    let r1 = updated("id-1", Status::Running, now);
    let r2 = updated("id-2", Status::Done, now);
    let r3 = updated("id-3", Status::NeedsReview, now);

    let out = apply_filters(vec![r1, r2, r3], None, false, false, None, now).unwrap();
    let statuses: Vec<Status> = out.iter().map(|r| r.status).collect();
    assert_eq!(statuses, vec![Status::Running, Status::NeedsReview]);
}

#[test]
fn test_apply_filters_all_keeps_everything() {
    let now = time("2026-04-25T12:00:00Z");
    let r1 = sample_record("id-1", Status::Running);
    let r2 = sample_record("id-2", Status::Done);
    let r3 = sample_record("id-3", Status::Stopped);

    let out = apply_filters(vec![r1, r2, r3], None, true, false, None, now).unwrap();
    assert_eq!(out.len(), 3);
}

#[test]
fn test_apply_filters_include_done_with_since_bounds_done_records() {
    let now = time("2026-04-25T12:00:00Z");
    let records = || {
        vec![
            updated("running", Status::Running, ago(now, 30 * DAY)),
            updated("done-recent", Status::Done, ago(now, 2 * HOUR)),
            updated("done-old", Status::Done, ago(now, 10 * DAY)),
        ]
    };
    let out = apply_filters(records(), None, false, true, hours(24), now).unwrap();
    assert_eq!(ids(&out), vec!["running", "done-recent"]);

    let out = apply_filters(records(), None, false, true, None, now).unwrap();
    assert_eq!(out.len(), 3);
}

#[test]
fn test_apply_filters_status_filter_respects_since() {
    let now = time("2026-04-25T12:00:00Z");
    let out = apply_filters(
        vec![
            updated("done-recent", Status::Done, ago(now, 2 * HOUR)),
            updated("done-old", Status::Done, ago(now, 10 * DAY)),
            updated("running-recent", Status::Running, ago(now, HOUR)),
        ],
        Some("done"),
        false,
        false,
        hours(24),
        now,
    )
    .unwrap();
    assert_eq!(ids(&out), vec!["done-recent"]);
}

#[test]
fn test_apply_filters_all_respects_since() {
    let now = time("2026-04-25T12:00:00Z");
    let out = apply_filters(
        vec![
            updated("running-recent", Status::Running, ago(now, 2 * HOUR)),
            updated("running-old", Status::Running, ago(now, 10 * DAY)),
            updated("stopped-recent", Status::Stopped, ago(now, 3 * HOUR)),
        ],
        None,
        true,
        false,
        hours(24),
        now,
    )
    .unwrap();
    let mut ids = ids(&out);
    ids.sort();
    assert_eq!(ids, vec!["running-recent", "stopped-recent"]);
}

#[test]
fn test_apply_filters_since_admits_recent_done() {
    let now = time("2026-04-25T12:00:00Z");
    let out = apply_filters(
        vec![
            updated("done-recent", Status::Done, ago(now, 2 * HOUR)),
            updated("done-old", Status::Done, ago(now, 10 * DAY)),
        ],
        None,
        false,
        false,
        hours(24),
        now,
    )
    .unwrap();
    assert_eq!(out.len(), 1);
    assert_eq!(out[0].id, "done-recent");
}

#[test]
fn test_order_for_render_default_newest_at_bottom() {
    let records = || {
        let mut a = sample_record("a", Status::Running);
        a.dispatched_at = time("2026-04-25T12:00:00Z");
        let mut b = sample_record("b", Status::Running);
        b.dispatched_at = time("2026-04-25T10:00:00Z");
        vec![a, b]
    };
    let out = order_for_render(records(), false);
    assert_eq!(out[0].id, "b");
    assert_eq!(out[1].id, "a");

    let out_rev = order_for_render(records(), true);
    assert_eq!(out_rev[0].id, "a");
    assert_eq!(out_rev[1].id, "b");
}

#[test]
fn test_status_summary_counts_and_total_cost() {
    let records = vec![
        sample_record("a", Status::Running),
        sample_record("b", Status::Done),
        sample_record("c", Status::Failed),
    ];
    let s = StatusSummary::from_records(&records);
    assert_eq!(s.total, 3);
    assert_eq!(s.running, 1);
    assert_eq!(s.done, 1);
    assert_eq!(s.failed, 1);
    let total_cost_usd: f64 = records
        .iter()
        .map(|r| r.cost.as_ref().unwrap().amount.parse::<f64>().unwrap())
        .sum();
    assert!((total_cost_usd - 4.5).abs() < 1e-9);
}

#[test]
fn test_json_envelope_has_schema_version() {
    let records = vec![sample_record("id", Status::Running)];
    let work_units: Vec<WorkUnit> = vec![];
    let envelope = StatusOutputV1 {
        schema_version: atc::pipeline::report::SCHEMA_VERSION,
        records: &records,
        work_units: &work_units,
        summary: StatusSummary::from_records(&records),
    };
    assert_eq!(envelope.schema_version, 1);
    assert_eq!(envelope.records.len(), 1);
    assert!(envelope.work_units.is_empty());
    assert_eq!(envelope.summary.total, 1);
}

#[test]
fn unknown_statuses_are_refused() {
    let now = time("2026-04-25T12:00:00Z");
    assert!(apply_filters(vec![], Some("nope"), false, false, None, now).is_err());
    assert_eq!(parse_status_filter("needs-human").unwrap(), Status::NeedsHuman);
    assert!(parse_status_filter("nope").unwrap_err().contains("nope"));
}

#[test]
fn running_work_is_listed_however_old() {
    let now = time("2026-04-25T12:00:00Z");
    let r = updated("x", Status::Running, ago(now, 400 * DAY));
    assert!(is_shown_by_default(Status::Running));
    assert!(!is_shown_by_default(Status::Done));
    assert!(is_selected(&r, None, false, false, hours(1), now));
    assert!(!is_selected(&r, None, true, false, hours(1), now));
}

#[test]
fn summary_line_is_exact() {
    assert_eq!(
        build_summary(&vec![sample_record("a", Status::Done)], "1.50"),
        "1 done (of 1 total, $1.50)"
    );
}

fn unit(id: &str, at: Timestamp) -> WorkUnit {
    WorkUnit {
        id: s(id),
        task_slug: Some(s("tasks/gitkb-42")),
        branch: Some(s("tasks--gitkb-42")),
        repos: vec![],
        pr_urls: vec![],
        status: WorkUnitStatus::Active,
        created_at: at,
        updated_at: at,
    }
}

fn opts() -> StatusOpts {
    StatusOpts {
        status_filter: None,
        json: false,
        flat: false,
        all: false,
        include_done: false,
        since: None,
        reverse: false,
        no_pager: false,
    }
}

#[test]
fn grouped_table_shows_units_and_their_records() {
    let now = time("2026-04-25T12:00:00Z");
    let mut r = sample_record("id-1", Status::Running);
    r.work_unit_id = Some(s("wu-1"));
    let alone = sample_record("id-2", Status::Done);
    let sums = vec![Cost {
        amount: s("1.50"),
        band: CostBand::Low,
    }];
    let table = build_grouped_table(&vec![unit("wu-1", now)], &sums, &vec![r, alone], false);
    assert!(table.contains("active"));
    assert!(table.contains("tasks/gitkb-42"));
    assert!(table.contains("$1.50"));
}

#[test]
fn units_without_records_are_hidden() {
    let now = time("2026-04-25T12:00:00Z");
    let mut r = sample_record("id-1", Status::Running);
    r.work_unit_id = Some(s("wu-1"));
    let kept = retain_visible(vec![unit("wu-1", now), unit("wu-2", now)], &vec![r]);
    assert_eq!(kept.len(), 1);
    assert_eq!(kept[0].id, "wu-1");
}

#[test]
fn listing_follows_the_options() {
    let mut o = opts();
    assert!(matches!(choose_listing(&o, false, false), Listing::Nothing { .. }));
    o.json = true;
    assert!(matches!(choose_listing(&o, false, false), Listing::Json));
}

#[test]
fn status_is_printed() {
    let mut o = opts();
    o.flat = true;
    let records = vec![sample_record("id-1", Status::Running)];
    let lines = print_status(&o, &records, &vec![], &vec![], "1.50", 160, false);
    assert!(lines.iter().any(|l| l.contains("tasks/gitkb-42")));
    assert!(lines.iter().any(|l| l.contains("1 running (of 1 total, $1.50)")));
}

#[test]
fn since_is_read_as_a_duration() {
    let span = parse_since("24h").unwrap();
    assert_eq!((span.secs, span.nanos), (86_400, 0));
    assert!(parse_since("soon").is_err());
}
