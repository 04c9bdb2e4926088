use atc::cleanup::{self, batch_message, choose_target, cleaned_message, CleanupFacts, Target};
use atc::close::{self, already_message, close_facts, closed_message, derive_repo_root};
use atc::kb::{is_done, is_session_gone, Ran};
use atc::redirect::{
    check_send, check_session, redirected_message, status_warning, TmuxAnswer,
};
use atc::resolve::{has_other, has_other_live, resolve_record};
use atc::retry::{
    classify_failure_overrides, compute_overrides, dispatch_error, failure_message, inline_result,
    plan_retry, redispatch_message, refusal_message, retry_opts, status_after, LastResult,
    Overrides, RetryPlan,
};
use atc::stop::{plan_stop, stopped_message, StopPlan};
use atc::types::{Directive, DispatchRecord, HealthChecks, Status, Timestamp};

fn s(t: &str) -> String {
    t.to_string()
}

fn time(t: &str) -> Timestamp {
    let at = chrono::DateTime::parse_from_rfc3339(t).unwrap();
    Timestamp {
        secs: at.timestamp(),
        nanos: 0,
    }
}

fn no_checks() -> HealthChecks {
    HealthChecks {
        agent_exited_clean: false,
        branch_pushed: false,
        pr_created: false,
        ci_passed: false,
        reviews_approved: false,
        threads_resolved: false,
    }
}

fn record(id: &str, status: Status) -> DispatchRecord {
    DispatchRecord {
        id: s(id),
        task_slug: Some(s("tasks/foo")),
        branch: s("tasks--foo"),
        worktree_path: s("/tmp/wt"),
        session: s("test-session"),
        log_file: s("/tmp/test.jsonl"),
        status,
        directive: Directive::Implement,
        retries: 0,
        resolver: s("task"),
        pr_urls: vec![],
        no_worktree: false,
        original_input: None,
        checks: no_checks(),
        kb_root: None,
        cost: None,
        num_turns: None,
        duration_ms: None,
        artifacts: None,
        work_unit_id: None,
        agent_provider: s("codex"),
        agent_session_id: None,
        agent_transcript_cwd: None,
        resume_of_dispatch_id: None,
        agent_capabilities: None,
        terminal_locator: None,
        dispatched_at: time("2026-03-12T05:31:41Z"),
        updated_at: time("2026-03-12T05:31:41Z"),
    }
}

/// A registry that holds its records in memory, with a terminal whose sessions
/// end when asked to.
struct World {
    records: Vec<DispatchRecord>,
    kill_confirmed: bool,
    worktree_exists: bool,
    removed: Vec<String>,
}

fn world(records: Vec<DispatchRecord>) -> World {
    World {
        records,
        kill_confirmed: true,
        worktree_exists: false,
        removed: vec![],
    }
}

impl World {
    fn position(&self, arg: &str) -> Result<usize, String> {
        let by_id = self.records.iter().position(|r| r.id == arg);
        let latest = self
            .records
            .iter()
            .position(|r| r.task_slug.as_deref() == Some(arg));
        let found = resolve_record(
            by_id.map(|i| record(&self.records[i].id, self.records[i].status)),
            latest.map(|i| record(&self.records[i].id, self.records[i].status)),
            arg,
        )?;
        Ok(self
            .records
            .iter()
            .position(|r| r.id == found.id)
            .unwrap())
    }

    fn shares(&self, i: usize) -> bool {
        let others: Vec<DispatchRecord> = self
            .records
            .iter()
            .filter(|r| {
                r.worktree_path == self.records[i].worktree_path && r.status == Status::Running
            })
            .map(|r| record(&r.id, r.status))
            .collect();
        has_other(&others, &self.records[i].id)
    }

    fn run_close(&mut self, arg: &str, pr: Option<&str>) -> Result<(), String> {
        let i = self.position(arg)?;
        let facts = close_facts(&self.records[i], pr.is_some(), true, true, true);
        let (mut state, mut action) = close::start(facts);
        loop {
            let event = match action {
                close::Action::AddPr => {
                    self.records[i].pr_urls.push(s(pr.unwrap()));
                    close::Event::Done
                }
                close::Action::Kill => close::Event::Killed {
                    confirmed: self.kill_confirmed,
                },
                close::Action::MarkDone => {
                    self.records[i].status = Status::Done;
                    close::Event::Done
                }
                close::Action::Release => close::Event::Done,
                close::Action::ListSiblings => close::Event::Siblings { live: false },
                close::Action::Complete => close::Event::Done,
                close::Action::LookAtWorktree => close::Event::Worktree {
                    exists: self.worktree_exists,
                },
                close::Action::ListSharers => close::Event::Sharers {
                    any: self.shares(i),
                },
                close::Action::RemoveWorktree => {
                    self.removed.push(self.records[i].worktree_path.clone());
                    close::Event::Done
                }
                close::Action::RemoveParent => close::Event::Done,
                close::Action::Report | close::Action::ReportAlready => return Ok(()),
                close::Action::GiveUp => {
                    return Err(close::alive_message(&self.records[i].session))
                }
                close::Action::Fail => return Err(s("failed")),
            };
            let (next, then) = state.step(event);
            state = next;
            action = then;
        }
    }

    fn run_stop(&mut self, arg: &str) -> Result<(), String> {
        let i = self.position(arg)?;
        match plan_stop(self.records[i].status, self.kill_confirmed, true) {
            StopPlan::GiveUp => Err(s("session may still be alive")),
            StopPlan::Go { mark, .. } => {
                if mark {
                    self.records[i].status = Status::Stopped;
                }
                Ok(())
            }
        }
    }

    fn clean(&mut self, i: usize) -> Result<bool, String> {
        let facts = CleanupFacts {
            status: self.records[i].status,
            resolver_known: true,
        };
        let (mut state, mut action) = cleanup::start(facts);
        loop {
            let event = match action {
                cleanup::Action::Kill => cleanup::Event::Killed {
                    confirmed: self.kill_confirmed,
                },
                cleanup::Action::ListSharers => cleanup::Event::Sharers {
                    any: self.shares(i),
                },
                cleanup::Action::RemoveWorktree => {
                    if self.worktree_exists {
                        self.removed.push(self.records[i].worktree_path.clone());
                    }
                    cleanup::Event::Removed {
                        removed: self.worktree_exists,
                    }
                }
                cleanup::Action::MarkStopped => {
                    self.records[i].status = Status::Stopped;
                    cleanup::Event::Done
                }
                cleanup::Action::Release => cleanup::Event::Done,
                cleanup::Action::Report { removed } => return Ok(removed),
                cleanup::Action::GiveUp => {
                    return Err(cleanup::alive_message(&self.records[i].session))
                }
                cleanup::Action::Fail => return Err(s("failed")),
            };
            let (next, then) = state.step(event);
            state = next;
            action = then;
        }
    }

    fn run_cleanup(&mut self, id: Option<&str>, done: bool) -> Result<Vec<bool>, String> {
        match choose_target(id.is_some(), done)? {
            Target::One => {
                let i = self.position(id.unwrap())?;
                Ok(vec![self.clean(i)?])
            }
            Target::AllDone => {
                let mut outcomes = vec![];
                for i in 0..self.records.len() {
                    if self.records[i].status == Status::Done {
                        outcomes.push(self.clean(i)?);
                    }
                }
                Ok(outcomes)
            }
        }
    }
}

fn sample_record(id: &str, status: Status) -> DispatchRecord {
    DispatchRecord {
        task_slug: Some(s("tasks/test-1")),
        branch: s("test-branch"),
        worktree_path: s("/tmp/nonexistent-atc-test-worktree"),
        ..record(id, status)
    }
}

#[test]
fn test_close_idempotent_on_done() {
    let mut w = world(vec![sample_record("test-id-1", Status::Done)]);
    assert!(w.run_close("test-id-1", None).is_ok());
    assert_eq!(w.records[0].status, Status::Done);
}

#[test]
fn test_close_unknown_id_errors() {
    let mut w = world(vec![]);
    let result = w.run_close("nonexistent", None);
    assert!(result.is_err());
    assert!(result
        .unwrap_err()
        .to_string()
        .contains("no dispatch record found"));
}

#[test]
fn test_close_updates_status_to_done() {
    let mut w = world(vec![sample_record("test-id-1", Status::Running)]);
    assert!(w.run_close("test-id-1", None).is_ok());
    assert_eq!(w.records[0].status, Status::Done);
}

#[test]
fn test_close_with_pr_url_sets_it() {
    let mut w = world(vec![sample_record("test-id-1", Status::Running)]);
    let result = w.run_close("test-id-1", Some("https://github.com/org/repo/pull/1"));
    assert!(result.is_ok());
    assert_eq!(
        w.records[0].pr_urls.first().map(|s| s.as_str()),
        Some("https://github.com/org/repo/pull/1")
    );
}

#[test]
fn test_close_missing_worktree_does_not_error() {
    let mut r = sample_record("test-id-1", Status::Running);
    r.worktree_path = s("/tmp/this-path-definitely-does-not-exist-atc-test");
    let mut w = world(vec![r]);
    assert!(w.run_close("test-id-1", None).is_ok());
}

#[test]
fn live_sessions_are_not_closed() {
    let mut w = world(vec![sample_record("test-id-1", Status::Running)]);
    w.kill_confirmed = false;
    assert!(w.run_close("test-id-1", None).is_err());
    assert_eq!(w.records[0].status, Status::Running);
}

#[test]
fn closing_keeps_shared_worktrees() {
    let mut w = world(vec![
        sample_record("test-id-1", Status::Running),
        sample_record("test-id-2", Status::Running),
    ]);
    w.worktree_exists = true;
    w.run_close("test-id-1", None).unwrap();
    assert!(w.removed.is_empty());
    w.run_close("test-id-2", None).unwrap();
    assert_eq!(w.removed, vec!["/tmp/nonexistent-atc-test-worktree"]);
}

#[test]
fn closing_is_told() {
    let r = sample_record("id", Status::Done);
    assert!(already_message("id").contains("id"));
    assert!(closed_message(&r, Some("https://github.com/org/repo/pull/1")).contains("pull/1"));
}

#[test]
fn test_stop_sets_status_stopped() {
    let mut w = world(vec![sample_record("test-id-1", Status::Running)]);
    assert!(w.run_stop("test-id-1").is_ok());
    assert_eq!(w.records[0].status, Status::Stopped);
}

#[test]
fn test_stop_unknown_id_errors() {
    let mut w = world(vec![]);
    let result = w.run_stop("nonexistent");
    assert!(result.is_err());
    assert!(result
        .unwrap_err()
        .to_string()
        .contains("no dispatch record found"));
}

#[test]
fn test_stop_terminal_state_warns_but_succeeds() {
    let mut w = world(vec![sample_record("test-id-1", Status::Done)]);
    assert!(w.run_stop("test-id-1").is_ok());
    assert_eq!(w.records[0].status, Status::Done);
}

#[test]
fn test_stop_resolves_by_task_slug() {
    let mut w = world(vec![sample_record("test-id-1", Status::Running)]);
    assert!(w.run_stop("tasks/test-1").is_ok());
    assert_eq!(w.records[0].status, Status::Stopped);
    assert!(stopped_message(&w.records[0]).contains("test-id-1"));
}

#[test]
fn test_cleanup_unknown_id_errors() {
    let mut w = world(vec![]);
    let result = w.run_cleanup(Some("nonexistent"), false);
    assert!(result.is_err());
    assert!(result
        .unwrap_err()
        .to_string()
        .contains("no dispatch record found"));
}

#[test]
fn test_cleanup_missing_worktree_succeeds() {
    let mut w = world(vec![sample_record("test-id-1", Status::Done)]);
    let result = w.run_cleanup(Some("test-id-1"), false);
    assert_eq!(result, Ok(vec![false]));
}

#[test]
fn test_cleanup_skips_shared_worktree() {
    let mut record1 = sample_record("test-id-1", Status::Done);
    record1.worktree_path = s("/tmp/shared-worktree");
    let mut record2 = sample_record("test-id-2", Status::Running);
    record2.worktree_path = s("/tmp/shared-worktree");
    let mut w = world(vec![record1, record2]);
    w.worktree_exists = true;
    let result = w.run_cleanup(Some("test-id-1"), false);
    assert!(result.is_ok());
    assert!(w.removed.is_empty());
}

#[test]
fn test_cleanup_bails_on_inconclusive_kill_for_running() {
    let mut w = world(vec![sample_record("test-id-1", Status::Running)]);
    w.kill_confirmed = false;
    let result = w.run_cleanup(Some("test-id-1"), false);
    assert!(result.is_err());
    assert_eq!(
        w.records[0].status,
        Status::Running,
        "status must remain Running on bail"
    );
}

#[test]
fn test_cleanup_done_empty() {
    let mut w = world(vec![]);
    let result = w.run_cleanup(None, true);
    assert!(result.is_ok());
}

#[test]
fn test_cleanup_done_batch() {
    let r1 = sample_record("test-id-1", Status::Done);
    let mut r2 = sample_record("test-id-2", Status::Done);
    r2.task_slug = Some("tasks/test-2".to_string());
    let r3 = sample_record("test-id-3", Status::Running);
    let mut w = world(vec![r1, r2, r3]);
    let result = w.run_cleanup(None, true);
    assert!(result.is_ok());
    assert_eq!(w.records[2].status, Status::Running);
    assert_eq!(result.unwrap().len(), 2);
}

#[test]
fn test_cleanup_requires_id_or_done() {
    let mut w = world(vec![]);
    let result = w.run_cleanup(None, false);
    assert!(result.is_err());
    assert!(result
        .unwrap_err()
        .to_string()
        .contains("either <id> or --done is required"));
}

#[test]
fn cleanup_is_told() {
    assert_ne!(cleaned_message("x", true), cleaned_message("x", false));
    assert!(batch_message(&vec![true, false, true]).contains('2'));
}

fn retried(id: &str, retries: u32) -> DispatchRecord {
    DispatchRecord {
        retries,
        ..sample_record(id, Status::Failed)
    }
}

fn run_retry(r: &mut DispatchRecord, max_retries: u32) -> Result<(), String> {
    match plan_retry(r, max_retries) {
        RetryPlan::Retry => Err(dispatch_error("mock executor: not implemented", None)),
        plan => {
            let e = refusal_message(r, max_retries).unwrap();
            if matches!(plan, RetryPlan::Exhausted { .. }) {
                r.status = Status::NeedsHuman;
            }
            Err(e)
        }
    }
}

#[test]
fn test_retry_max_retries_marks_needs_human() {
    let mut r = retried("test-id-1", 3);
    let err = run_retry(&mut r, 3).unwrap_err();
    assert!(
        err.contains("max retries"),
        "expected max retries error, got: {err}"
    );
    assert_eq!(r.status, Status::NeedsHuman);
}

#[test]
fn test_retry_unknown_id_errors() {
    let err = world(vec![]).position("nonexistent").unwrap_err();
    assert!(err.contains("no dispatch record found"));
}

#[test]
fn test_retry_rejects_running_task() {
    let mut r = retried("test-id-1", 0);
    r.status = Status::Running;
    let err = run_retry(&mut r, 3).unwrap_err();
    assert!(
        err.contains("cannot retry"),
        "expected status guard error, got: {err}"
    );
}

#[test]
fn test_retry_rejects_done_task() {
    let mut r = retried("test-id-1", 0);
    r.status = Status::Done;
    let err = run_retry(&mut r, 3).unwrap_err();
    assert!(
        err.contains("cannot retry"),
        "expected status guard error, got: {err}"
    );
}

#[test]
fn test_retry_accepts_needs_human_status() {
    let mut r = retried("test-id-1", 0);
    r.status = Status::NeedsHuman;
    let err = run_retry(&mut r, 3).unwrap_err();
    assert!(
        !err.contains("cannot retry"),
        "NeedsHuman should be retryable, got: {err}"
    );
}

#[test]
fn test_retry_configurable_max_retries() {
    let mut r = retried("test-id-1", 3);
    let err = run_retry(&mut r, 5).unwrap_err();
    assert!(
        !err.contains("max retries"),
        "expected dispatch error (not max retries), got: {err}"
    );
}

#[test]
fn test_retry_rejects_no_task_slug() {
    let mut r = retried("test-id-1", 0);
    r.task_slug = None;
    let err = run_retry(&mut r, 3).unwrap_err();
    assert!(
        err.contains("no task slug"),
        "expected no-task-slug error, got: {err}"
    );
}

/// The overrides as limits: budget and turns.
fn limits(mode_turns: Option<u32>, budget: f64, subtype: &str) -> (Option<f64>, Option<u32>) {
    match compute_overrides(mode_turns, 10_000, subtype) {
        Overrides::Same => (None, None),
        Overrides::Turns { doubled, .. } => (None, Some(doubled)),
        Overrides::Budget => (Some(budget * 2.0), None),
    }
}

#[test]
fn test_compute_overrides_error_max_turns_doubles() {
    let (budget, turns) = limits(None, 25.0, "error_max_turns");
    assert_eq!(budget, None);
    assert_eq!(turns, Some(20_000));
}

#[test]
fn test_compute_overrides_error_max_budget_doubles() {
    let (budget, turns) = limits(None, 25.0, "error_max_budget_usd");
    assert_eq!(budget, Some(50.0));
    assert_eq!(turns, None);
}

#[test]
fn test_compute_overrides_unknown_subtype_no_overrides() {
    let (budget, turns) = limits(None, 25.0, "error_something_else");
    assert_eq!(budget, None);
    assert_eq!(turns, None);
}

#[test]
fn test_compute_overrides_success_no_overrides() {
    let (budget, turns) = limits(None, 25.0, "success");
    assert_eq!(budget, None);
    assert_eq!(turns, None);
}

#[test]
fn test_compute_overrides_uses_mode_specific_config() {
    let (budget, turns) = limits(Some(500), 5.0, "error_max_turns");
    assert_eq!(turns, Some(1_000));
    assert_eq!(budget, None);

    let (budget, turns) = limits(Some(500), 5.0, "error_max_budget_usd");
    assert_eq!(budget, Some(10.0));
    assert_eq!(turns, None);
}

#[test]
fn test_compute_overrides_falls_back_to_dispatch_defaults() {
    let (_, turns) = limits(None, 25.0, "error_max_turns");
    assert_eq!(turns, Some(10_000 * 2));

    let (budget, _) = limits(None, 25.0, "error_max_budget_usd");
    assert_eq!(budget, Some(25.0 * 2.0));
}

#[test]
fn limits_do_not_overflow() {
    assert_eq!(limits(Some(u32::MAX), 1.0, "error_max_turns").1, Some(u32::MAX));
    assert_eq!(
        classify_failure_overrides(None, 10, &LastResult::Missing),
        Overrides::Same
    );
    assert_eq!(
        classify_failure_overrides(None, 10, &LastResult::Found(s("error_max_turns"))),
        Overrides::Turns {
            current: 10,
            doubled: 20
        }
    );
}

#[test]
fn retries_carry_on_where_the_last_attempt_ended() {
    let mut r = retried("test-id-1", 1);
    r.pr_urls = vec![s("https://github.com/org/repo/pull/1")];
    let opts = retry_opts(
        &r,
        3,
        Overrides::Turns {
            current: 10,
            doubled: 20,
        },
    )
    .unwrap();
    assert_eq!(opts.slug, "tasks/test-1");
    assert_eq!(opts.retries, 2);
    assert_eq!(opts.max_turns, Some(20));
    assert!(retry_opts(&retried("x", 3), 3, Overrides::Same).is_none());
    assert!(redispatch_message("tasks/test-1", 2, 3).contains("tasks/test-1"));
    assert_eq!(status_after(Status::Failed, false), Status::Failed);
    assert!(inline_result(None).is_ok());
    assert!(inline_result(Some(0)).is_ok());
    assert!(inline_result(Some(2)).is_err());
    assert!(dispatch_error("a", Some("b")).contains('b'));
    assert!(failure_message(&LastResult::Missing, Overrides::Same, "5.00", "10.00")
        .contains("No result event found"));
}

#[test]
fn test_redirect_unknown_id_errors() {
    let err = world(vec![]).position("nonexistent").unwrap_err();
    assert!(err.contains("no dispatch record found"));
}

#[test]
fn test_redirect_non_running_proceeds_to_tmux_check() {
    let r = sample_record("test-id-1", Status::Failed);
    assert!(status_warning(&r).is_some());
    let err = check_session(&r.session, &TmuxAnswer::Exited(Some(1))).unwrap_err();
    assert!(
        err.contains("tmux") || err.contains("session"),
        "expected tmux error, got: {err}"
    );
}

#[test]
fn redirects_need_a_session() {
    let r = sample_record("test-id-1", Status::Running);
    assert!(status_warning(&r).is_none());
    assert!(check_session("x", &TmuxAnswer::Exited(Some(0))).is_ok());
    assert!(check_session("x", &TmuxAnswer::TimedOut).is_err());
    assert!(check_session("x", &TmuxAnswer::Failed(s("no tmux"))).is_err());
    assert!(check_send(&TmuxAnswer::Exited(Some(0))).is_ok());
    assert!(check_send(&TmuxAnswer::Exited(None)).is_err());
    assert!(redirected_message(&r).contains("test-id-1"));
}

#[test]
fn resolve_record_missing_arg_escapes_terminal_controls() {
    let err = match resolve_record(None, None, "missing-\x1b[2J\u{202e}gpj") {
        Ok(_) => panic!("expected an error"),
        Err(e) => e,
    };
    assert!(err.contains("missing-\\x1b[2J\\u{202e}gpj"));
    assert!(!err.contains('\x1b'));
    assert!(!err.contains('\u{202e}'));
}

#[test]
fn records_are_found_by_id_first() {
    let found = resolve_record(
        Some(record("a", Status::Done)),
        Some(record("b", Status::Done)),
        "a",
    );
    assert!(matches!(found, Ok(r) if r.id == "a"));
    let found = resolve_record(None, Some(record("b", Status::Done)), "tasks/foo");
    assert!(matches!(found, Ok(r) if r.id == "b"));
}

#[test]
fn siblings_are_told_apart() {
    let all = vec![record("a", Status::Running), record("b", Status::Done)];
    assert!(!has_other_live(&all, "a"));
    assert!(has_other_live(&all, "b"));
    assert!(has_other(&all, "a"));
    assert!(!has_other(&vec![], "a"));
}

#[test]
fn helpers_are_judged_by_how_they_end() {
    assert!(is_session_gone(Ran::Exited { success: false }));
    assert!(!is_session_gone(Ran::TimedOut));
    assert!(!is_session_gone(Ran::NotRun));
    assert!(is_done(Ran::Exited { success: true }));
    assert!(!is_done(Ran::Exited { success: false }));
}

#[test]
fn repositories_are_looked_for_in_the_workspace() {
    assert_eq!(
        derive_repo_root(Some("/ws"), Some("core")).as_deref(),
        Some("/ws/core")
    );
    assert_eq!(
        derive_repo_root(Some("/ws"), Some("/abs")).as_deref(),
        Some("/abs")
    );
    assert_eq!(derive_repo_root(Some("/ws"), None), None);
    assert_eq!(derive_repo_root(None, Some("core")), None);
}
