use atc::open_session::{
    atc_session_uri, attach_target, attached_message, choose_active, effective_terminal_locator,
    missing_message, open_session_result, open_shell_preview, parse_atc_session_uri, parse_target,
    session_output, status_state_label, Target, TerminalStatus, TerminalStatusState,
};
use atc::types::{
    AgentCapabilities, Directive, DispatchRecord, HealthChecks, Status, TerminalLocator,
    Timestamp,
};

fn s(t: &str) -> String {
    t.to_string()
}

fn time(t: &str) -> Timestamp {
    let at = chrono::DateTime::parse_from_rfc3339(t).unwrap();
    Timestamp {
        secs: at.timestamp(),
        nanos: 0,
    }
}

fn no_checks() -> HealthChecks {
    HealthChecks {
        agent_exited_clean: false,
        branch_pushed: false,
        pr_created: false,
        ci_passed: false,
        reviews_approved: false,
        threads_resolved: false,
    }
}

fn record(id: &str, status: Status) -> DispatchRecord {
    DispatchRecord {
        id: s(id),
        task_slug: Some(s("tasks/foo")),
        branch: s("tasks--foo"),
        worktree_path: s("/tmp/wt"),
        session: s("test-session"),
        log_file: s("/tmp/test.jsonl"),
        status,
        directive: Directive::Implement,
        retries: 0,
        resolver: s("task"),
        pr_urls: vec![],
        no_worktree: false,
        original_input: None,
        checks: no_checks(),
        kb_root: None,
        cost: None,
        num_turns: None,
        duration_ms: None,
        artifacts: None,
        work_unit_id: None,
        agent_provider: s("codex"),
        agent_session_id: None,
        agent_transcript_cwd: None,
        resume_of_dispatch_id: None,
        agent_capabilities: None,
        terminal_locator: None,
        dispatched_at: time("2026-03-12T05:31:41Z"),
        updated_at: time("2026-03-12T05:31:41Z"),
    }
}

fn no_capabilities() -> AgentCapabilities {
    AgentCapabilities {
        supports_resume_by_session_id: false,
        supports_tmux_attach: false,
        supports_tmux_redirect: false,
    }
}

fn record_with_session(caps: AgentCapabilities) -> DispatchRecord {
    let mut record = record("dispatch-1", Status::Running);
    record.session = "tmux-session".to_string();
    record.agent_capabilities = Some(caps);
    record
}

fn inferred_tmux(session: &str) -> Option<TerminalLocator> {
    Some(TerminalLocator {
        session: s(session),
        worktree_path: None,
        recorded_at: Timestamp { secs: 1_780_617_600, nanos: 0 },
        inferred: true,
    })
}

#[test]
fn open_shell_preview_never_executes_stored_shell_text() {
    let locator = inferred_tmux("session; touch /tmp/pwned");
    let status = TerminalStatus {
        state: TerminalStatusState::Detached,
        reason: None,
    };
    let preview = open_shell_preview(&locator, &status);
    assert!(preview.enabled);
    assert_eq!(
        preview.attach_command.unwrap(),
        vec![
            "tmux".to_string(),
            "attach".to_string(),
            "-t".to_string(),
            "session; touch /tmp/pwned".to_string()
        ]
    );
}

#[test]
fn open_shell_preview_rejects_stale_tmux() {
    let locator = inferred_tmux("dead");
    let status = TerminalStatus {
        state: TerminalStatusState::Stale,
        reason: Some(s("dead")),
    };
    let preview = open_shell_preview(&locator, &status);
    assert!(!preview.enabled);
    assert_eq!(preview.reason.as_deref(), Some("dead"));
    assert!(preview.attach_command.is_none());
}

#[test]
fn effective_terminal_locator_requires_tmux_attach_capability_for_legacy_session() {
    let now = Timestamp { secs: 5, nanos: 0 };
    let unsupported = record_with_session(no_capabilities());
    assert!(effective_terminal_locator(&unsupported, now).is_none());

    let supported = record_with_session(AgentCapabilities {
        supports_tmux_attach: true,
        ..no_capabilities()
    });
    assert!(matches!(
        effective_terminal_locator(&supported, now),
        Some(l) if l.session == "tmux-session" && l.inferred
    ));
    let inferred = effective_terminal_locator(&supported, now).unwrap();
    assert_eq!(inferred.worktree_path, Some(supported.worktree_path.clone()));
    assert_eq!((inferred.recorded_at.secs, inferred.recorded_at.nanos), (5, 0));
}

#[test]
fn recorded_locators_are_kept() {
    let mut r = record_with_session(no_capabilities());
    r.terminal_locator = inferred_tmux("elsewhere");
    let now = Timestamp { secs: 5, nanos: 0 };
    let l = effective_terminal_locator(&r, now).unwrap();
    assert_eq!(l.session, "elsewhere");
    assert_eq!(l.worktree_path, None);
    assert_eq!(l.recorded_at.secs, 1_780_617_600);
}

#[test]
fn uri_leads_back_to_its_dispatch() {
    let uri = atc_session_uri("dispatch-1");
    assert_eq!(uri, "atc://session/dispatch-1");
    assert_eq!(parse_atc_session_uri(&uri).unwrap(), "dispatch-1");
    assert!(parse_atc_session_uri("atc://session/").is_err());
    assert!(parse_atc_session_uri("http://x").is_err());
}

#[test]
fn targets_are_told_apart() {
    assert!(matches!(parse_target(" atc://session/x "), Ok(Target::Dispatch(d)) if d == "x"));
    assert!(matches!(parse_target("tasks/foo"), Ok(Target::Any(a)) if a == "tasks/foo"));
    assert!(parse_target("  ").is_err());
    assert_eq!(missing_message("x"), "no dispatch record found for id: x");
}

#[test]
fn only_one_active_dispatch_can_be_meant() {
    let one = choose_active(
        vec![record("a", Status::Running), record("b", Status::Done)],
        "tasks/foo",
    );
    assert!(matches!(one, Ok(r) if r.id == "a"));
    let none = choose_active(vec![record("b", Status::Done)], "tasks/foo");
    assert!(matches!(none, Err(e) if e == "no active dispatch found for task slug: tasks/foo"));
    let two = choose_active(
        vec![record("a", Status::Running), record("b", Status::Retrying)],
        "tasks/foo",
    );
    assert!(
        matches!(two, Err(e) if e == "task slug tasks/foo has multiple active dispatches: a, b")
    );
}

#[test]
fn sessions_are_opened_from_terminals_only() {
    let result = open_session_result(
        "dispatch-1",
        record_with_session(no_capabilities()),
        inferred_tmux("tmux-session"),
        TerminalStatus {
            state: TerminalStatusState::Running,
            reason: None,
        },
    );
    assert_eq!(result.uri, "atc://session/dispatch-1");
    assert_eq!(attach_target(true, &result).unwrap(), "tmux-session");
    assert!(attach_target(false, &result).is_err());
    assert_eq!(attached_message("x"), "attached to x");
    let out = session_output(result);
    assert_eq!(out.schema_version, 1);
}

#[test]
fn terminal_states_decide_whether_to_open() {
    for (state, label, openable) in [
        (TerminalStatusState::Focusable, "focusable", true),
        (TerminalStatusState::Attached, "attached", true),
        (TerminalStatusState::Detached, "detached", true),
        (TerminalStatusState::Running, "running", true),
        (TerminalStatusState::Stale, "stale", false),
        (TerminalStatusState::Unavailable, "unavailable", false),
        (TerminalStatusState::Unknown, "unknown", false),
    ] {
        assert_eq!(status_state_label(state), label);
        let status = TerminalStatus {
            state,
            reason: None,
        };
        assert_eq!(status.is_openable(), openable);
    }
    assert_eq!(TerminalStatus::unavailable("gone").reason.as_deref(), Some("gone"));
}
