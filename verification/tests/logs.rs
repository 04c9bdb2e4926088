use atc::logs::{
    existing_lines, missing_fallback_message, missing_log_message, render_event, resolve_log_path,
    Follow, LogPlace, ResultEvent, StreamEvent,
};
use atc::types::{Directive, DispatchRecord, HealthChecks, Status, Timestamp};

fn s(t: &str) -> String {
    t.to_string()
}

fn time(t: &str) -> Timestamp {
    let at = chrono::DateTime::parse_from_rfc3339(t).unwrap();
    Timestamp {
        secs: at.timestamp(),
        nanos: 0,
    }
}

fn no_checks() -> HealthChecks {
    HealthChecks {
        agent_exited_clean: false,
        branch_pushed: false,
        pr_created: false,
        ci_passed: false,
        reviews_approved: false,
        threads_resolved: false,
    }
}

fn record(id: &str, status: Status) -> DispatchRecord {
    DispatchRecord {
        id: s(id),
        task_slug: Some(s("tasks/foo")),
        branch: s("tasks--foo"),
        worktree_path: s("/tmp/wt"),
        session: s("test-session"),
        log_file: s("/tmp/test.jsonl"),
        status,
        directive: Directive::Implement,
        retries: 0,
        resolver: s("task"),
        pr_urls: vec![],
        no_worktree: false,
        original_input: None,
        checks: no_checks(),
        kb_root: None,
        cost: None,
        num_turns: None,
        duration_ms: None,
        artifacts: None,
        work_unit_id: None,
        agent_provider: s("codex"),
        agent_session_id: None,
        agent_transcript_cwd: None,
        resume_of_dispatch_id: None,
        agent_capabilities: None,
        terminal_locator: None,
        dispatched_at: time("2026-03-12T05:31:41Z"),
        updated_at: time("2026-03-12T05:31:41Z"),
    }
}

#[test]
fn test_render_assistant_text() {
    let lines = render_event(&StreamEvent::AssistantText("Hello world".to_string()));
    assert_eq!(lines, vec![">>> Hello world"]);
}

#[test]
fn test_render_tool_use_truncation() {
    let long_input = "x".repeat(200);
    let lines = render_event(&StreamEvent::ToolUse {
        name: "Bash".to_string(),
        input: long_input,
    });
    assert_eq!(
        lines,
        vec![format!("  [tool] Bash: {}\u{2026}", "x".repeat(120))]
    );
}

#[test]
fn test_render_result() {
    let lines = render_event(&StreamEvent::Result(ResultEvent {
        subtype: "success".to_string(),
        total_cost: Some("1.23".to_string()),
        num_turns: Some(10),
        duration_ms: Some(60_000),
    }));
    assert_eq!(
        lines,
        vec![
            "",
            "=== RESULT: success | cost=$1.23 | turns=10 | duration=60s ==="
        ]
    );
}

#[test]
fn other_events_are_not_rendered() {
    assert!(render_event(&StreamEvent::Skip).is_empty());
}

#[test]
fn test_print_existing_lines() {
    let content = r#"{"type":"assistant","message":{"content":[{"type":"text","text":"Hello"}]}}
{"type":"result","subtype":"success","total_cost_usd":1.0,"num_turns":5,"duration_ms":30000}
"#;
    let (lines, pos) = existing_lines(&content.as_bytes().to_vec());
    assert!(pos > 0);
    assert_eq!(lines.len(), 2);
}

#[test]
fn test_print_existing_lines_with_invalid_json() {
    let content =
        "not json\n{\"type\":\"assistant\",\"message\":{\"content\":[{\"type\":\"text\",\"text\":\"ok\"}]}}\n{broken\n";
    let (_, pos) = existing_lines(&content.as_bytes().to_vec());
    assert_eq!(pos, content.len() as u64);
}

#[test]
fn test_print_existing_lines_returns_exact_byte_offset() {
    let content = "line one\nline two\n";
    let (lines, pos) = existing_lines(&content.as_bytes().to_vec());
    assert_eq!(pos, content.len() as u64);
    assert_eq!(lines, vec!["line one", "line two"]);
}

#[test]
fn test_print_existing_lines_handles_partial_last_line() {
    let content = "line one\npartial";
    let (lines, pos) = existing_lines(&content.as_bytes().to_vec());
    assert_eq!(pos, content.len() as u64);
    assert_eq!(lines, vec!["line one", "partial"]);
}

#[test]
fn test_print_existing_lines_lossy_utf8() {
    let mut bytes: Vec<u8> = vec![0xFF, 0xFE, b'\n'];
    bytes.extend_from_slice(b"{\"type\":\"assistant\",\"message\":{\"content\":[{\"type\":\"text\",\"text\":\"ok\"}]}}\n");
    let (lines, pos) = existing_lines(&bytes);
    assert_eq!(pos, bytes.len() as u64);
    assert_eq!(lines[0], "\u{fffd}\u{fffd}");
}

#[test]
fn log_is_found_by_id_task_or_session() {
    let r = record("a", Status::Done);
    let place = resolve_log_path(&Some(r), &None, &vec![], "/logs", "a").unwrap();
    assert!(matches!(place, LogPlace::Recorded(p) if p == "/tmp/test.jsonl"));
    let place = resolve_log_path(
        &None,
        &None,
        &vec![record("a", Status::Done)],
        "/logs",
        "test-session",
    )
    .unwrap();
    assert!(matches!(place, LogPlace::Recorded(_)));
}

#[test]
fn fallback_log_stays_in_the_directory() {
    let place = resolve_log_path(&None, &None, &vec![], "/logs", "../../etc/x").unwrap();
    assert!(matches!(place, LogPlace::Fallback(p) if p == "/logs/x.jsonl"));
    assert!(resolve_log_path(&None, &None, &vec![], "/logs", "..").is_err());
    assert!(missing_fallback_message("/logs/x.jsonl").contains("/logs/x.jsonl"));
    assert!(missing_log_message("/l", "x").contains("/l"));
}

#[test]
fn following_gives_complete_lines() {
    let mut f = Follow::start(10, 4);
    assert_eq!(f.pos, 4);
    assert_eq!(f.measured(4), None);
    assert_eq!(f.measured(20), Some(4));
    let first = f.take(&b"one\ntw".to_vec());
    let second = f.take(&b"o\n\nthr".to_vec());
    assert_eq!(first, vec!["one"]);
    assert_eq!(second, vec!["two"]);
    assert_eq!(f.pos, 16);
    assert_eq!(f.measured(3), Some(0));
    assert_eq!(f.pending, "");
    f.lost();
    assert_eq!(f.pos, 0);
}

#[test]
fn pieces_give_the_same_lines_as_the_whole() {
    let mut whole = Follow::start(0, 0);
    let mut pieces = Follow::start(0, 0);
    let all = whole.feed("a\nb\nc");
    let mut got = pieces.feed("a\n");
    got.extend(pieces.feed("b"));
    got.extend(pieces.feed("\nc"));
    assert_eq!(all, got);
    assert_eq!(whole.pending, pieces.pending);
}
