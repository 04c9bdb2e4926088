use atc::daemon::{
    self, available_slots, banner, build_source_command, builtin_source, check_pid,
    effective_queues, parse_script_line, pid_to_stop, read_pid, source_error, source_items,
    status_lines, stop_message, task_of_event, Daemon, DaemonOpts, SourceConfig,
};
use atc::enqueue::{
    board_query_args, build_board_args, build_item, build_ready_args, build_view_args,
    choose_selection, count_result, explicit_input, nothing_message, query_error_message,
    result_line, timeout_message, total_line, EnqueueOpts, Selection,
};
use atc::queue::{
    accept_params, directive_of, load_params, parse_input_line, skips, slugs_of, source_item,
    store_params, EnqueueResult, Priority, QueueInputType, QueueRow,
};
use atc::queue_cmd::{
    self, choose_resolvers, cleared_message, drained_message, list_line, row_opts,
    write_list_head, Drain,
};
use atc::strmap::StrMap;
use atc::types::Directive;

fn s(t: &str) -> String {
    t.to_string()
}

fn list(names: &[&str]) -> Vec<String> {
    names.iter().map(|n| s(n)).collect()
}

fn map(entries: &[(&str, &str)]) -> StrMap {
    let mut m = StrMap::new();
    for (k, v) in entries {
        m.insert(k, v);
    }
    m
}

#[test]
fn input_lines_are_told_apart() {
    assert_eq!(parse_input_line("task tasks/a"), (QueueInputType::Task, s("tasks/a")));
    assert_eq!(parse_input_line("prompt do it"), (QueueInputType::Prompt, s("do it")));
    assert_eq!(parse_input_line("tasks/a"), (QueueInputType::Task, s("tasks/a")));
    assert_eq!(parse_input_line("review"), (QueueInputType::Template, s("review")));
    assert_eq!(
        parse_input_line("fix the bug"),
        (QueueInputType::Prompt, s("fix the bug"))
    );
    assert_eq!(parse_input_line("task"), (QueueInputType::Prompt, s("task")));
}

#[test]
fn output_lines_become_slugs() {
    assert_eq!(slugs_of(" a \n\nb\n"), vec!["a", "b"]);
    assert!(skips(""));
    assert!(!skips("x"));
}

#[test]
fn stored_params_come_back() {
    let params = map(&[("b", "2\n\"x\""), ("a", "\u{e9}")]);
    let stored = store_params(&params);
    assert!(stored.as_deref().unwrap().starts_with('{'));
    let loaded = load_params(&stored);
    assert_eq!(loaded.get("a"), Some(s("\u{e9}")));
    assert_eq!(loaded.get("b"), Some(s("2\n\"x\"")));
    assert_eq!(store_params(&map(&[])), None);
    assert!(load_params(&Some(s("not json"))).entries.is_empty());
    assert!(load_params(&None).entries.is_empty());
    assert_eq!(accept_params(None).get("a"), None);
}

#[test]
fn priorities_and_directives_are_named() {
    for p in [Priority::Critical, Priority::High, Priority::Medium, Priority::Low] {
        assert_eq!(Priority::parse(p.as_str()), Some(p));
    }
    assert_eq!(Priority::parse("nope"), None);
    assert_eq!(QueueInputType::Template.as_str(), "template");
    assert_eq!(directive_of(&Some(s("research"))), Some(Directive::Research));
    assert_eq!(directive_of(&Some(s("nope"))), None);
}

fn opts() -> EnqueueOpts {
    EnqueueOpts {
        input: vec![],
        queue: s("default"),
        priority: Priority::Medium,
        mode: None,
        params: StrMap::new(),
        ready: false,
        limit: 3,
        board: false,
        status_filter: None,
        unblocked: false,
        unassigned: false,
        view: None,
        stdin: false,
        enqueued_by: s("me"),
    }
}

#[test]
fn one_selection_is_made() {
    assert!(choose_selection(&opts()).is_err());
    let mut o = opts();
    o.ready = true;
    assert_eq!(choose_selection(&o), Ok(Selection::Ready));
    assert_eq!(nothing_message(&o, Selection::Ready), "No ready tasks found.");
    o.board = true;
    assert!(choose_selection(&o).is_err());
    let mut o = opts();
    o.view = Some(s("mine"));
    assert_eq!(choose_selection(&o), Ok(Selection::SavedView));
    assert_eq!(
        nothing_message(&o, Selection::SavedView),
        "No results from view 'mine'."
    );
    let mut o = opts();
    o.stdin = true;
    assert_eq!(choose_selection(&o), Ok(Selection::Stdin));
    o.input = list(&["x"]);
    assert!(choose_selection(&o).is_err());
    let mut o = opts();
    o.input = list(&["task", "tasks/a"]);
    assert_eq!(choose_selection(&o), Ok(Selection::Explicit));
    assert_eq!(explicit_input(&o), (QueueInputType::Task, s("tasks/a")));
}

#[test]
fn queries_are_built() {
    assert_eq!(
        build_ready_args(3),
        vec!["kb", "ready", "--limit", "3", "--format", "slugs"]
    );
    let args = build_board_args(&list(&["ready"]), true, true);
    assert!(args.contains(&s("ready")));
    assert!(args.contains(&s("--unblocked")));
    assert!(args.contains(&s("--unassigned")));
    assert_eq!(board_query_args(&opts()), build_board_args(&vec![], false, false));
    assert_eq!(
        build_view_args("mine"),
        vec!["kb", "list", "--view", "mine", "--format", "slugs"]
    );
    assert_eq!(query_error_message(Selection::Ready, " bad \n"), "git kb ready failed: bad");
    assert_eq!(timeout_message(&list(&["kb", "x"])), "git kb x timed out after 30s");
}

#[test]
fn items_are_enqueued_and_counted() {
    let mut o = opts();
    o.params = map(&[("a", "1")]);
    let item = build_item(&o, QueueInputType::Task, "tasks/a");
    assert_eq!(item.queue_name, "default");
    assert_eq!(item.input_value, "tasks/a");
    assert_eq!(item.params.as_deref(), Some("{\"a\":\"1\"}"));
    let yes = EnqueueResult::Enqueued { id: s("q-1") };
    let no = EnqueueResult::Skipped(s("already queued"));
    assert_eq!(result_line("tasks/a", &yes), "Enqueued: tasks/a (id: q-1)");
    assert_eq!(result_line("tasks/a", &no), "Skipped:  tasks/a (already queued)");
    let (mut enqueued, mut skipped) = (0, 0);
    count_result(&yes, &mut enqueued, &mut skipped);
    count_result(&no, &mut enqueued, &mut skipped);
    assert_eq!((enqueued, skipped), (1, 1));
    assert!(total_line(1, 1).is_some());
    assert_eq!(total_line(1, 0), None);
}

fn row(id: &str, value: &str) -> QueueRow {
    QueueRow {
        id: s(id),
        input_type: QueueInputType::Task,
        input_value: s(value),
        mode: Some(s("research")),
        priority: None,
        status: s("pending"),
        params: Some(s("{\"a\":\"1\"}")),
    }
}

#[test]
fn queues_are_listed() {
    assert_eq!(write_list_head("q", 0), vec!["Queue 'q' is empty."]);
    assert_eq!(write_list_head("q", 2).len(), 3);
    let line = list_line(&row("q-1", "tasks/a")).unwrap();
    assert!(line.contains("tasks/a"));
    assert!(line.contains("unknown"));
    assert_eq!(cleared_message("q", 2), "Cleared 2 pending item(s) from queue 'q'.");
}

#[test]
fn rows_become_runs() {
    let (o, force_task) = row_opts(&row("q-1", "tasks/a"));
    assert_eq!(o.input, "tasks/a");
    assert_eq!(o.directive, Some(Directive::Research));
    assert_eq!(o.params.get("a"), Some(s("1")));
    assert!(force_task);
    assert_eq!(choose_resolvers(&list(&["template", "task"]), true), Ok(vec![1]));
    assert_eq!(choose_resolvers(&list(&["template", "task"]), false), Ok(vec![0, 1]));
    assert!(choose_resolvers(&list(&["template"]), true).is_err());
}

#[test]
fn draining_counts_each_item_once() {
    let (mut d, first) = Drain::start();
    assert_eq!(first, queue_cmd::Action::Recover);
    let mut last = first;
    for e in [
        queue_cmd::Event::Done,
        queue_cmd::Event::Items(3),
        queue_cmd::Event::Claimed(false),
        queue_cmd::Event::Claimed(true),
        queue_cmd::Event::Done,
        queue_cmd::Event::Done,
        queue_cmd::Event::Done,
        queue_cmd::Event::Claimed(true),
        queue_cmd::Event::Failed,
        queue_cmd::Event::Done,
        queue_cmd::Event::Items(0),
    ] {
        let (next, action) = d.step(e);
        d = next;
        last = action;
    }
    assert_eq!(last, queue_cmd::Action::Report);
    assert_eq!((d.dispatched, d.failed), (1, 1));
    assert_eq!(drained_message(d), "Drain complete: 1 dispatched, 1 failed.");
}

#[test]
fn daemons_take_no_more_than_their_slots() {
    let (d, first) = Daemon::start(1, 3, false);
    assert_eq!(first, daemon::Action::CountActive);
    let (d, action) = d.step(daemon::Event::Active(1), false);
    assert_eq!(action, daemon::Action::Peek { queue: 0, limit: 2 });
    let (d, action) = d.step(daemon::Event::Items(1), false);
    assert_eq!(action, daemon::Action::Claim);
    let (d, action) = d.step(daemon::Event::Claimed(true), false);
    assert_eq!(action, daemon::Action::Dispatch);
    let (d, action) = d.step(daemon::Event::Dispatched, false);
    assert_eq!(action, daemon::Action::MarkDispatched);
    let (d, action) = d.step(daemon::Event::Marked, false);
    assert_eq!(action, daemon::Action::Wait);
    let (d, action) = d.step(daemon::Event::Woke, true);
    assert_eq!(action, daemon::Action::WaitForSources);
    let (d, action) = d.step(daemon::Event::SourcesDone, true);
    assert_eq!(action, daemon::Action::CountRunning);
    let (_, action) = d.step(
        daemon::Event::Running {
            any: true,
            timed_out: true,
        },
        true,
    );
    assert_eq!(action, daemon::Action::Finish { abandoned: true });
    assert_eq!(available_slots(3, 5), 0);
    assert_eq!(available_slots(3, 1), 2);
}

#[test]
fn daemons_share_their_slots_among_the_queues() {
    let (d, _) = Daemon::start(2, 2, false);
    let (d, action) = d.step(daemon::Event::Active(1), false);
    assert_eq!(action, daemon::Action::Peek { queue: 0, limit: 1 });
    let (d, _) = d.step(daemon::Event::Items(1), false);
    let (d, action) = d.step(daemon::Event::Claimed(true), false);
    assert_eq!(action, daemon::Action::Dispatch);
    let (d, _) = d.step(daemon::Event::Dispatched, false);
    let (_, action) = d.step(daemon::Event::Marked, false);
    assert_eq!(action, daemon::Action::Wait);

    let (d, _) = Daemon::start(2, 3, false);
    let (d, action) = d.step(daemon::Event::Active(0), false);
    assert_eq!(action, daemon::Action::Peek { queue: 0, limit: 3 });
    let (d, _) = d.step(daemon::Event::Items(2), false);
    let (d, action) = d.step(daemon::Event::Claimed(false), false);
    assert_eq!(action, daemon::Action::Claim);
    let (d, _) = d.step(daemon::Event::Claimed(true), false);
    let (d, _) = d.step(daemon::Event::DispatchFailed, false);
    let (_, action) = d.step(daemon::Event::Marked, false);
    assert_eq!(action, daemon::Action::Peek { queue: 1, limit: 2 });
}

#[test]
fn daemons_introduce_themselves() {
    let o = DaemonOpts {
        queues: vec![],
        max_concurrent: 2,
        sources: vec![],
        detach: false,
    };
    assert_eq!(effective_queues(&o.queues), vec!["default"]);
    assert_eq!(
        banner(&o),
        "Daemon running (queues: default, max_concurrent: 2, sources: none)"
    );
}

#[test]
fn sources_ask_for_work() {
    let ready = builtin_source("ready").unwrap();
    let (program, args) = build_source_command(&ready);
    assert_eq!(program, "git");
    assert_eq!(args, build_ready_args(3));
    assert_eq!(ready.poll_interval_secs(), 10);
    assert_eq!(ready.queue(), "default");
    assert!(builtin_source("nope").is_none());
    let items = source_items("ready", &ready, "q", "tasks/a\n\ntasks/b\n");
    let values: Vec<&str> = items.iter().map(|i| i.input_value.as_str()).collect();
    assert_eq!(values, vec!["tasks/a", "tasks/b"]);
    assert_eq!(items[0].queue_name, "q");
    assert!(source_error(&ready, "bad").unwrap().contains("bad"));
    assert_eq!(parse_script_line("prompt x"), (QueueInputType::Prompt, s("x")));
    assert_eq!(parse_script_line("tasks/a"), (QueueInputType::Task, s("tasks/a")));
    let item = source_item("q", "ready", QueueInputType::Task, s("tasks/a"));
    assert_eq!(item.queue_name, "q");
}

#[test]
fn events_are_read_as_tasks() {
    let events = builtin_source("events").unwrap();
    let triggers = match &events {
        SourceConfig::Events {
            trigger_on_status, ..
        } => trigger_on_status.clone(),
        _ => panic!("expected events"),
    };
    let status = triggers.first().cloned().unwrap_or_default();
    let line = format!("{{\"slug\":\"tasks/a\",\"status\":\"{status}\"}}\nnot json\n");
    let items = source_items("events", &events, "q", &line);
    assert_eq!(items.len(), 1);
    assert_eq!(items[0].input_value, "tasks/a");
    assert_eq!(
        task_of_event(Some(s("tasks/a")), Some(s("other")), &list(&["ready"])),
        None
    );
    assert_eq!(source_error(&events, "bad"), None);
}

#[test]
fn daemons_are_found_by_their_process() {
    assert_eq!(read_pid(Some(" 12\n")), Some(12));
    assert_eq!(read_pid(Some("x")), None);
    assert_eq!(read_pid(None), None);
    assert!(check_pid(Some(12), false).is_ok());
    assert!(check_pid(None, true).is_ok());
    assert_eq!(
        check_pid(Some(12), true).unwrap_err(),
        "daemon already running (PID 12). Use 'atc daemon stop' first."
    );
    assert_eq!(pid_to_stop("12\n", "/p"), Ok(12));
    assert_eq!(pid_to_stop("x", "/p").unwrap_err(), "invalid PID in /p");
    assert_eq!(stop_message(Some(12), true), "Sent SIGTERM to daemon (PID 12).");
    assert_eq!(
        stop_message(Some(12), false),
        "Daemon not running (stale PID file cleaned up)."
    );
    let lines = status_lines(true, Some("12"), &list(&["q"]), &vec![4], 1, 3);
    assert!(lines.iter().any(|l| l.contains("12")));
    assert!(lines.iter().any(|l| l.contains('q') && l.contains('4')));
}
