use atc::cli::{
    cloud_command_supported, handle_run, is_switched_on, parse_params, plan_quick, quick_end, run,
    run_cloud, run_end, template_listing, watch_format, Commands, DaemonAction, Handler, QueueAction, RunEnd,
    RunPlan, RunRequest,
};
use atc::resolvers::Resolver;

fn s(t: &str) -> String {
    t.to_string()
}

#[test]
fn cloud_command_support_gate_matches_run_cloud_arms() {
    assert!(cloud_command_supported(Commands::StatusCmd));
    assert!(!cloud_command_supported(Commands::Init));
}

#[test]
fn parse_params_error_escapes_terminal_controls() {
    let params = vec!["bad\x1b[2J\u{202e}gpj".to_string()];
    let err = match parse_params(&params) {
        Ok(_) => panic!("expected an error"),
        Err(e) => e,
    };

    assert!(err.contains("bad\\x1b[2J\\u{202e}gpj"), "got: {err}");
    assert!(!err.contains('\x1b'), "got: {err}");
    assert!(!err.contains('\u{202e}'), "got: {err}");
}

#[test]
fn params_are_split_at_the_first_sign() {
    let params = parse_params(&vec![s("a=1=2"), s("b="), s("a=3")]).ok().unwrap();
    assert_eq!(params.get("a"), Some(s("3")));
    assert_eq!(params.get("b"), Some(s("")));
}

#[test]
fn cloud_runs_only_what_is_supported() {
    for command in [
        Commands::Run,
        Commands::Health,
        Commands::Prompt,
        Commands::Close,
        Commands::Redirect,
        Commands::Retry,
        Commands::StatusCmd,
        Commands::Sessions,
        Commands::OpenSession,
        Commands::History,
        Commands::Info,
        Commands::Logs,
        Commands::Stop,
        Commands::Cleanup,
        Commands::PostComplete,
        Commands::Init,
        Commands::Watch,
        Commands::Enqueue,
        Commands::Queue(None),
        Commands::Quick,
        Commands::Daemon(None),
    ] {
        assert_eq!(run_cloud(command).is_ok(), cloud_command_supported(command));
    }
}

#[test]
fn commands_lead_to_their_handlers() {
    assert_eq!(run(Commands::StatusCmd), Handler::Status);
    assert_eq!(run(Commands::Queue(None)), Handler::QueueList);
    assert_eq!(run(Commands::Queue(Some(QueueAction::Drain))), Handler::QueueDrain);
    assert_eq!(run(Commands::Queue(Some(QueueAction::Clear))), Handler::QueueClear);
    assert_eq!(run(Commands::Daemon(None)), Handler::DaemonRun);
    assert_eq!(run(Commands::Daemon(Some(DaemonAction::Stop))), Handler::DaemonStop);
    assert_eq!(run(Commands::Daemon(Some(DaemonAction::Status))), Handler::DaemonStatus);
}

fn request(words: &[&str]) -> RunRequest {
    RunRequest {
        words: words.iter().map(|w| s(w)).collect(),
        list: false,
        inline: false,
        ci: None,
        params: vec![],
    }
}

#[test]
fn run_takes_tasks_and_prompts() {
    match handle_run(&request(&["task", "tasks/foo"])) {
        Ok(RunPlan::Dispatch {
            input, force_task, ..
        }) => {
            assert_eq!(input, "tasks/foo");
            assert!(force_task);
        }
        _ => panic!("expected a dispatch"),
    }
    match handle_run(&request(&["fix", "the", "bug"])) {
        Ok(RunPlan::Dispatch {
            input, force_task, ..
        }) => {
            assert_eq!(input, "fix the bug");
            assert!(!force_task);
        }
        _ => panic!("expected a dispatch"),
    }
    assert!(handle_run(&request(&[])).is_err());
    let mut listing = request(&[]);
    listing.list = true;
    assert!(matches!(handle_run(&listing), Ok(RunPlan::ListTemplates)));
}

#[test]
fn continuous_integration_runs_inline() {
    let mut r = request(&["x"]);
    r.ci = Some(s("true"));
    assert!(matches!(handle_run(&r), Ok(RunPlan::Dispatch { inline: true, .. })));
    assert!(is_switched_on(&Some(s("1"))));
    assert!(!is_switched_on(&Some(s("false"))));
    assert!(!is_switched_on(&None));
}

#[test]
fn inline_exit_codes_are_reported() {
    assert!(matches!(run_end(None, false), RunEnd::Success));
    assert!(matches!(run_end(Some(0), false), RunEnd::Success));
    assert!(matches!(run_end(Some(3), false), RunEnd::ReportExitCode(3)));
}

#[test]
fn quick_needs_a_template() {
    let none = plan_quick(&None, &vec![], 60, false);
    assert_eq!(
        none.err().unwrap(),
        "template name required (use --list to see available templates)"
    );
    let (opts, resolvers) = plan_quick(&Some(s("t")), &vec![s("a=1")], 60, true).ok().unwrap();
    assert_eq!(opts.input, "t");
    assert_eq!(opts.params.get("a"), Some(s("1")));
    assert!(opts.inline && opts.no_worktree && opts.ephemeral && opts.dry_run);
    assert!(!opts.force && !opts.json && !opts.list);
    assert_eq!(opts.timeout_secs, Some(60));
    assert!(opts.directive.is_none() && opts.max_turns.is_none() && opts.repos.is_empty());
    assert!(matches!(resolvers.as_slice(), [Resolver::Template]));
}

#[test]
fn quick_reports_the_exit_code() {
    assert_eq!(quick_end(None), Ok(()));
    assert_eq!(quick_end(Some(0)), Ok(()));
    assert_eq!(quick_end(Some(2)), Err(s("quick dispatch failed with exit code 2")));
}

#[test]
fn formats_and_listings() {
    assert_eq!(watch_format(true, "json"), "pretty");
    assert_eq!(watch_format(false, "json"), "json");
    assert!(template_listing(&vec![s("a")]).iter().any(|l| l.contains("a")));
    assert!(!template_listing(&vec![]).is_empty());
}
