//! The command surface: which command does what, and what `atc run` makes of
//! its arguments.

use vstd::prelude::*;
use crate::resolvers::Resolver;
use crate::strmap::{self, StrMap};
use crate::terminal_text::{self, display_text};
use crate::text::{self, concat, join, push_str, same, to_lower, trim, write_i64};
use crate::types::RunOpts;

verus! {

#[derive(Clone, Copy, Debug, PartialEq, Eq, Structural)]
pub enum QueueAction {
    /// Dispatch all pending items in one shot, then exit
    Drain,
    /// Remove all pending items from the queue
    Clear,
}

#[derive(Clone, Copy, Debug, PartialEq, Eq, Structural)]
pub enum DaemonAction {
    /// Gracefully stop the running daemon
    Stop,
    /// Show daemon status (uptime, queue depth, active dispatches)
    Status,
}

/// The commands, without their arguments.
#[derive(Clone, Copy, Debug, PartialEq, Eq, Structural)]
pub enum Commands {
    Run,
    Health,
    Prompt,
    Close,
    Redirect,
    Retry,
    StatusCmd,
    Sessions,
    OpenSession,
    History,
    Info,
    Logs,
    Stop,
    Cleanup,
    PostComplete,
    Init,
    Watch,
    Enqueue,
    Queue(Option<QueueAction>),
    Quick,
    Daemon(Option<DaemonAction>),
}

/// What carries out a command.
#[derive(Clone, Copy, Debug, PartialEq, Eq, Structural)]
pub enum Handler {
    Run,
    Health,
    Prompt,
    Close,
    Redirect,
    Retry,
    Status,
    Sessions,
    OpenSession,
    History,
    Info,
    Logs,
    Stop,
    Cleanup,
    PostComplete,
    Init,
    Watch,
    Enqueue,
    QueueDrain,
    QueueClear,
    QueueList,
    Quick,
    DaemonStop,
    DaemonStatus,
    DaemonRun,
}

pub open spec fn handler_of(c: Commands) -> Handler {
    match c {
        Commands::Run => Handler::Run,
        Commands::Health => Handler::Health,
        Commands::Prompt => Handler::Prompt,
        Commands::Close => Handler::Close,
        Commands::Redirect => Handler::Redirect,
        Commands::Retry => Handler::Retry,
        Commands::StatusCmd => Handler::Status,
        Commands::Sessions => Handler::Sessions,
        Commands::OpenSession => Handler::OpenSession,
        Commands::History => Handler::History,
        Commands::Info => Handler::Info,
        Commands::Logs => Handler::Logs,
        Commands::Stop => Handler::Stop,
        Commands::Cleanup => Handler::Cleanup,
        Commands::PostComplete => Handler::PostComplete,
        Commands::Init => Handler::Init,
        Commands::Watch => Handler::Watch,
        Commands::Enqueue => Handler::Enqueue,
        Commands::Queue(action) => match action {
            Some(QueueAction::Drain) => Handler::QueueDrain,
            Some(QueueAction::Clear) => Handler::QueueClear,
            None => Handler::QueueList,
        },
        Commands::Quick => Handler::Quick,
        Commands::Daemon(action) => match action {
            Some(DaemonAction::Stop) => Handler::DaemonStop,
            Some(DaemonAction::Status) => Handler::DaemonStatus,
            None => Handler::DaemonRun,
        },
    }
}

/// What carries out a command on the local backend.
pub fn run(command: Commands) -> (r: Handler)
    ensures
        r == handler_of(command),
{
    match command {
        Commands::Run => Handler::Run,
        Commands::Health => Handler::Health,
        Commands::Prompt => Handler::Prompt,
        Commands::Close => Handler::Close,
        Commands::Redirect => Handler::Redirect,
        Commands::Retry => Handler::Retry,
        Commands::StatusCmd => Handler::Status,
        Commands::Sessions => Handler::Sessions,
        Commands::OpenSession => Handler::OpenSession,
        Commands::History => Handler::History,
        Commands::Info => Handler::Info,
        Commands::Logs => Handler::Logs,
        Commands::Stop => Handler::Stop,
        Commands::Cleanup => Handler::Cleanup,
        Commands::PostComplete => Handler::PostComplete,
        Commands::Init => Handler::Init,
        Commands::Watch => Handler::Watch,
        Commands::Enqueue => Handler::Enqueue,
        Commands::Queue(action) => match action {
            Some(QueueAction::Drain) => Handler::QueueDrain,
            Some(QueueAction::Clear) => Handler::QueueClear,
            None => Handler::QueueList,
        },
        Commands::Quick => Handler::Quick,
        Commands::Daemon(action) => match action {
            Some(DaemonAction::Stop) => Handler::DaemonStop,
            Some(DaemonAction::Status) => Handler::DaemonStatus,
            None => Handler::DaemonRun,
        },
    }
}

/// The commands that work with the cloud backend.
pub open spec fn works_in_cloud(c: Commands) -> bool {
    c == Commands::Run || c == Commands::PostComplete || c == Commands::StatusCmd || c
        == Commands::Logs || c == Commands::Info || c == Commands::Watch || c == Commands::Health
        || c == Commands::Stop || c == Commands::Cleanup
}

/// Whether `command` is supported when the `[cloud]` backend is enabled.
pub fn cloud_command_supported(command: Commands) -> (r: bool)
    ensures
        r == works_in_cloud(command),
{
    matches!(
        command,
        Commands::Run | Commands::PostComplete | Commands::StatusCmd | Commands::Logs
            | Commands::Info | Commands::Watch | Commands::Health | Commands::Stop
            | Commands::Cleanup
    )
}

/// Why a command is refused with the cloud backend.
pub open spec fn cloud_unsupported_command_msg() -> Seq<char> {
    "this command is not supported with [cloud] enabled; the Cloud ATC slice supports run, post-complete, status, logs, info, watch, health, stop, and cleanup. Unset cloud.enabled to use the local SQLite backend."@
}

/// What carries out a command on the cloud backend: the same as on the local
/// one for exactly the supported commands.
pub fn run_cloud(command: Commands) -> (r: Result<Handler, &'static str>)
    ensures
        r is Ok <==> works_in_cloud(command),
        r matches Ok(h) ==> h == handler_of(command),
        r matches Err(m) ==> m@ == cloud_unsupported_command_msg(),
{
    match command {
        Commands::Run => Ok(Handler::Run),
        Commands::PostComplete => Ok(Handler::PostComplete),
        Commands::StatusCmd => Ok(Handler::Status),
        Commands::Logs => Ok(Handler::Logs),
        Commands::Info => Ok(Handler::Info),
        Commands::Watch => Ok(Handler::Watch),
        Commands::Health => Ok(Handler::Health),
        Commands::Stop => Ok(Handler::Stop),
        Commands::Cleanup => Ok(Handler::Cleanup),
        _ => Err(
            "this command is not supported with [cloud] enabled; the Cloud ATC slice supports run, post-complete, status, logs, info, watch, health, stop, and cleanup. Unset cloud.enabled to use the local SQLite backend.",
        ),
    }
}

/// One `key=value` argument.
pub open spec fn is_param(arg: Seq<char>) -> bool {
    arg.contains('=')
}

/// Where the key of a `key=value` argument ends.
pub open spec fn key_end(arg: Seq<char>, i: int) -> int
    decreases arg.len() - i,
{
    if i < 0 || i >= arg.len() || arg[i] == '=' {
        i
    } else {
        key_end(arg, i + 1)
    }
}

/// The map that a list of `key=value` arguments stands for: the key is what
/// comes before the first `=`, and a later argument wins.
pub open spec fn params_of(args: Seq<Seq<char>>) -> Map<Seq<char>, Seq<char>>
    decreases args.len(),
{
    if args.len() == 0 {
        Map::empty()
    } else {
        let arg = args.last();
        let end = key_end(arg, 0);
        params_of(args.drop_last()).insert(arg.take(end), arg.skip(end + 1))
    }
}

/// The message for an argument that is no `key=value`.
pub open spec fn param_error(arg: Seq<char>) -> Seq<char> {
    "invalid --param format: '"@ + terminal_text::escaped(arg) + "' (expected key=value)"@
}

/// The first argument that is no `key=value`.
pub open spec fn first_bad_param(args: Seq<Seq<char>>) -> Option<Seq<char>>
    decreases args.len(),
{
    if args.len() == 0 {
        None
    } else {
        match first_bad_param(args.drop_last()) {
            Some(a) => Some(a),
            None => if is_param(args.last()) {
                None
            } else {
                Some(args.last())
            },
        }
    }
}

proof fn key_end_is(arg: Seq<char>, i: int, k: int)
    requires
        0 <= i <= k < arg.len(),
        arg[k] == '=',
        forall|j: int| i <= j < k ==> arg[j] != '=',
    ensures
        key_end(arg, i) == k,
    decreases k - i,
{
    if i < k {
        key_end_is(arg, i + 1, k);
    }
}

proof fn first_bad_is_stable(args: Seq<Seq<char>>, n: int)
    requires
        0 <= n <= args.len(),
        first_bad_param(args.take(n)) is Some,
    ensures
        first_bad_param(args) == first_bad_param(args.take(n)),
    decreases args.len(),
{
    if n == args.len() {
        assert(args.take(n) =~= args);
    } else {
        assert(args.drop_last().take(n) =~= args.take(n));
        first_bad_is_stable(args.drop_last(), n);
    }
}

/// Parse `--param key=value` pairs.
pub fn parse_params(param_args: &Vec<String>) -> (r: Result<StrMap, String>)
    ensures
        match first_bad_param(text::views(param_args@)) {
            Some(bad) => r matches Err(m) && m@ == param_error(bad),
            None => r matches Ok(params) && params@ == params_of(text::views(param_args@)),
        },
{
    let mut params = StrMap::new();
    let ghost all = text::views(param_args@);
    proof {
        assert(all.take(0) =~= Seq::<Seq<char>>::empty());
    }
    let mut i: usize = 0;
    while i < param_args.len()
        invariant
            i <= param_args.len(),
            all == text::views(param_args@),
            first_bad_param(all.take(i as int)) is None,
            params@ == params_of(all.take(i as int)),
        decreases param_args.len() - i,
    {
        let arg = param_args[i].as_str();
        proof {
            assert(all.take(i + 1).drop_last() =~= all.take(i as int));
            assert(all.take(i + 1).last() == arg@);
        }
        match text::split_once(arg, '=') {
            None => {
                proof {
                    first_bad_is_stable(all, i + 1);
                }
                let mut m = concat("invalid --param format: '", display_text(arg).as_str());
                push_str(&mut m, "' (expected key=value)");
                return Err(m);
            },
            Some((k, v)) => {
                proof {
                    let n = k@.len() as int;
                    assert(arg@[n] == '=');
                    assert(is_param(arg@));
                    assert forall|j: int| 0 <= j < n implies arg@[j] != '=' by {
                        assert(arg@[j] == k@[j]);
                    }
                    key_end_is(arg@, 0, n);
                    assert(arg@.take(n) =~= k@);
                    assert(arg@.skip(n + 1) =~= v@);
                }
                params.insert(k.as_str(), v.as_str());
            },
        }
        i += 1;
    }
    proof {
        assert(all.take(i as int) =~= all);
    }
    Ok(params)
}

/// The values of `ATC_CI` that switch it on.
pub open spec fn switched_on(v: Option<Seq<char>>) -> bool {
    v is Some && (text::lowered(v->0) == "1"@ || text::lowered(v->0) == "true"@ || text::lowered(
        v->0,
    ) == "yes"@)
}

pub fn is_switched_on(v: &Option<String>) -> (r: bool)
    ensures
        r == switched_on(strmap::opt_view(*v)),
{
    match v {
        Some(s) => {
            let l = to_lower(s.as_str());
            same(l.as_str(), "1") || same(l.as_str(), "true") || same(l.as_str(), "yes")
        },
        None => false,
    }
}

/// Nothing but white space in any of the words.
pub open spec fn all_blank(words: Seq<Seq<char>>) -> bool {
    forall|i: int| 0 <= i < words.len() ==> text::trimmed(#[trigger] words[i]).len() == 0
}

fn is_all_blank(words: &Vec<String>) -> (r: bool)
    ensures
        r == all_blank(text::views(words@)),
{
    let ghost all = text::views(words@);
    let mut i: usize = 0;
    while i < words.len()
        invariant
            i <= words.len(),
            all == text::views(words@),
            forall|j: int| 0 <= j < i ==> text::trimmed(#[trigger] all[j]).len() == 0,
        decreases words.len() - i,
    {
        proof {
            assert(all[i as int] == words@[i as int]@);
        }
        if !trim(words[i].as_str()).as_str().is_empty() {
            return false;
        }
        i += 1;
    }
    true
}

/// What `atc run` was given.
pub struct RunRequest {
    pub words: Vec<String>,
    pub list: bool,
    pub inline: bool,
    /// The value of `ATC_CI`.
    pub ci: Option<String>,
    pub params: Vec<String>,
}

/// What `atc run` does.
pub enum RunPlan {
    ListTemplates,
    Dispatch {
        input: String,
        /// Only the task resolver may take the input.
        force_task: bool,
        inline: bool,
        params: StrMap,
    },
}

/// Where the first word is `task`, the rest is a task slug.
pub open spec fn names_task(words: Seq<Seq<char>>) -> bool {
    words.len() > 0 && words[0] == "task"@
}

/// The input that the words make up.
pub open spec fn run_input(words: Seq<Seq<char>>) -> Seq<char> {
    if names_task(words) {
        text::joined(words.skip(1), " "@)
    } else {
        text::joined(words, " "@)
    }
}

pub open spec fn missing_input_msg() -> Seq<char> {
    "input is required: provide a task slug, template name, or prompt string\nhint: try `atc run --list` to see templates, or `atc run task <slug>` for a task."@
}

pub open spec fn missing_slug_msg() -> Seq<char> {
    "'atc run task' requires a task slug, e.g. 'atc run task tasks/gitkb-42'\nhint: list slugs with `git kb list --type task` or check `atc status`."@
}

fn rest_of(words: &Vec<String>) -> (r: Vec<String>)
    requires
        words@.len() > 0,
    ensures
        text::views(r@) == text::views(words@).skip(1),
{
    let ghost all = text::views(words@);
    let mut out: Vec<String> = Vec::new();
    proof {
        assert(text::views(out@) =~= all.subrange(1, 1));
    }
    let mut i: usize = 1;
    while i < words.len()
        invariant
            1 <= i <= words.len(),
            all == text::views(words@),
            text::views(out@) == all.subrange(1, i as int),
        decreases words.len() - i,
    {
        let w = words[i].clone();
        proof {
            text::views_push(out@, w);
            assert(all.subrange(1, i + 1) =~= all.subrange(1, i as int).push(w@));
        }
        out.push(w);
        i += 1;
    }
    proof {
        assert(all.subrange(1, i as int) =~= all.skip(1));
    }
    out
}

/// Decides what `atc run` does: list the templates, or dispatch an input. The
/// first thing wrong with the arguments is reported.
pub fn handle_run(req: &RunRequest) -> (r: Result<RunPlan, String>)
    ensures
        ({
            let words = text::views(req.words@);
            if req.list {
                r matches Ok(RunPlan::ListTemplates)
            } else if all_blank(words) {
                r matches Err(m) && m@ == missing_input_msg()
            } else if names_task(words) && run_input(words).len() == 0 {
                r matches Err(m) && m@ == missing_slug_msg()
            } else {
                match first_bad_param(text::views(req.params@)) {
                    Some(bad) => r matches Err(m) && m@ == param_error(bad),
                    None => r matches Ok(RunPlan::Dispatch { input, force_task, inline, params })
                        && input@ == run_input(words) && force_task == names_task(words) && inline
                        == (req.inline || switched_on(strmap::opt_view(req.ci))) && params@
                        == params_of(text::views(req.params@)),
                }
            }
        }),
{
    if req.list {
        return Ok(RunPlan::ListTemplates);
    }
    if is_all_blank(&req.words) {
        return Err(
            "input is required: provide a task slug, template name, or prompt string\nhint: try `atc run --list` to see templates, or `atc run task <slug>` for a task.".to_owned(),
        );
    }
    let ghost words = text::views(req.words@);
    proof {
        assert(words.len() == req.words@.len());
        if words.len() > 0 {
            assert(words[0] == req.words@[0]@);
        }
    }
    let force_task = req.words.len() > 0 && same(req.words[0].as_str(), "task");
    let input = if force_task {
        let rest = rest_of(&req.words);
        let slug = join(&rest, " ");
        if slug.as_str().is_empty() {
            return Err(
                "'atc run task' requires a task slug, e.g. 'atc run task tasks/gitkb-42'\nhint: list slugs with `git kb list --type task` or check `atc status`.".to_owned(),
            );
        }
        slug
    } else {
        join(&req.words, " ")
    };
    let inline = req.inline || is_switched_on(&req.ci);
    match parse_params(&req.params) {
        Err(m) => Err(m),
        Ok(params) => Ok(RunPlan::Dispatch { input, force_task, inline, params }),
    }
}

/// How a dispatch that ended shows in the exit of the program.
#[derive(Clone, Copy, Debug, PartialEq, Eq, Structural)]
pub enum RunEnd {
    Success,
    /// The agent failed; the report is already on standard output.
    ExitQuietly,
    /// The agent failed; say so.
    ReportExitCode(i32),
}

pub fn run_end(inline_exit_code: Option<i32>, json: bool) -> (r: RunEnd)
    ensures
        r == match inline_exit_code {
            Some(code) => if code == 0 {
                RunEnd::Success
            } else if json {
                RunEnd::ExitQuietly
            } else {
                RunEnd::ReportExitCode(code)
            },
            None => RunEnd::Success,
        },
{
    match inline_exit_code {
        Some(code) => if code == 0 {
            RunEnd::Success
        } else if json {
            RunEnd::ExitQuietly
        } else {
            RunEnd::ReportExitCode(code)
        },
        None => RunEnd::Success,
    }
}

/// The run that `atc quick` asks for: a template with its parameters, here, in place
/// and without a trace. Only the template resolver may take it.
pub fn plan_quick(
    template: &Option<String>,
    param_args: &Vec<String>,
    timeout_secs: u64,
    dry_run: bool,
) -> (r: Result<(RunOpts, Vec<Resolver>), String>)
    ensures
        match template {
            None => r matches Err(m) && m@
                == "template name required (use --list to see available templates)"@,
            Some(t) => match first_bad_param(text::views(param_args@)) {
                Some(bad) => r matches Err(m) && m@ == param_error(bad),
                None => r matches Ok(p) && p.1@ == seq![Resolver::Template] && p.0.input@ == t@
                    && p.0.params@ == params_of(text::views(param_args@)) && p.0.directive is None
                    && p.0.pr_url is None && p.0.repos@.len() == 0 && p.0.inline && !p.0.force
                    && p.0.dry_run == dry_run && p.0.directives is None && p.0.no_worktree
                    && p.0.max_turns is None && p.0.resume is None && p.0.retries == 0
                    && !p.0.list && p.0.ephemeral && p.0.timeout_secs == Some(timeout_secs)
                    && !p.0.json,
            },
        },
{
    match template {
        None => Err(
            "template name required (use --list to see available templates)".to_owned(),
        ),
        Some(t) => match parse_params(param_args) {
            Err(m) => Err(m),
            Ok(params) => {
                let mut opts = RunOpts::plain(t.clone(), None, None);
                opts.params = params;
                opts.inline = true;
                opts.no_worktree = true;
                opts.ephemeral = true;
                opts.dry_run = dry_run;
                opts.timeout_secs = Some(timeout_secs);
                let mut resolvers: Vec<Resolver> = Vec::new();
                resolvers.push(Resolver::Template);
                proof {
                    assert(resolvers@ =~= seq![Resolver::Template]);
                }
                Ok((opts, resolvers))
            },
        },
    }
}

/// How `atc quick` ends: with an error where the agent failed.
pub fn quick_end(inline_exit_code: Option<i32>) -> (r: Result<(), String>)
    ensures
        match inline_exit_code {
            Some(code) => if code == 0 {
                r is Ok
            } else {
                r matches Err(m) && m@ == "quick dispatch failed with exit code "@
                    + text::decimal_int(code as int)
            },
            None => r is Ok,
        },
{
    match inline_exit_code {
        Some(code) => if code == 0 {
            Ok(())
        } else {
            Err(concat("quick dispatch failed with exit code ", write_i64(code as i64).as_str()))
        },
        None => Ok(()),
    }
}

/// The format of `atc watch`.
pub fn watch_format(pretty: bool, format: &str) -> (r: String)
    ensures
        r@ == if pretty {
            "pretty"@
        } else {
            format@
        },
{
    if pretty {
        "pretty".to_owned()
    } else {
        format.to_owned()
    }
}

/// What the template listing shows for each name, below its heading.
pub open spec fn listed_names(names: Seq<Seq<char>>) -> Seq<Seq<char>> {
    names.map_values(|n: Seq<char>| "  "@ + terminal_text::escaped(n))
}

/// The lines of a template listing.
pub fn template_listing(names: &Vec<String>) -> (r: Vec<String>)
    ensures
        text::views(r@) == if names@.len() == 0 {
            seq!["No templates found."@]
        } else {
            seq!["Available templates:"@] + listed_names(text::views(names@))
        },
{
    let mut out: Vec<String> = Vec::new();
    if names.len() == 0 {
        out.push("No templates found.".to_owned());
        proof {
            assert(text::views(out@) =~= seq!["No templates found."@]);
        }
        return out;
    }
    out.push("Available templates:".to_owned());
    let ghost head = seq!["Available templates:"@];
    let ghost shown = listed_names(text::views(names@));
    proof {
        assert(text::views(out@) =~= head + shown.take(0));
    }
    let mut i: usize = 0;
    while i < names.len()
        invariant
            i <= names.len(),
            shown == listed_names(text::views(names@)),
            text::views(out@) == head + shown.take(i as int),
        decreases names.len() - i,
    {
        let line = concat("  ", display_text(names[i].as_str()).as_str());
        proof {
            assert(shown[i as int] == line@);
            text::views_push(out@, line);
            assert(head + shown.take(i + 1) =~= (head + shown.take(i as int)).push(line@));
        }
        out.push(line);
        i += 1;
    }
    proof {
        assert(shown.take(i as int) =~= shown);
    }
    out
}

/// A further `key=value` gives its key that value, whatever stood there, and
/// leaves the other keys as they are. The key ends at the first `=`.
pub proof fn parameters_take_their_values(
    args: Seq<Seq<char>>,
    key: Seq<char>,
    value: Seq<char>,
)
    requires
        !key.contains('='),
    ensures
        ({
            let before = params_of(args);
            let after = params_of(args.push(key + seq!['='] + value));
            &&& after.dom().contains(key)
            &&& after[key] == value
            &&& forall|k: Seq<char>|
                k != key ==> #[trigger] after.dom().contains(k) == before.dom().contains(k)
            &&& forall|k: Seq<char>|
                k != key && before.dom().contains(k) ==> #[trigger] after[k] == before[k]
        }),
        params_of(Seq::empty()) =~= Map::<Seq<char>, Seq<char>>::empty(),
{
    let arg = key + seq!['='] + value;
    let n = key.len() as int;
    assert(arg[n] == '=');
    assert forall|j: int| 0 <= j < n implies arg[j] != '=' by {
        assert(key.contains(key[j]));
    }
    key_end_is(arg, 0, n);
    assert(arg.take(n) =~= key);
    assert(arg.skip(n + 1) =~= value);
    assert(args.push(arg).drop_last() =~= args);
}

/// Arguments are refused where one of them holds no `=`, and it is the first
/// such one that is named.
pub proof fn malformed_parameters_are_refused(args: Seq<Seq<char>>)
    ensures
        match first_bad_param(args) {
            None => forall|i: int| 0 <= i < args.len() ==> (#[trigger] args[i]).contains('='),
            Some(bad) => exists|i: int|
                {
                    &&& 0 <= i < args.len()
                    &&& #[trigger] args[i] == bad
                    &&& !bad.contains('=')
                    &&& forall|j: int| 0 <= j < i ==> (#[trigger] args[j]).contains('=')
                },
        },
    decreases args.len(),
{
    if args.len() > 0 {
        let front = args.drop_last();
        malformed_parameters_are_refused(front);
        match first_bad_param(front) {
            Some(bad) => {
                let i = choose|i: int|
                    {
                        &&& 0 <= i < front.len()
                        &&& #[trigger] front[i] == bad
                        &&& !bad.contains('=')
                        &&& forall|j: int| 0 <= j < i ==> (#[trigger] front[j]).contains('=')
                    };
                assert(args[i] == bad);
                assert forall|j: int| 0 <= j < i implies (#[trigger] args[j]).contains('=') by {
                    assert(front[j] == args[j]);
                }
            },
            None => {
                assert forall|j: int| 0 <= j < args.len() - 1 implies (
                #[trigger] args[j]).contains('=') by {
                    assert(front[j] == args[j]);
                }
                assert(args[args.len() - 1] == args.last());
            },
        }
    }
}

/// The words of a run make up its input, in their order with a space between any
/// two; a leading `task` says what the input is and is no part of it.
pub proof fn words_make_up_the_input(words: Seq<Seq<char>>)
    ensures
        names_task(seq!["task"@] + words),
        run_input(seq!["task"@] + words) == text::joined(words, " "@),
        words.len() > 0 && words[0] != "task"@ ==> !names_task(words) && run_input(words)
            == text::joined(words, " "@),
        words.len() == 0 ==> !names_task(words),
{
    assert((seq!["task"@] + words).skip(1) =~= words);
}

/// `1`, `true` and `yes`, in whatever case, switch a setting on; nothing else does.
pub proof fn settings_are_switched_on_by_name(v: Seq<char>)
    ensures
        !switched_on(None),
        switched_on(Some(v)) ==> v.len() == 1 || v.len() == 4 || v.len() == 3,
        text::lowered(v) == "1"@ ==> switched_on(Some(v)),
        text::lowered(v) == "true"@ ==> switched_on(Some(v)),
        text::lowered(v) == "yes"@ ==> switched_on(Some(v)),
        text::lowered(v) == "0"@ || text::lowered(v) == "false"@ || text::lowered(v) == "no"@
            || v.len() == 0 ==> !switched_on(Some(v)),
{
    reveal_strlit("1");
    reveal_strlit("true");
    reveal_strlit("yes");
    reveal_strlit("0");
    reveal_strlit("false");
    reveal_strlit("no");
    assert(text::lowered(v).len() == v.len());
    assert("1"@[0] != "0"@[0]);
}

/// Each command has a handler of its own.
pub proof fn handlers_are_distinct(a: Commands, b: Commands)
    requires
        handler_of(a) == handler_of(b),
    ensures
        a == b,
{
}

/// With the cloud backend a command is refused unless its handler runs, reports
/// on or ends dispatches.
pub proof fn cloud_commands_are_listed(c: Commands)
    ensures
        works_in_cloud(c) <==> (match handler_of(c) {
            Handler::Run
            | Handler::PostComplete
            | Handler::Status
            | Handler::Logs
            | Handler::Info
            | Handler::Watch
            | Handler::Health
            | Handler::Stop
            | Handler::Cleanup => true,
            _ => false,
        }),
{
}

/// A command does what it is named after, and no other command does it.
pub proof fn commands_do_what_they_are_named_after(c: Commands)
    ensures
        handler_of(c) == Handler::Run <==> c == Commands::Run,
        handler_of(c) == Handler::Health <==> c == Commands::Health,
        handler_of(c) == Handler::Prompt <==> c == Commands::Prompt,
        handler_of(c) == Handler::Close <==> c == Commands::Close,
        handler_of(c) == Handler::Redirect <==> c == Commands::Redirect,
        handler_of(c) == Handler::Retry <==> c == Commands::Retry,
        handler_of(c) == Handler::Status <==> c == Commands::StatusCmd,
        handler_of(c) == Handler::Sessions <==> c == Commands::Sessions,
        handler_of(c) == Handler::OpenSession <==> c == Commands::OpenSession,
        handler_of(c) == Handler::History <==> c == Commands::History,
        handler_of(c) == Handler::Info <==> c == Commands::Info,
        handler_of(c) == Handler::Logs <==> c == Commands::Logs,
        handler_of(c) == Handler::Stop <==> c == Commands::Stop,
        handler_of(c) == Handler::Cleanup <==> c == Commands::Cleanup,
        handler_of(c) == Handler::PostComplete <==> c == Commands::PostComplete,
        handler_of(c) == Handler::Init <==> c == Commands::Init,
        handler_of(c) == Handler::Watch <==> c == Commands::Watch,
        handler_of(c) == Handler::Enqueue <==> c == Commands::Enqueue,
        handler_of(c) == Handler::Quick <==> c == Commands::Quick,
        handler_of(c) == Handler::QueueDrain <==> c == Commands::Queue(Some(QueueAction::Drain)),
        handler_of(c) == Handler::QueueClear <==> c == Commands::Queue(Some(QueueAction::Clear)),
        handler_of(c) == Handler::QueueList <==> c == Commands::Queue(None),
        handler_of(c) == Handler::DaemonStop <==> c == Commands::Daemon(Some(DaemonAction::Stop)),
        handler_of(c) == Handler::DaemonStatus <==> c == Commands::Daemon(
            Some(DaemonAction::Status),
        ),
        handler_of(c) == Handler::DaemonRun <==> c == Commands::Daemon(None),
{
}

} // verus!
