//! `atc init` - sets a project up and wires its skills into coding agents.

use vstd::prelude::*;
use crate::resolvers::{template, ResolverConfig};
use crate::strmap;
use crate::text::{self, concat, join, push_str, same, trim, write_u64};

pub mod agents;
pub mod picker;

verus! {

/// Options of the `init` command.
pub struct InitOpts {
    /// The agent to wire.
    pub agent: Option<String>,
    /// Overwrite, or replace a link that points elsewhere.
    pub force: bool,
    /// Copy files instead of linking to them.
    pub copy: bool,
    /// List the agents that are known.
    pub list_agents: bool,
    /// List them as JSON.
    pub list_agents_json: bool,
    /// Wire every agent that is there.
    pub all_agents: bool,
    /// Do not ask.
    pub no_interactive: bool,
    /// Ask, without setting the project up.
    pub interactive: bool,
}

/// What `init` does.
#[derive(Clone, Copy, Debug, PartialEq, Eq, Structural)]
pub enum Route {
    List { json: bool },
    AllAgents,
    OneAgent,
    Picker,
    /// Set the project up, and ask for agents after that if `pick`.
    Scaffold { pick: bool },
}

/// What `init` does: listing comes before wiring, and that before setting up.
/// Only someone at a terminal is asked.
pub open spec fn route_of(opts: InitOpts, at_terminal: bool) -> Route {
    if opts.list_agents {
        Route::List { json: opts.list_agents_json }
    } else if opts.all_agents {
        Route::AllAgents
    } else if opts.agent is Some {
        Route::OneAgent
    } else if opts.interactive {
        Route::Picker
    } else {
        Route::Scaffold { pick: !opts.no_interactive && at_terminal }
    }
}

pub fn choose_route(opts: &InitOpts, at_terminal: bool) -> (r: Route)
    ensures
        r == route_of(*opts, at_terminal),
{
    if opts.list_agents {
        Route::List { json: opts.list_agents_json }
    } else if opts.all_agents {
        Route::AllAgents
    } else if opts.agent.is_some() {
        Route::OneAgent
    } else if opts.interactive {
        Route::Picker
    } else {
        Route::Scaffold { pick: !opts.no_interactive && at_terminal }
    }
}

/// A project that is set up already is left alone unless it is to be
/// overwritten.
pub fn check_fresh(exists: bool, force: bool, atc_dir: &str) -> (r: Result<(), String>)
    ensures
        if exists && !force {
            r matches Err(e) && e@ == ".atc/ directory already exists at "@ + atc_dir@
                + ". Use --force to overwrite."@
        } else {
            r is Ok
        },
{
    if exists && !force {
        let mut e = concat(".atc/ directory already exists at ", atc_dir);
        push_str(&mut e, ". Use --force to overwrite.");
        Err(e)
    } else {
        Ok(())
    }
}

/// A part of the configuration as it is written, if it is: where it is needed
/// and its text could be made. A part that brings its own headings has none
/// here.
pub open spec fn section_text(
    heading: Option<Seq<char>>,
    needed: bool,
    body: Option<Seq<char>>,
    skip_blank: bool,
) -> Option<Seq<char>> {
    match body {
        Some(b) => if needed && !(skip_blank && text::trimmed(b).len() == 0) {
            Some(
                match heading {
                    Some(h) => "["@ + h + "]\n"@ + b,
                    None => b,
                },
            )
        } else {
            None
        },
        None => None,
    }
}

fn write_section(
    heading: Option<&str>,
    needed: bool,
    body: &Option<String>,
    skip_blank: bool,
) -> (r: Option<String>)
    ensures
        strmap::opt_view(r) == section_text(
            match heading {
                Some(h) => Some(h@),
                None => None,
            },
            needed,
            strmap::opt_view(*body),
            skip_blank,
        ),
{
    match body {
        Some(b) => if needed && !(skip_blank && trim(b.as_str()).as_str().unicode_len() == 0) {
            match heading {
                Some(h) => {
                    let mut out = concat("[", h);
                    push_str(&mut out, "]\n");
                    push_str(&mut out, b.as_str());
                    Some(out)
                },
                None => Some(b.clone()),
            }
        } else {
            None
        },
        None => None,
    }
}

/// Those of the first `n` texts that are there.
pub open spec fn present(texts: Seq<Option<Seq<char>>>, n: int) -> Seq<Seq<char>>
    decreases n,
{
    if n <= 0 {
        Seq::empty()
    } else {
        match texts[n - 1] {
            Some(t) => present(texts, n - 1).push(t),
            None => present(texts, n - 1),
        }
    }
}

/// What is written where nothing is configured.
pub open spec fn empty_config() -> Seq<char> {
    "# ATC configuration\n# Directives are in .atc/directives/*.toml\n# Components are in .atc/components/*.md\n# Templates are in .atc/templates/*.md\n"@
}

/// The parts of a configuration, each as it would be written, if it can be.
pub struct ConfigParts {
    pub registry: Option<String>,
    /// Whether a place for the registry is set.
    pub registry_set: bool,
    pub dispatch: Option<String>,
    pub batch: Option<String>,
    pub batch_changed: bool,
    pub health: Option<String>,
    pub health_changed: bool,
    pub watch: Option<String>,
    pub watch_changed: bool,
    /// The resolvers with their own headings.
    pub resolvers: Option<String>,
    pub resolver_config: ResolverConfig,
    pub prompt: Option<String>,
    pub prompt_changed: bool,
    pub paths: Option<String>,
    /// Where more configuration is searched for.
    pub search_path: Vec<String>,
    /// Nothing if no notifications are set.
    pub notifications: Option<String>,
}

/// The resolvers are as they are without a configuration.
pub open spec fn usual_resolvers(c: ResolverConfig) -> bool {
    &&& text::views(c.order@) == seq!["task"@, "template"@, "prompt"@]
    &&& c.task_enabled
    &&& c.template_enabled
    &&& c.prompt_enabled
}

fn has_usual_resolvers(c: &ResolverConfig) -> (r: bool)
    ensures
        r == usual_resolvers(*c),
{
    let ghost usual = seq!["task"@, "template"@, "prompt"@];
    proof {
        assert(text::views(c.order@).len() == c.order@.len());
        assert(usual.len() == 3);
    }
    if c.order.len() != 3 || !c.task_enabled || !c.template_enabled || !c.prompt_enabled {
        return false;
    }
    let r = same(c.order[0].as_str(), "task") && same(c.order[1].as_str(), "template") && same(
        c.order[2].as_str(),
        "prompt",
    );
    proof {
        let v = text::views(c.order@);
        assert(v[0] == c.order@[0]@ && v[1] == c.order@[1]@ && v[2] == c.order@[2]@);
        assert(usual[0] == "task"@ && usual[1] == "template"@ && usual[2] == "prompt"@);
        if r {
            assert(v =~= usual);
        }
    }
    r
}

/// The sections of a configuration in their order. The dispatch section is
/// written unless it is blank, the others where they say something.
pub open spec fn sections(p: ConfigParts) -> Seq<Option<Seq<char>>> {
    seq![
        section_text(Some("registry"@), p.registry_set, strmap::opt_view(p.registry), false),
        section_text(Some("dispatch"@), true, strmap::opt_view(p.dispatch), true),
        section_text(Some("batch"@), p.batch_changed, strmap::opt_view(p.batch), false),
        section_text(Some("health"@), p.health_changed, strmap::opt_view(p.health), false),
        section_text(Some("watch"@), p.watch_changed, strmap::opt_view(p.watch), false),
        section_text(
            None,
            !usual_resolvers(p.resolver_config),
            strmap::opt_view(p.resolvers),
            false,
        ),
        section_text(Some("prompt"@), p.prompt_changed, strmap::opt_view(p.prompt), false),
        section_text(Some("paths"@), p.search_path@.len() > 0, strmap::opt_view(p.paths), false),
        section_text(Some("notifications"@), true, strmap::opt_view(p.notifications), false),
    ]
}

/// The text of a configuration.
pub open spec fn config_text(p: ConfigParts) -> Seq<char> {
    let parts = present(sections(p), 9);
    if parts.len() == 0 {
        empty_config()
    } else {
        text::joined(parts, "\n"@)
    }
}

fn write_sections(p: &ConfigParts) -> (r: Vec<Option<String>>)
    ensures
        r@.len() == 9,
        forall|i: int| 0 <= i < 9 ==> strmap::opt_view(#[trigger] r@[i]) == sections(*p)[i],
{
    vec![
        write_section(Some("registry"), p.registry_set, &p.registry, false),
        write_section(Some("dispatch"), true, &p.dispatch, true),
        write_section(Some("batch"), p.batch_changed, &p.batch, false),
        write_section(Some("health"), p.health_changed, &p.health, false),
        write_section(Some("watch"), p.watch_changed, &p.watch, false),
        write_section(None, !has_usual_resolvers(&p.resolver_config), &p.resolvers, false),
        write_section(Some("prompt"), p.prompt_changed, &p.prompt, false),
        write_section(Some("paths"), p.search_path.len() > 0, &p.paths, false),
        write_section(Some("notifications"), true, &p.notifications, false),
    ]
}

/// Build the text of the configuration, without the directives, which have
/// files of their own.
pub fn build_config_toml(config: &ConfigParts) -> (r: String)
    ensures
        r@ == config_text(*config),
{
    let all = write_sections(config);
    let mut parts: Vec<String> = Vec::new();
    let mut i: usize = 0;
    proof {
        assert(text::views(parts@) =~= present(sections(*config), 0));
    }
    while i < all.len()
        invariant
            i <= all.len(),
            all@.len() == 9,
            forall|j: int|
                0 <= j < 9 ==> strmap::opt_view(#[trigger] all@[j]) == sections(*config)[j],
            text::views(parts@) == present(sections(*config), i as int),
        decreases all.len() - i,
    {
        proof {
            assert(strmap::opt_view(all@[i as int]) == sections(*config)[i as int]);
        }
        if let Some(t) = &all[i] {
            let t = t.clone();
            proof {
                text::views_push(parts@, t);
            }
            parts.push(t);
        }
        i += 1;
    }
    proof {
        assert(text::views(parts@).len() == parts@.len());
    }
    if parts.len() == 0 {
        "# ATC configuration\n# Directives are in .atc/directives/*.toml\n# Components are in .atc/components/*.md\n# Templates are in .atc/templates/*.md\n".to_owned()
    } else {
        join(&parts, "\n")
    }
}

/// What is said after files were copied, or where there were none to copy.
pub fn copied_message(label: &str, copied: Option<u64>, source: &str) -> (r: String)
    ensures
        r@ == match copied {
            Some(n) => "  Copied "@ + text::decimal(n as nat) + " "@ + label@,
            None => "  Skipping "@ + label@ + " (source dir not found: "@ + source@ + ")"@,
        },
{
    match copied {
        Some(n) => {
            let mut out = concat("  Copied ", write_u64(n).as_str());
            push_str(&mut out, " ");
            push_str(&mut out, label);
            out
        },
        None => {
            let mut out = concat("  Skipping ", label);
            push_str(&mut out, " (source dir not found: ");
            push_str(&mut out, source);
            push_str(&mut out, ")");
            out
        },
    }
}

/// Whether a file is copied: those that end in `.md`.
pub fn is_copied(file: &str) -> (r: bool)
    ensures
        r == (template::template_in(file@) is Some),
{
    template::template_of(file).is_some()
}

/// What is said after a project was set up. `superseded` tells that an older
/// configuration is still there.
pub fn initialized_lines(atc_dir: &str, superseded: bool) -> (r: Vec<String>)
    ensures
        text::views(r@) == if superseded {
            seq![
                "\nInitialized .atc/ at "@ + atc_dir@,
                "You can now remove atc.toml \u{2014} ATC will use .atc/config.toml instead."@,
            ]
        } else {
            seq!["\nInitialized .atc/ at "@ + atc_dir@]
        },
{
    let first = concat("\nInitialized .atc/ at ", atc_dir);
    let r = if superseded {
        vec![
            first,
            "You can now remove atc.toml \u{2014} ATC will use .atc/config.toml instead.".to_owned(),
        ]
    } else {
        vec![first]
    };
    proof {
        assert(text::views(r@) =~= if superseded {
            seq![
                "\nInitialized .atc/ at "@ + atc_dir@,
                "You can now remove atc.toml \u{2014} ATC will use .atc/config.toml instead."@,
            ]
        } else {
            seq!["\nInitialized .atc/ at "@ + atc_dir@]
        });
    }
    r
}

/// Listing comes before all else, then wiring all agents, then wiring the one that is
/// named, then asking for some. The project is set up exactly where none of these is asked
/// for, and agents are asked for after that exactly where someone is there to answer and
/// does not mind.
pub proof fn routes_come_in_order(opts: InitOpts, at_terminal: bool)
    ensures
        ({
            let r = route_of(opts, at_terminal);
            &&& r is List <==> opts.list_agents
            &&& r matches Route::List { json } ==> json == opts.list_agents_json
            &&& r == Route::AllAgents <==> !opts.list_agents && opts.all_agents
            &&& r == Route::OneAgent <==> !opts.list_agents && !opts.all_agents && opts.agent
                is Some
            &&& r == Route::Picker <==> !opts.list_agents && !opts.all_agents && opts.agent is None
                && opts.interactive
            &&& r matches Route::Scaffold { pick } ==> pick == (at_terminal && !opts.no_interactive)
        }),
{
}

proof fn present_texts_are_kept(texts: Seq<Option<Seq<char>>>, n: int, t: Seq<char>)
    requires
        0 <= n <= texts.len(),
    ensures
        present(texts, n).contains(t) <==> exists|i: int|
            0 <= i < n && #[trigger] texts[i] == Some(t),
    decreases n,
{
    if n > 0 {
        let before = present(texts, n - 1);
        present_texts_are_kept(texts, n - 1, t);
        if let Some(last) = texts[n - 1] {
            let all = before.push(last);
            if all.contains(t) {
                let k = choose|k: int| 0 <= k < all.len() && all[k] == t;
                if k < before.len() {
                    assert(before[k] == t);
                    assert(before.contains(t));
                } else {
                    assert(texts[n - 1] == Some(t));
                }
            }
            if before.contains(t) {
                let k = choose|k: int| 0 <= k < before.len() && before[k] == t;
                assert(all[k] == t);
            }
            if last == t {
                assert(all[before.len() as int] == t);
            }
        }
    }
}

/// A configuration holds each section that is written, and where there is none it says
/// where things are.
pub proof fn configurations_hold_their_sections(p: ConfigParts, i: int, t: Seq<char>)
    ensures
        0 <= i < 9 && sections(p)[i] == Some(t) ==> text::occurs(config_text(p), t),
        (forall|j: int| 0 <= j < 9 ==> (#[trigger] sections(p)[j]) is None) ==> config_text(p)
            == empty_config(),
{
    let parts = present(sections(p), 9);
    present_texts_are_kept(sections(p), 9, t);
    if 0 <= i < 9 && sections(p)[i] == Some(t) {
        assert(parts.contains(t));
        let k = choose|k: int| 0 <= k < parts.len() && parts[k] == t;
        text::joined_holds_its_pieces(parts, "\n"@, k);
    }
    if forall|j: int| 0 <= j < 9 ==> (#[trigger] sections(p)[j]) is None {
        if parts.len() > 0 {
            present_texts_are_kept(sections(p), 9, parts[0]);
            assert(parts.contains(parts[0]));
        }
    }
}

/// A section is written under its heading where it says something, and not at all
/// elsewhere. The dispatch section is written unless it is blank.
pub proof fn sections_are_written_where_needed(p: ConfigParts)
    ensures
        p.registry matches Some(b) ==> sections(p)[0] == if p.registry_set {
            Some("["@ + "registry"@ + "]\n"@ + b@)
        } else {
            None
        },
        p.registry is None ==> sections(p)[0] is None,
        p.dispatch matches Some(b) ==> sections(p)[1] == if text::trimmed(b@).len() > 0 {
            Some("["@ + "dispatch"@ + "]\n"@ + b@)
        } else {
            None
        },
        p.batch matches Some(b) ==> sections(p)[2] == if p.batch_changed {
            Some("["@ + "batch"@ + "]\n"@ + b@)
        } else {
            None
        },
        p.health matches Some(b) ==> sections(p)[3] == if p.health_changed {
            Some("["@ + "health"@ + "]\n"@ + b@)
        } else {
            None
        },
        p.watch matches Some(b) ==> sections(p)[4] == if p.watch_changed {
            Some("["@ + "watch"@ + "]\n"@ + b@)
        } else {
            None
        },
        p.resolvers matches Some(b) ==> sections(p)[5] == if p.resolver_config.task_enabled
            && p.resolver_config.template_enabled && p.resolver_config.prompt_enabled
            && text::views(p.resolver_config.order@) == seq!["task"@, "template"@, "prompt"@] {
            None
        } else {
            Some(b@)
        },
        p.prompt matches Some(b) ==> sections(p)[6] == if p.prompt_changed {
            Some("["@ + "prompt"@ + "]\n"@ + b@)
        } else {
            None
        },
        p.paths matches Some(b) ==> sections(p)[7] == if p.search_path@.len() > 0 {
            Some("["@ + "paths"@ + "]\n"@ + b@)
        } else {
            None
        },
        p.notifications matches Some(b) ==> sections(p)[8] == Some(
            "["@ + "notifications"@ + "]\n"@ + b@,
        ),
{
}

} // verus!
