//! What an input on the command line stands for: a task, a template or a
//! prompt.

use vstd::prelude::*;
use crate::text::{self, same};

pub mod prompt;
pub mod task;
pub mod template;

verus! {

/// The kinds of resolvers.
#[derive(Clone, Copy, Debug, PartialEq, Eq, Structural)]
pub enum Resolver {
    Task,
    Template,
    Prompt,
}

impl Resolver {
    pub open spec fn label(self) -> Seq<char> {
        match self {
            Resolver::Task => "task"@,
            Resolver::Template => "template"@,
            Resolver::Prompt => "prompt"@,
        }
    }

    pub fn name(self) -> (r: &'static str)
        ensures
            r@ == self.label(),
    {
        match self {
            Resolver::Task => "task",
            Resolver::Template => "template",
            Resolver::Prompt => "prompt",
        }
    }
}

/// The resolver with the given name.
pub open spec fn resolver_named(name: Seq<char>) -> Option<Resolver> {
    if name == "task"@ {
        Some(Resolver::Task)
    } else if name == "template"@ {
        Some(Resolver::Template)
    } else if name == "prompt"@ {
        Some(Resolver::Prompt)
    } else {
        None
    }
}

/// Single source of truth: a resolver by its name.
pub fn make_resolver(name: &str) -> (r: Option<Resolver>)
    ensures
        r == resolver_named(name@),
{
    if same(name, "task") {
        Some(Resolver::Task)
    } else if same(name, "template") {
        Some(Resolver::Template)
    } else if same(name, "prompt") {
        Some(Resolver::Prompt)
    } else {
        None
    }
}

/// A resolver is found under its own name.
pub proof fn resolvers_are_found_by_name(r: Resolver)
    ensures
        resolver_named(r.label()) == Some(r),
{
    reveal_strlit("task");
    reveal_strlit("template");
    reveal_strlit("prompt");
    assert("task"@.len() == 4);
    assert("template"@.len() == 8);
    assert("prompt"@.len() == 6);
}

/// Which resolvers are tried, and in what order.
pub struct ResolverConfig {
    pub order: Vec<String>,
    pub task_enabled: bool,
    pub template_enabled: bool,
    pub prompt_enabled: bool,
}

impl Default for ResolverConfig {
    fn default() -> (r: ResolverConfig)
        ensures
            text::views(r.order@) == seq!["task"@, "template"@, "prompt"@],
            r.task_enabled && r.template_enabled && r.prompt_enabled,
    {
        let order = vec!["task".to_owned(), "template".to_owned(), "prompt".to_owned()];
        proof {
            assert(text::views(order@) =~= seq!["task"@, "template"@, "prompt"@]);
        }
        ResolverConfig {
            order,
            task_enabled: true,
            template_enabled: true,
            prompt_enabled: true,
        }
    }
}

impl ResolverConfig {
    pub open spec fn enables(self, r: Resolver) -> bool {
        match r {
            Resolver::Task => self.task_enabled,
            Resolver::Template => self.template_enabled,
            Resolver::Prompt => self.prompt_enabled,
        }
    }

    pub fn is_enabled(&self, r: Resolver) -> (b: bool)
        ensures
            b == self.enables(r),
    {
        match r {
            Resolver::Task => self.task_enabled,
            Resolver::Template => self.template_enabled,
            Resolver::Prompt => self.prompt_enabled,
        }
    }

    /// The resolvers that the first `n` names of the order stand for. Names that
    /// are not known, and resolvers that are switched off, are left out.
    pub open spec fn chain(self, n: int) -> Seq<Resolver>
        decreases n,
    {
        if n <= 0 {
            Seq::empty()
        } else {
            match resolver_named(self.order@[n - 1]@) {
                Some(r) => if self.enables(r) {
                    self.chain(n - 1).push(r)
                } else {
                    self.chain(n - 1)
                },
                None => self.chain(n - 1),
            }
        }
    }
}

/// Build the resolver chain from config, respecting order and enabled flags.
pub fn build_resolvers(config: &ResolverConfig) -> (r: Vec<Resolver>)
    ensures
        r@ == config.chain(config.order@.len() as int),
{
    let mut out: Vec<Resolver> = Vec::new();
    let mut i: usize = 0;
    while i < config.order.len()
        invariant
            i <= config.order.len(),
            out@ == config.chain(i as int),
        decreases config.order.len() - i,
    {
        if let Some(r) = make_resolver(config.order[i].as_str()) {
            if config.is_enabled(r) {
                out.push(r);
            }
        }
        i += 1;
    }
    out
}

/// No resolver that is switched off is ever tried.
pub proof fn disabled_resolvers_are_not_tried(config: ResolverConfig, n: int, r: Resolver)
    requires
        !config.enables(r),
    ensures
        !config.chain(n).contains(r),
    decreases n,
{
    if n > 0 {
        disabled_resolvers_are_not_tried(config, n - 1, r);
        let before = config.chain(n - 1);
        let all = config.chain(n);
        assert forall|i: int| 0 <= i < all.len() implies all[i] != r by {
            if i < before.len() {
                assert(before.contains(before[i]));
                assert(all[i] == before[i]);
            }
        }
    }
}

/// The resolvers are tried in the order of their names: one that is switched on follows
/// those before it, and nothing else is added.
pub proof fn resolvers_are_tried_in_order(config: ResolverConfig, n: int, r: Resolver)
    requires
        0 <= n < config.order@.len(),
        config.order@[n]@ == r.label(),
    ensures
        ({
            let on = match r {
                Resolver::Task => config.task_enabled,
                Resolver::Template => config.template_enabled,
                Resolver::Prompt => config.prompt_enabled,
            };
            config.chain(n + 1) == if on {
                config.chain(n).push(r)
            } else {
                config.chain(n)
            }
        }),
        config.chain(0).len() == 0,
{
    resolvers_are_found_by_name(r);
}

/// A name that is none of a resolver adds nothing.
pub proof fn unknown_resolvers_are_passed_over(config: ResolverConfig, n: int)
    requires
        0 <= n < config.order@.len(),
        config.order@[n]@ != "task"@,
        config.order@[n]@ != "template"@,
        config.order@[n]@ != "prompt"@,
    ensures
        config.chain(n + 1) == config.chain(n),
        resolver_named(config.order@[n]@) is None,
{
}

} // verus!
