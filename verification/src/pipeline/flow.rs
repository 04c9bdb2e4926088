//! The order of the steps of a dispatch.
//!
//! A [`Flow`] is told what the last step brought and answers with the next
//! step. It does nothing itself.

use vstd::prelude::*;
use crate::types::{Directive, WorktreePolicy};

verus! {

/// How the dispatch was asked for.
#[derive(Clone, Copy, Debug, PartialEq, Eq, Structural)]
pub struct RunFlags {
    pub ephemeral: bool,
    pub inline: bool,
    pub dry_run: bool,
    pub force: bool,
    pub no_worktree: bool,
    /// Whether `.dispatch/env` of the worktree is read.
    pub project_env: bool,
}

/// The document slug of a dispatch.
#[derive(Clone, Copy, Debug, PartialEq, Eq, Structural)]
pub enum SlugState {
    Missing,
    Unsafe,
    Safe,
}

/// What is known once the input is resolved.
#[derive(Clone, Copy, Debug, PartialEq, Eq, Structural)]
pub struct Facts {
    pub directive: Directive,
    pub has_pr: bool,
    /// The policy the input asks for.
    pub policy: Option<WorktreePolicy>,
    pub slug: SlugState,
    pub has_template_body: bool,
    pub is_template: bool,
    pub has_providers: bool,
    /// Whether the resolver's environment already holds `GH_TOKEN`.
    pub has_token: bool,
}

/// Which answer the flow waits for.
#[derive(Clone, Copy, Debug, PartialEq, Eq, Structural)]
pub enum Phase {
    FindResolver,
    Resolve,
    ValidateBranch,
    ProbeSession,
    EphemeralDocument,
    EphemeralSpawn,
    Context,
    Document,
    Checkout,
    Worktree,
    ProjectEnv,
    Token,
    LogDir,
    Prompt,
    Providers,
    Assemble,
    DefaultBranch,
    Spawn,
    WorkUnit,
    Insert,
    Kill,
    Comment,
    Over,
}

/// What the last step brought.
#[derive(Clone, Copy, Debug, PartialEq, Eq, Structural)]
pub enum Event {
    /// Whether a resolver takes the input.
    ResolverFound(bool),
    /// The resolved input, or that resolving failed.
    Resolved(Option<Facts>),
    BranchValid(bool),
    SessionAlive(bool),
    /// The workspace of the document: found, or in no workspace.
    DocumentFound(bool),
    DocumentFailed,
    ContextReady,
    CheckoutTried,
    /// The worktree, and whether it is new and made by `meta`.
    WorktreeReady { created: bool, is_meta: bool },
    WorktreeFailed,
    /// The project environment, and whether it holds `GH_TOKEN`.
    ProjectEnvLoaded { has_token: bool },
    ProjectEnvFailed,
    TokenTried,
    LogReady(bool),
    PromptRendered(bool),
    ProvidersRan,
    /// The prompt is put together; whether it still names the default branch.
    Assembled { needs_default_branch: bool },
    DefaultBranchResolved,
    Spawned(bool),
    WorkUnitTried,
    Inserted(bool),
    SessionKilled(bool),
    CommentTried,
}

/// Why a dispatch is given up.
#[derive(Clone, Copy, Debug, PartialEq, Eq, Structural)]
pub enum Why {
    EphemeralNeedsInline,
    NoResolver,
    PrRequired,
    SessionExists,
    EphemeralNeedsTemplate,
    UnsafeSlug,
    DocumentNeedsSlug,
    /// The step that was asked for failed; its own error is reported.
    StepFailed,
}

/// Whether the resolver is told to let go of what it claimed.
#[derive(Clone, Copy, Debug, PartialEq, Eq, Structural)]
pub enum Cleanup {
    Skip,
    /// With a record made up for the purpose.
    Temporary,
    /// With the record that could not be stored.
    Recorded,
}

#[derive(Clone, Copy, Debug, PartialEq, Eq, Structural)]
pub struct Failure {
    pub why: Why,
    /// Remove the worktree again, before the resolver cleans up.
    pub rollback: bool,
    pub cleanup: Cleanup,
}

/// The next step.
#[derive(Clone, Copy, Debug, PartialEq, Eq, Structural)]
pub enum Action {
    /// Nothing: the event was not the one waited for.
    Wait,
    FindResolver,
    Resolve,
    ValidateBranch,
    ProbeSession,
    /// Show what would be dispatched, and end.
    Preview,
    ResolveDocument,
    SpawnEphemeral,
    /// Let the resolver clean up, report, and end.
    FinishEphemeral,
    GatherContext,
    CheckoutToMain,
    EnsureWorktree,
    LoadProjectEnv,
    ResolveToken,
    PrepareLog,
    RenderPrompt,
    RunProviders,
    AssemblePrompt,
    ResolveDefaultBranch,
    Spawn,
    ResolveWorkUnit,
    InsertRecord,
    KillSession,
    PostComment,
    /// Report the dispatch, and end.
    Finish,
    Fail(Failure),
}

#[derive(Clone, Copy, Debug, PartialEq, Eq, Structural)]
pub struct Flow {
    pub phase: Phase,
    pub flags: RunFlags,
    pub facts: Facts,
    pub policy: WorktreePolicy,
    /// The worktree is new.
    pub created: bool,
    pub is_meta: bool,
    /// The agent was started.
    pub spawned: bool,
}

/// Where the dispatch runs.
pub open spec fn effective_policy(no_worktree: bool, asked: Option<WorktreePolicy>) -> WorktreePolicy {
    if no_worktree {
        WorktreePolicy::Current
    } else {
        match asked {
            Some(p) => p,
            None => WorktreePolicy::Branch,
        }
    }
}

pub fn choose_policy(no_worktree: bool, asked: Option<WorktreePolicy>) -> (r: WorktreePolicy)
    ensures
        r == effective_policy(no_worktree, asked),
{
    if no_worktree {
        WorktreePolicy::Current
    } else {
        match asked {
            Some(p) => p,
            None => WorktreePolicy::Branch,
        }
    }
}

pub open spec fn fail(why: Why, rollback: bool, cleanup: Cleanup) -> Action {
    Action::Fail(Failure { why, rollback, cleanup })
}

pub open spec fn no_facts() -> Facts {
    Facts {
        directive: Directive::Implement,
        has_pr: false,
        policy: None,
        slug: SlugState::Missing,
        has_template_body: false,
        is_template: false,
        has_providers: false,
        has_token: false,
    }
}

/// A dispatch before anything happened.
pub open spec fn started(flags: RunFlags) -> (Flow, Action) {
    let refused = flags.ephemeral && !flags.inline;
    let flow = Flow {
        phase: if refused {
            Phase::Over
        } else {
            Phase::FindResolver
        },
        flags,
        facts: no_facts(),
        policy: WorktreePolicy::Branch,
        created: false,
        is_meta: false,
        spawned: false,
    };
    (
        flow,
        if refused {
            fail(Why::EphemeralNeedsInline, false, Cleanup::Skip)
        } else {
            Action::FindResolver
        },
    )
}

impl Flow {
    pub open spec fn goes(self, phase: Phase, action: Action) -> (Flow, Action) {
        (Flow { phase, ..self }, action)
    }

    pub open spec fn fails(self, why: Why, cleanup: Cleanup) -> (Flow, Action) {
        self.goes(
            Phase::Over,
            fail(why, self.created && !self.spawned && self.phase != Phase::Prompt, cleanup),
        )
    }

    /// After the checks that come before anything is touched.
    pub open spec fn routed(self) -> (Flow, Action) {
        if self.flags.dry_run {
            self.goes(Phase::Over, Action::Preview)
        } else if self.flags.ephemeral {
            if !self.facts.has_template_body {
                self.fails(Why::EphemeralNeedsTemplate, Cleanup::Skip)
            } else if self.policy == WorktreePolicy::Document && self.facts.slug
                == SlugState::Unsafe {
                self.fails(Why::UnsafeSlug, Cleanup::Skip)
            } else if self.policy == WorktreePolicy::Document && self.facts.slug
                == SlugState::Safe {
                self.goes(Phase::EphemeralDocument, Action::ResolveDocument)
            } else {
                self.goes(Phase::EphemeralSpawn, Action::SpawnEphemeral)
            }
        } else {
            self.goes(Phase::Context, Action::GatherContext)
        }
    }

    /// Once it is known where the dispatch runs.
    pub open spec fn placed(self) -> (Flow, Action) {
        if self.flags.project_env {
            self.goes(Phase::ProjectEnv, Action::LoadProjectEnv)
        } else {
            self.with_env(false)
        }
    }

    pub open spec fn with_env(self, has_token: bool) -> (Flow, Action) {
        if has_token || self.facts.has_token {
            self.goes(Phase::LogDir, Action::PrepareLog)
        } else {
            self.goes(Phase::Token, Action::ResolveToken)
        }
    }

    pub open spec fn prompted(self) -> (Flow, Action) {
        if self.facts.has_providers {
            self.goes(Phase::Providers, Action::RunProviders)
        } else {
            self.goes(Phase::Assemble, Action::AssemblePrompt)
        }
    }

    /// What comes next, and what the flow then is.
    #[verifier::opaque]
    pub open spec fn next(self, event: Event) -> (Flow, Action) {
        match self.phase {
            Phase::FindResolver => match event {
                Event::ResolverFound(found) => if found {
                    self.goes(Phase::Resolve, Action::Resolve)
                } else {
                    self.fails(Why::NoResolver, Cleanup::Skip)
                },
                _ => (self, Action::Wait),
            },
            Phase::Resolve => match event {
                Event::Resolved(resolved) => match resolved {
                    None => self.fails(Why::StepFailed, Cleanup::Skip),
                    Some(facts) => {
                        let flow = Flow {
                            facts,
                            policy: effective_policy(self.flags.no_worktree, facts.policy),
                            ..self
                        };
                        if facts.directive.wants_pr() && !facts.has_pr {
                            flow.fails(Why::PrRequired, Cleanup::Temporary)
                        } else {
                            flow.goes(Phase::ValidateBranch, Action::ValidateBranch)
                        }
                    },
                },
                _ => (self, Action::Wait),
            },
            Phase::ValidateBranch => match event {
                Event::BranchValid(valid) => if !valid {
                    self.fails(Why::StepFailed, Cleanup::Temporary)
                } else if self.flags.force {
                    self.routed()
                } else {
                    self.goes(Phase::ProbeSession, Action::ProbeSession)
                },
                _ => (self, Action::Wait),
            },
            Phase::ProbeSession => match event {
                Event::SessionAlive(alive) => if alive {
                    self.fails(Why::SessionExists, Cleanup::Temporary)
                } else {
                    self.routed()
                },
                _ => (self, Action::Wait),
            },
            Phase::EphemeralDocument => match event {
                Event::DocumentFound(_) => self.goes(
                    Phase::EphemeralSpawn,
                    Action::SpawnEphemeral,
                ),
                Event::DocumentFailed => self.goes(
                    Phase::EphemeralSpawn,
                    Action::SpawnEphemeral,
                ),
                _ => (self, Action::Wait),
            },
            Phase::EphemeralSpawn => match event {
                Event::Spawned(ok) => if ok {
                    Flow { spawned: true, ..self }.goes(Phase::Over, Action::FinishEphemeral)
                } else {
                    self.fails(Why::StepFailed, Cleanup::Temporary)
                },
                _ => (self, Action::Wait),
            },
            Phase::Context => match event {
                Event::ContextReady => match self.policy {
                    WorktreePolicy::Current => self.placed(),
                    WorktreePolicy::Root => self.placed(),
                    WorktreePolicy::Document => match self.facts.slug {
                        SlugState::Missing => self.fails(Why::DocumentNeedsSlug, Cleanup::Temporary),
                        SlugState::Unsafe => self.fails(Why::UnsafeSlug, Cleanup::Temporary),
                        SlugState::Safe => self.goes(Phase::Document, Action::ResolveDocument),
                    },
                    WorktreePolicy::Branch => self.goes(Phase::Worktree, Action::EnsureWorktree),
                },
                _ => (self, Action::Wait),
            },
            Phase::Document => match event {
                Event::DocumentFound(found) => if found {
                    self.placed()
                } else {
                    self.goes(Phase::Checkout, Action::CheckoutToMain)
                },
                Event::DocumentFailed => self.fails(
                    Why::StepFailed,
                    Cleanup::Temporary,
                ),
                _ => (self, Action::Wait),
            },
            Phase::Checkout => match event {
                Event::CheckoutTried => self.placed(),
                _ => (self, Action::Wait),
            },
            Phase::Worktree => match event {
                Event::WorktreeReady { created, is_meta } => Flow {
                    created,
                    is_meta,
                    ..self
                }.placed(),
                Event::WorktreeFailed => self.fails(
                    Why::StepFailed,
                    Cleanup::Temporary,
                ),
                _ => (self, Action::Wait),
            },
            Phase::ProjectEnv => match event {
                Event::ProjectEnvLoaded { has_token } => self.with_env(has_token),
                Event::ProjectEnvFailed => self.fails(
                    Why::StepFailed,
                    Cleanup::Temporary,
                ),
                _ => (self, Action::Wait),
            },
            Phase::Token => match event {
                Event::TokenTried => self.goes(Phase::LogDir, Action::PrepareLog),
                _ => (self, Action::Wait),
            },
            Phase::LogDir => match event {
                Event::LogReady(ok) => if !ok {
                    self.fails(Why::StepFailed, Cleanup::Temporary)
                } else if self.facts.is_template {
                    self.goes(Phase::Prompt, Action::RenderPrompt)
                } else {
                    self.prompted()
                },
                _ => (self, Action::Wait),
            },
            Phase::Prompt => match event {
                Event::PromptRendered(ok) => if ok {
                    self.prompted()
                } else {
                    self.fails(Why::StepFailed, Cleanup::Skip)
                },
                _ => (self, Action::Wait),
            },
            Phase::Providers => match event {
                Event::ProvidersRan => self.goes(
                    Phase::Assemble,
                    Action::AssemblePrompt,
                ),
                _ => (self, Action::Wait),
            },
            Phase::Assemble => match event {
                Event::Assembled { needs_default_branch } => if needs_default_branch {
                    self.goes(Phase::DefaultBranch, Action::ResolveDefaultBranch)
                } else {
                    self.goes(Phase::Spawn, Action::Spawn)
                },
                _ => (self, Action::Wait),
            },
            Phase::DefaultBranch => match event {
                Event::DefaultBranchResolved => self.goes(
                    Phase::Spawn,
                    Action::Spawn,
                ),
                _ => (self, Action::Wait),
            },
            Phase::Spawn => match event {
                Event::Spawned(ok) => if ok {
                    Flow { spawned: true, ..self }.goes(Phase::WorkUnit, Action::ResolveWorkUnit)
                } else {
                    self.fails(Why::StepFailed, Cleanup::Temporary)
                },
                _ => (self, Action::Wait),
            },
            Phase::WorkUnit => match event {
                Event::WorkUnitTried => self.goes(
                    Phase::Insert,
                    Action::InsertRecord,
                ),
                _ => (self, Action::Wait),
            },
            Phase::Insert => match event {
                Event::Inserted(ok) => if !ok {
                    self.goes(Phase::Kill, Action::KillSession)
                } else if self.facts.directive.wants_pr() && self.facts.has_pr {
                    self.goes(Phase::Comment, Action::PostComment)
                } else {
                    self.goes(Phase::Over, Action::Finish)
                },
                _ => (self, Action::Wait),
            },
            Phase::Kill => match event {
                Event::SessionKilled(killed) => self.fails(
                    Why::StepFailed,
                    if killed {
                        Cleanup::Recorded
                    } else {
                        Cleanup::Skip
                    },
                ),
                _ => (self, Action::Wait),
            },
            Phase::Comment => match event {
                Event::CommentTried => self.goes(Phase::Over, Action::Finish),
                _ => (self, Action::Wait),
            },
            Phase::Over => (self, Action::Wait),
        }
    }
}

/// Starts a dispatch.
pub fn start(flags: RunFlags) -> (r: (Flow, Action))
    ensures
        r == started(flags),
{
    let refused = flags.ephemeral && !flags.inline;
    let facts = Facts {
        directive: Directive::Implement,
        has_pr: false,
        policy: None,
        slug: SlugState::Missing,
        has_template_body: false,
        is_template: false,
        has_providers: false,
        has_token: false,
    };
    let flow = Flow {
        phase: if refused {
            Phase::Over
        } else {
            Phase::FindResolver
        },
        flags,
        facts,
        policy: WorktreePolicy::Branch,
        created: false,
        is_meta: false,
        spawned: false,
    };
    let action = if refused {
        Action::Fail(
            Failure { why: Why::EphemeralNeedsInline, rollback: false, cleanup: Cleanup::Skip },
        )
    } else {
        Action::FindResolver
    };
    (flow, action)
}

impl Flow {
    fn go(self, phase: Phase, action: Action) -> (r: (Flow, Action))
        ensures
            r == self.goes(phase, action),
    {
        (Flow { phase, ..self }, action)
    }

    fn give_up(self, why: Why, cleanup: Cleanup) -> (r: (Flow, Action))
        ensures
            r == self.fails(why, cleanup),
    {
        self.go(
            Phase::Over,
            Action::Fail(
                Failure {
                    why,
                    rollback: self.created && !self.spawned && !matches!(self.phase, Phase::Prompt),
                    cleanup,
                },
            ),
        )
    }

    /// After the checks that come before anything is touched.
    fn route(self) -> (r: (Flow, Action))
        ensures
            r == self.routed(),
    {
        if self.flags.dry_run {
            self.go(Phase::Over, Action::Preview)
        } else if self.flags.ephemeral {
            if !self.facts.has_template_body {
                self.give_up(Why::EphemeralNeedsTemplate, Cleanup::Skip)
            } else if matches!(self.policy, WorktreePolicy::Document) && matches!(self.facts.slug, SlugState::Unsafe) {
                self.give_up(Why::UnsafeSlug, Cleanup::Skip)
            } else if matches!(self.policy, WorktreePolicy::Document) && matches!(self.facts.slug, SlugState::Safe) {
                self.go(Phase::EphemeralDocument, Action::ResolveDocument)
            } else {
                self.go(Phase::EphemeralSpawn, Action::SpawnEphemeral)
            }
        } else {
            self.go(Phase::Context, Action::GatherContext)
        }
    }

    /// Once it is known where the dispatch runs.
    fn place(self) -> (r: (Flow, Action))
        ensures
            r == self.placed(),
    {
        if self.flags.project_env {
            self.go(Phase::ProjectEnv, Action::LoadProjectEnv)
        } else {
            self.have_env(false)
        }
    }

    fn have_env(self, has_token: bool) -> (r: (Flow, Action))
        ensures
            r == self.with_env(has_token),
    {
        if has_token || self.facts.has_token {
            self.go(Phase::LogDir, Action::PrepareLog)
        } else {
            self.go(Phase::Token, Action::ResolveToken)
        }
    }

    fn have_prompt(self) -> (r: (Flow, Action))
        ensures
            r == self.prompted(),
    {
        if self.facts.has_providers {
            self.go(Phase::Providers, Action::RunProviders)
        } else {
            self.go(Phase::Assemble, Action::AssemblePrompt)
        }
    }

    /// Takes what the last step brought and gives the next step.
    pub fn step(self, event: Event) -> (r: (Flow, Action))
        ensures
            r == self.next(event),
    {
        proof {
            reveal(Flow::next);
        }
        match self.phase {
            Phase::FindResolver => match event {
                Event::ResolverFound(found) => if found {
                    self.go(Phase::Resolve, Action::Resolve)
                } else {
                    self.give_up(Why::NoResolver, Cleanup::Skip)
                },
                _ => (self, Action::Wait),
            },
            Phase::Resolve => match event {
                Event::Resolved(resolved) => match resolved {
                    None => self.give_up(Why::StepFailed, Cleanup::Skip),
                    Some(facts) => {
                        let flow = Flow {
                            facts,
                            policy: choose_policy(self.flags.no_worktree, facts.policy),
                            ..self
                        };
                        if facts.directive.requires_pr() && !facts.has_pr {
                            flow.give_up(Why::PrRequired, Cleanup::Temporary)
                        } else {
                            flow.go(Phase::ValidateBranch, Action::ValidateBranch)
                        }
                    },
                },
                _ => (self, Action::Wait),
            },
            Phase::ValidateBranch => match event {
                Event::BranchValid(valid) => if !valid {
                    self.give_up(Why::StepFailed, Cleanup::Temporary)
                } else if self.flags.force {
                    self.route()
                } else {
                    self.go(Phase::ProbeSession, Action::ProbeSession)
                },
                _ => (self, Action::Wait),
            },
            Phase::ProbeSession => match event {
                Event::SessionAlive(alive) => if alive {
                    self.give_up(Why::SessionExists, Cleanup::Temporary)
                } else {
                    self.route()
                },
                _ => (self, Action::Wait),
            },
            Phase::EphemeralDocument => match event {
                Event::DocumentFound(_) => self.go(
                    Phase::EphemeralSpawn,
                    Action::SpawnEphemeral,
                ),
                Event::DocumentFailed => self.go(
                    Phase::EphemeralSpawn,
                    Action::SpawnEphemeral,
                ),
                _ => (self, Action::Wait),
            },
            Phase::EphemeralSpawn => match event {
                Event::Spawned(ok) => if ok {
                    Flow { spawned: true, ..self }.go(Phase::Over, Action::FinishEphemeral)
                } else {
                    self.give_up(Why::StepFailed, Cleanup::Temporary)
                },
                _ => (self, Action::Wait),
            },
            Phase::Context => match event {
                Event::ContextReady => match self.policy {
                    WorktreePolicy::Current => self.place(),
                    WorktreePolicy::Root => self.place(),
                    WorktreePolicy::Document => match self.facts.slug {
                        SlugState::Missing => self.give_up(Why::DocumentNeedsSlug, Cleanup::Temporary),
                        SlugState::Unsafe => self.give_up(Why::UnsafeSlug, Cleanup::Temporary),
                        SlugState::Safe => self.go(Phase::Document, Action::ResolveDocument),
                    },
                    WorktreePolicy::Branch => self.go(Phase::Worktree, Action::EnsureWorktree),
                },
                _ => (self, Action::Wait),
            },
            Phase::Document => match event {
                Event::DocumentFound(found) => if found {
                    self.place()
                } else {
                    self.go(Phase::Checkout, Action::CheckoutToMain)
                },
                Event::DocumentFailed => self.give_up(
                    Why::StepFailed,
                    Cleanup::Temporary,
                ),
                _ => (self, Action::Wait),
            },
            Phase::Checkout => match event {
                Event::CheckoutTried => self.place(),
                _ => (self, Action::Wait),
            },
            Phase::Worktree => match event {
                Event::WorktreeReady { created, is_meta } => Flow {
                    created,
                    is_meta,
                    ..self
                }.place(),
                Event::WorktreeFailed => self.give_up(
                    Why::StepFailed,
                    Cleanup::Temporary,
                ),
                _ => (self, Action::Wait),
            },
            Phase::ProjectEnv => match event {
                Event::ProjectEnvLoaded { has_token } => self.have_env(has_token),
                Event::ProjectEnvFailed => self.give_up(
                    Why::StepFailed,
                    Cleanup::Temporary,
                ),
                _ => (self, Action::Wait),
            },
            Phase::Token => match event {
                Event::TokenTried => self.go(Phase::LogDir, Action::PrepareLog),
                _ => (self, Action::Wait),
            },
            Phase::LogDir => match event {
                Event::LogReady(ok) => if !ok {
                    self.give_up(Why::StepFailed, Cleanup::Temporary)
                } else if self.facts.is_template {
                    self.go(Phase::Prompt, Action::RenderPrompt)
                } else {
                    self.have_prompt()
                },
                _ => (self, Action::Wait),
            },
            Phase::Prompt => match event {
                Event::PromptRendered(ok) => if ok {
                    self.have_prompt()
                } else {
                    self.give_up(Why::StepFailed, Cleanup::Skip)
                },
                _ => (self, Action::Wait),
            },
            Phase::Providers => match event {
                Event::ProvidersRan => self.go(
                    Phase::Assemble,
                    Action::AssemblePrompt,
                ),
                _ => (self, Action::Wait),
            },
            Phase::Assemble => match event {
                Event::Assembled { needs_default_branch } => if needs_default_branch {
                    self.go(Phase::DefaultBranch, Action::ResolveDefaultBranch)
                } else {
                    self.go(Phase::Spawn, Action::Spawn)
                },
                _ => (self, Action::Wait),
            },
            Phase::DefaultBranch => match event {
                Event::DefaultBranchResolved => self.go(
                    Phase::Spawn,
                    Action::Spawn,
                ),
                _ => (self, Action::Wait),
            },
            Phase::Spawn => match event {
                Event::Spawned(ok) => if ok {
                    Flow { spawned: true, ..self }.go(Phase::WorkUnit, Action::ResolveWorkUnit)
                } else {
                    self.give_up(Why::StepFailed, Cleanup::Temporary)
                },
                _ => (self, Action::Wait),
            },
            Phase::WorkUnit => match event {
                Event::WorkUnitTried => self.go(
                    Phase::Insert,
                    Action::InsertRecord,
                ),
                _ => (self, Action::Wait),
            },
            Phase::Insert => match event {
                Event::Inserted(ok) => if !ok {
                    self.go(Phase::Kill, Action::KillSession)
                } else if self.facts.directive.requires_pr() && self.facts.has_pr {
                    self.go(Phase::Comment, Action::PostComment)
                } else {
                    self.go(Phase::Over, Action::Finish)
                },
                _ => (self, Action::Wait),
            },
            Phase::Kill => match event {
                Event::SessionKilled(killed) => self.give_up(
                    Why::StepFailed,
                    if killed {
                        Cleanup::Recorded
                    } else {
                        Cleanup::Skip
                    },
                ),
                _ => (self, Action::Wait),
            },
            Phase::Comment => match event {
                Event::CommentTried => self.go(Phase::Over, Action::Finish),
                _ => (self, Action::Wait),
            },
            Phase::Over => (self, Action::Wait),
        }
    }
}

/// The flow and the steps it asked for, after the given events.
pub open spec fn flow_after(flags: RunFlags, events: Seq<Event>) -> (Flow, Seq<Action>)
    decreases events.len(),
{
    if events.len() == 0 {
        (started(flags).0, seq![started(flags).1])
    } else {
        let (flow, actions) = flow_after(flags, events.drop_last());
        let (then, action) = flow.next(events.last());
        (then, actions.push(action))
    }
}

/// Steps that change something outside: files, sessions, records, comments.
pub open spec fn touches(a: Action) -> bool {
    a == Action::EnsureWorktree || a == Action::CheckoutToMain || a == Action::PrepareLog || a
        == Action::RunProviders || a == Action::Spawn || a == Action::SpawnEphemeral || a
        == Action::ResolveWorkUnit || a == Action::InsertRecord || a == Action::KillSession || a
        == Action::PostComment
}

/// Steps that leave something behind besides what the agent itself does.
pub open spec fn leaves_traces(a: Action) -> bool {
    touches(a) && a != Action::SpawnEphemeral
}

/// Phases a dry run can be in.
pub open spec fn before_routing(p: Phase) -> bool {
    p == Phase::FindResolver || p == Phase::Resolve || p == Phase::ValidateBranch || p
        == Phase::ProbeSession
}

/// Phases an ephemeral dispatch has besides.
pub open spec fn ephemeral_phase(p: Phase) -> bool {
    p == Phase::EphemeralDocument || p == Phase::EphemeralSpawn
}

/// Phases in which the agent of a full dispatch runs.
pub open spec fn after_spawn(p: Phase) -> bool {
    p == Phase::WorkUnit || p == Phase::Insert || p == Phase::Kill || p == Phase::Comment
}

/// What holds of every flow that can come about.
pub open spec fn sound(f: Flow) -> bool {
    &&& f.flags.dry_run && f.phase != Phase::Over ==> before_routing(f.phase)
    &&& f.flags.ephemeral && f.phase != Phase::Over ==> before_routing(f.phase) || ephemeral_phase(
        f.phase,
    )
    &&& f.flags.ephemeral && f.phase != Phase::Over ==> f.flags.inline
    &&& ephemeral_phase(f.phase) ==> f.flags.ephemeral && !f.flags.dry_run
    &&& f.flags.ephemeral || f.flags.dry_run ==> !f.created
    &&& f.phase == Phase::Worktree ==> f.policy == WorktreePolicy::Branch
    &&& f.created ==> f.policy == WorktreePolicy::Branch
    &&& before_routing(f.phase) ==> !f.created && !f.spawned
    &&& f.phase == Phase::Context || f.phase == Phase::Document || f.phase == Phase::Checkout
        || f.phase == Phase::Worktree ==> !f.created
    &&& after_spawn(f.phase) ==> f.spawned
    &&& f.spawned ==> after_spawn(f.phase) || f.phase == Phase::Over
}

/// One step of a sound flow: it stays sound and touches only what its kind of
/// dispatch may touch.
#[verifier::rlimit(60)]
#[verifier::spinoff_prover]
proof fn step_of_sound_flow(f: Flow, event: Event)
    requires
        sound(f),
    ensures
        sound(f.next(event).0),
        f.next(event).0.flags == f.flags,
        f.flags.dry_run ==> !touches(f.next(event).1),
        f.flags.ephemeral ==> !leaves_traces(f.next(event).1),
{
    reveal(Flow::next);
}

/// Every flow that can come about is sound.
pub proof fn flows_are_sound(flags: RunFlags, events: Seq<Event>)
    ensures
        sound(flow_after(flags, events).0),
        flow_after(flags, events).0.flags == flags,
        flow_after(flags, events).1.len() == events.len() + 1,
    decreases events.len(),
{
    if events.len() > 0 {
        flows_are_sound(flags, events.drop_last());
        step_of_sound_flow(flow_after(flags, events.drop_last()).0, events.last());
    }
}

/// A dry run never touches anything.
pub proof fn dry_run_touches_nothing(flags: RunFlags, events: Seq<Event>)
    requires
        flags.dry_run,
    ensures
        forall|i: int|
            0 <= i < flow_after(flags, events).1.len() ==> !touches(
                #[trigger] flow_after(flags, events).1[i],
            ),
    decreases events.len(),
{
    if events.len() > 0 {
        dry_run_touches_nothing(flags, events.drop_last());
        flows_are_sound(flags, events.drop_last());
        step_of_sound_flow(flow_after(flags, events.drop_last()).0, events.last());
    }
}

/// An ephemeral dispatch makes no worktree, log, work unit or record and posts
/// no comment.
pub proof fn ephemeral_leaves_no_traces(flags: RunFlags, events: Seq<Event>)
    requires
        flags.ephemeral,
    ensures
        forall|i: int|
            0 <= i < flow_after(flags, events).1.len() ==> !leaves_traces(
                #[trigger] flow_after(flags, events).1[i],
            ),
    decreases events.len(),
{
    if events.len() > 0 {
        ephemeral_leaves_no_traces(flags, events.drop_last());
        flows_are_sound(flags, events.drop_last());
        step_of_sound_flow(flow_after(flags, events.drop_last()).0, events.last());
    }
}

/// A step that starts an agent.
pub open spec fn is_spawn(a: Action) -> bool {
    a == Action::Spawn || a == Action::SpawnEphemeral
}

/// How often an agent is started.
pub open spec fn spawns(actions: Seq<Action>) -> nat
    decreases actions.len(),
{
    if actions.len() == 0 {
        0
    } else {
        spawns(actions.drop_last()) + if is_spawn(actions.last()) {
            1nat
        } else {
            0nat
        }
    }
}

/// How far a dispatch has come.
pub open spec fn rank(p: Phase) -> int {
    match p {
        Phase::FindResolver => 0,
        Phase::Resolve => 1,
        Phase::ValidateBranch => 2,
        Phase::ProbeSession => 3,
        Phase::EphemeralDocument => 4,
        Phase::EphemeralSpawn => 14,
        Phase::Context => 4,
        Phase::Document => 5,
        Phase::Checkout => 6,
        Phase::Worktree => 6,
        Phase::ProjectEnv => 7,
        Phase::Token => 8,
        Phase::LogDir => 9,
        Phase::Prompt => 10,
        Phase::Providers => 11,
        Phase::Assemble => 12,
        Phase::DefaultBranch => 13,
        Phase::Spawn => 14,
        Phase::WorkUnit => 15,
        Phase::Insert => 16,
        Phase::Kill => 17,
        Phase::Comment => 17,
        Phase::Over => 18,
    }
}

/// A step either waits and changes nothing, or brings the dispatch further; so
/// a dispatch ends, and once it has ended nothing follows.
#[verifier::rlimit(60)]
#[verifier::spinoff_prover]
pub proof fn every_step_advances(f: Flow, event: Event)
    ensures
        f.next(event).1 == Action::Wait ==> f.next(event).0 == f,
        f.next(event).1 != Action::Wait ==> rank(f.next(event).0.phase) > rank(f.phase),
        f.phase == Phase::Over ==> f.next(event).1 == Action::Wait,
{
    reveal(Flow::next);
}

#[verifier::rlimit(60)]
#[verifier::spinoff_prover]
proof fn spawn_step(f: Flow, event: Event)
    ensures
        is_spawn(f.next(event).1) ==> rank(f.phase) < 14 && rank(f.next(event).0.phase) == 14,
        f.next(event).0.phase == Phase::Spawn && f.phase != Phase::Spawn ==> f.next(event).1
            == Action::Spawn,
        after_spawn(f.next(event).0.phase) ==> after_spawn(f.phase) || f.phase == Phase::Spawn,
        f.next(event).1 == Action::InsertRecord ==> f.phase == Phase::WorkUnit,
{
    reveal(Flow::next);
}

/// An agent is started at most once in a dispatch.
pub proof fn agent_is_started_at_most_once(flags: RunFlags, events: Seq<Event>)
    ensures
        spawns(flow_after(flags, events).1) <= 1,
        rank(flow_after(flags, events).0.phase) < 14 ==> spawns(flow_after(flags, events).1) == 0,
    decreases events.len(),
{
    if events.len() > 0 {
        agent_is_started_at_most_once(flags, events.drop_last());
        let (flow, actions) = flow_after(flags, events.drop_last());
        let (then, action) = flow.next(events.last());
        every_step_advances(flow, events.last());
        spawn_step(flow, events.last());
        let all = actions.push(action);
        assert(all.drop_last() =~= actions);
        assert(all.last() == action);
        assert(spawns(all) == spawns(actions) + if is_spawn(action) {
            1nat
        } else {
            0nat
        });
    } else {
        let first = seq![started(flags).1];
        assert(first.drop_last() =~= Seq::<Action>::empty());
        assert(first.last() == started(flags).1);
        assert(spawns(first.drop_last()) == 0);
        assert(spawns(first) == 0);
    }
}

proof fn spawned_flow_has_spawn(flags: RunFlags, events: Seq<Event>)
    requires
        after_spawn(flow_after(flags, events).0.phase) || flow_after(flags, events).0.phase
            == Phase::Spawn,
    ensures
        flow_after(flags, events).1.contains(Action::Spawn),
    decreases events.len(),
{
    if events.len() > 0 {
        let (flow, actions) = flow_after(flags, events.drop_last());
        let all = flow_after(flags, events).1;
        spawn_step(flow, events.last());
        if after_spawn(flow.phase) || flow.phase == Phase::Spawn {
            spawned_flow_has_spawn(flags, events.drop_last());
            let j = choose|j: int| 0 <= j < actions.len() && actions[j] == Action::Spawn;
            assert(all[j] == Action::Spawn);
        } else {
            assert(all[actions.len() as int] == Action::Spawn);
        }
    }
}

/// A record is stored only after the agent was started.
pub proof fn records_follow_spawn(flags: RunFlags, events: Seq<Event>)
    requires
        flow_after(flags, events).1.last() == Action::InsertRecord,
    ensures
        flow_after(flags, events).1.drop_last().contains(Action::Spawn),
{
    if events.len() > 0 {
        let (flow, actions) = flow_after(flags, events.drop_last());
        spawn_step(flow, events.last());
        spawned_flow_has_spawn(flags, events.drop_last());
        assert(flow_after(flags, events).1.drop_last() =~= actions);
    }
}

/// A failure removes the worktree exactly where this dispatch made it and no
/// agent was started in it; only a prompt that cannot be rendered leaves it. A
/// worktree that was there before is never removed.
#[verifier::rlimit(60)]
#[verifier::spinoff_prover]
pub proof fn rollback_is_exact(f: Flow, event: Event)
    requires
        sound(f),
        f.next(event).1 is Fail,
    ensures
        f.next(event).1->Fail_0.rollback == (f.created && !f.spawned && f.phase != Phase::Prompt),
        f.next(event).1->Fail_0.rollback ==> f.policy == WorktreePolicy::Branch,
{
    reveal(Flow::next);
}

/// Once the input is resolved, a failure lets the resolver clean up, except
/// where an ephemeral dispatch is refused before it starts, where the prompt
/// cannot be rendered, and where a session may still be running.
#[verifier::rlimit(60)]
#[verifier::spinoff_prover]
pub proof fn failures_release_claims(f: Flow, event: Event)
    requires
        sound(f),
        f.next(event).1 is Fail,
        f.phase != Phase::FindResolver,
        f.phase != Phase::Resolve || event is Resolved && event->Resolved_0 is Some,
    ensures
        f.next(event).1->Fail_0.cleanup == Cleanup::Skip ==> f.next(event).1->Fail_0.why
            == Why::EphemeralNeedsTemplate || (f.next(event).1->Fail_0.why == Why::UnsafeSlug
            && f.flags.ephemeral) || f.phase == Phase::Prompt || (f.phase == Phase::Kill && event
            == Event::SessionKilled(false)),
{
    reveal(Flow::next);
}

/// The step whose answer is waited for: the last one that was asked for.
pub open spec fn pending(actions: Seq<Action>) -> Action
    decreases actions.len(),
{
    if actions.len() == 0 {
        Action::Wait
    } else if actions.last() == Action::Wait {
        pending(actions.drop_last())
    } else {
        actions.last()
    }
}

/// The step whose answer is waited for after the given events.
pub open spec fn asked(flags: RunFlags, events: Seq<Event>) -> Action {
    pending(flow_after(flags, events).1)
}

/// The step that one more event brings.
pub open spec fn reply(flags: RunFlags, events: Seq<Event>, event: Event) -> Action {
    flow_after(flags, events.push(event)).1.last()
}

/// The dispatch after the given events.
pub open spec fn state(flags: RunFlags, events: Seq<Event>) -> Flow {
    flow_after(flags, events).0
}

/// The answer that a phase waits for belongs to this step.
spec fn awaited(p: Phase) -> Action {
    match p {
        Phase::FindResolver => Action::FindResolver,
        Phase::Resolve => Action::Resolve,
        Phase::ValidateBranch => Action::ValidateBranch,
        Phase::ProbeSession => Action::ProbeSession,
        Phase::EphemeralDocument => Action::ResolveDocument,
        Phase::EphemeralSpawn => Action::SpawnEphemeral,
        Phase::Context => Action::GatherContext,
        Phase::Document => Action::ResolveDocument,
        Phase::Checkout => Action::CheckoutToMain,
        Phase::Worktree => Action::EnsureWorktree,
        Phase::ProjectEnv => Action::LoadProjectEnv,
        Phase::Token => Action::ResolveToken,
        Phase::LogDir => Action::PrepareLog,
        Phase::Prompt => Action::RenderPrompt,
        Phase::Providers => Action::RunProviders,
        Phase::Assemble => Action::AssemblePrompt,
        Phase::DefaultBranch => Action::ResolveDefaultBranch,
        Phase::Spawn => Action::Spawn,
        Phase::WorkUnit => Action::ResolveWorkUnit,
        Phase::Insert => Action::InsertRecord,
        Phase::Kill => Action::KillSession,
        Phase::Comment => Action::PostComment,
        Phase::Over => Action::Finish,
    }
}

/// A step after which nothing is waited for.
pub open spec fn is_end(a: Action) -> bool {
    a == Action::Preview || a == Action::Finish || a == Action::FinishEphemeral || a is Fail
}

#[verifier::rlimit(60)]
#[verifier::spinoff_prover]
proof fn step_asks(f: Flow, event: Event)
    ensures
        f.next(event).1 != Action::Wait ==> if f.next(event).0.phase == Phase::Over {
            is_end(f.next(event).1)
        } else {
            f.next(event).1 == awaited(f.next(event).0.phase)
        },
{
    reveal(Flow::next);
}

proof fn pending_fits(flags: RunFlags, events: Seq<Event>)
    ensures
        sound(state(flags, events)),
        state(flags, events).flags == flags,
        if state(flags, events).phase == Phase::Over {
            is_end(asked(flags, events))
        } else {
            asked(flags, events) == awaited(state(flags, events).phase)
        },
    decreases events.len(),
{
    flows_are_sound(flags, events);
    if events.len() > 0 {
        let front = events.drop_last();
        pending_fits(flags, front);
        let (flow, actions) = flow_after(flags, front);
        step_asks(flow, events.last());
        every_step_advances(flow, events.last());
        let all = flow_after(flags, events).1;
        assert(all.drop_last() =~= actions);
        assert(all.last() == flow.next(events.last()).1);
    } else {
        assert(flow_after(flags, events).1.last() == started(flags).1);
    }
}

proof fn reply_is_next(flags: RunFlags, events: Seq<Event>, event: Event)
    ensures
        reply(flags, events, event) == state(flags, events).next(event).1,
        state(flags, events.push(event)) == state(flags, events).next(event).0,
{
    assert(events.push(event).drop_last() =~= events);
}

/// A dispatch begins with the search for a resolver, unless it is to leave no traces
/// and yet to run elsewhere. Nothing is known of its input yet, nothing was made, and
/// no agent runs.
pub proof fn dispatches_begin(flags: RunFlags)
    ensures
        state(flags, Seq::empty()).flags == flags,
        !state(flags, Seq::empty()).created,
        !state(flags, Seq::empty()).is_meta,
        !state(flags, Seq::empty()).spawned,
        !state(flags, Seq::empty()).facts.has_pr,
        !state(flags, Seq::empty()).facts.has_template_body,
        !state(flags, Seq::empty()).facts.is_template,
        !state(flags, Seq::empty()).facts.has_providers,
        !state(flags, Seq::empty()).facts.has_token,
        state(flags, Seq::empty()).facts.policy is None,
        state(flags, Seq::empty()).facts.slug == SlugState::Missing,
        flow_after(flags, Seq::empty()).1.len() == 1,
        flags.ephemeral && !flags.inline ==> flow_after(flags, Seq::empty()).1[0] == Action::Fail(
            Failure { why: Why::EphemeralNeedsInline, rollback: false, cleanup: Cleanup::Skip },
        ),
        !flags.ephemeral || flags.inline ==> flow_after(flags, Seq::empty()).1[0]
            == Action::FindResolver,
{
}

/// What is known of a dispatch is what it was told: the facts are those of the answer
/// that resolved the input, the place is the one that they ask for unless the dispatch
/// stays where it is, a worktree is new where making it said so, and an agent runs once
/// it was started. Nothing else changes any of it.
#[verifier::rlimit(60)]
#[verifier::spinoff_prover]
pub proof fn dispatches_know_what_they_were_told(
    flags: RunFlags,
    events: Seq<Event>,
    event: Event,
)
    ensures
        ({
            let f = state(flags, events);
            let g = state(flags, events.push(event));
            let at = asked(flags, events);
            &&& g.flags == flags
            &&& at == Action::Resolve && event is Resolved && event->Resolved_0 is Some ==> g.facts
                == event->Resolved_0->0 && (flags.no_worktree ==> g.policy
                == WorktreePolicy::Current) && (!flags.no_worktree && g.facts.policy is Some
                ==> g.policy == g.facts.policy->0) && (!flags.no_worktree && g.facts.policy is None
                ==> g.policy == WorktreePolicy::Branch)
            &&& !(at == Action::Resolve && event is Resolved && event->Resolved_0 is Some)
                ==> g.facts == f.facts && g.policy == f.policy
            &&& at == Action::EnsureWorktree && event is WorktreeReady ==> g.created
                == event->WorktreeReady_created && g.is_meta == event->WorktreeReady_is_meta
            &&& !(at == Action::EnsureWorktree && event is WorktreeReady) ==> g.created == f.created
                && g.is_meta == f.is_meta
            &&& is_spawn(at) && event == Event::Spawned(true) ==> g.spawned
            &&& !(is_spawn(at) && event == Event::Spawned(true)) ==> g.spawned == f.spawned
        }),
{
    pending_fits(flags, events);
    reply_is_next(flags, events, event);
    reveal(Flow::next);
}

/// An input is resolved by the resolver that takes it. A directive that works on a pull
/// request is refused where there is none, and what was claimed is given back.
#[verifier::rlimit(60)]
#[verifier::spinoff_prover]
pub proof fn inputs_are_resolved(flags: RunFlags, events: Seq<Event>, event: Event)
    ensures
        ({
            let at = asked(flags, events);
            let then = reply(flags, events, event);
            &&& at == Action::FindResolver && event == Event::ResolverFound(true) ==> then
                == Action::Resolve
            &&& at == Action::FindResolver && event == Event::ResolverFound(false) ==> then
                == Action::Fail(
                Failure { why: Why::NoResolver, rollback: false, cleanup: Cleanup::Skip },
            )
            &&& at == Action::Resolve && event == Event::Resolved(None) ==> then == Action::Fail(
                Failure { why: Why::StepFailed, rollback: false, cleanup: Cleanup::Skip },
            )
            &&& at == Action::Resolve && event is Resolved && event->Resolved_0 is Some ==> {
                let x = event->Resolved_0->0;
                if (x.directive == Directive::ReviewFix || x.directive == Directive::PrComments)
                    && !x.has_pr {
                    then == Action::Fail(
                        Failure {
                            why: Why::PrRequired,
                            rollback: false,
                            cleanup: Cleanup::Temporary,
                        },
                    )
                } else {
                    then == Action::ValidateBranch
                }
            }
        }),
{
    pending_fits(flags, events);
    reply_is_next(flags, events, event);
    reveal(Flow::next);
}

/// A branch has to be valid, and its session must not be alive unless the dispatch is
/// forced. Only then a dry run is shown, a dispatch without traces starts its agent, and
/// any other goes on to find its place.
#[verifier::rlimit(60)]
#[verifier::spinoff_prover]
pub proof fn checks_come_before_anything_else(flags: RunFlags, events: Seq<Event>, event: Event)
    ensures
        ({
            let at = asked(flags, events);
            let then = reply(flags, events, event);
            let f = state(flags, events);
            &&& at == Action::ValidateBranch && event == Event::BranchValid(false) ==> then
                == Action::Fail(
                Failure { why: Why::StepFailed, rollback: false, cleanup: Cleanup::Temporary },
            )
            &&& at == Action::ValidateBranch && event == Event::BranchValid(true) && !flags.force
                ==> then == Action::ProbeSession
            &&& at == Action::ProbeSession && event == Event::SessionAlive(true) ==> then
                == Action::Fail(
                Failure { why: Why::SessionExists, rollback: false, cleanup: Cleanup::Temporary },
            )
            &&& (at == Action::ValidateBranch && event == Event::BranchValid(true) && flags.force)
                || (at == Action::ProbeSession && event == Event::SessionAlive(false)) ==> {
                &&& flags.dry_run ==> then == Action::Preview
                &&& !flags.dry_run && !flags.ephemeral ==> then == Action::GatherContext
                &&& !flags.dry_run && flags.ephemeral && !f.facts.has_template_body ==> then
                    == Action::Fail(
                    Failure {
                        why: Why::EphemeralNeedsTemplate,
                        rollback: false,
                        cleanup: Cleanup::Skip,
                    },
                )
                &&& !flags.dry_run && flags.ephemeral && f.facts.has_template_body ==> if f.policy
                    != WorktreePolicy::Document || f.facts.slug == SlugState::Missing {
                    then == Action::SpawnEphemeral
                } else if f.facts.slug == SlugState::Safe {
                    then == Action::ResolveDocument
                } else {
                    then == Action::Fail(
                        Failure { why: Why::UnsafeSlug, rollback: false, cleanup: Cleanup::Skip },
                    )
                }
            }
        }),
{
    pending_fits(flags, events);
    reply_is_next(flags, events, event);
    reveal(Flow::next);
}

/// A dispatch without traces starts its agent whether its document is found or not, and
/// lets its resolver clean up whether the agent starts or not.
#[verifier::rlimit(60)]
#[verifier::spinoff_prover]
pub proof fn ephemeral_agents_are_started(flags: RunFlags, events: Seq<Event>, event: Event)
    ensures
        ({
            let at = asked(flags, events);
            let then = reply(flags, events, event);
            &&& flags.ephemeral && at == Action::ResolveDocument && (event is DocumentFound || event
                == Event::DocumentFailed) ==> then == Action::SpawnEphemeral
            &&& at == Action::SpawnEphemeral && event == Event::Spawned(true) ==> then
                == Action::FinishEphemeral
            &&& at == Action::SpawnEphemeral && event == Event::Spawned(false) ==> then
                == Action::Fail(
                Failure { why: Why::StepFailed, rollback: false, cleanup: Cleanup::Temporary },
            )
        }),
{
    pending_fits(flags, events);
    reply_is_next(flags, events, event);
    reveal(Flow::next);
}

/// The dispatch has just found where it runs: where it stands, at the root, at its
/// document, or in the worktree of its branch.
pub open spec fn finds_its_place(f: Flow, at: Action, event: Event) -> bool {
    ||| at == Action::GatherContext && event == Event::ContextReady && (f.policy
        == WorktreePolicy::Current || f.policy == WorktreePolicy::Root)
    ||| at == Action::ResolveDocument && !f.flags.ephemeral && event == Event::DocumentFound(true)
    ||| at == Action::CheckoutToMain && event == Event::CheckoutTried
    ||| at == Action::EnsureWorktree && event is WorktreeReady
}

/// Each policy finds its own place. A document that is in no workspace is checked out to
/// the main one, a branch gets its worktree, and a place that cannot be had ends the
/// dispatch.
#[verifier::rlimit(60)]
#[verifier::spinoff_prover]
pub proof fn places_follow_the_policy(flags: RunFlags, events: Seq<Event>, event: Event)
    ensures
        ({
            let at = asked(flags, events);
            let then = reply(flags, events, event);
            let f = state(flags, events);
            &&& at == Action::GatherContext && event == Event::ContextReady && f.policy
                == WorktreePolicy::Branch ==> then == Action::EnsureWorktree
            &&& at == Action::GatherContext && event == Event::ContextReady && f.policy
                == WorktreePolicy::Document ==> if f.facts.slug == SlugState::Safe {
                then == Action::ResolveDocument
            } else {
                then == Action::Fail(
                    Failure {
                        why: if f.facts.slug == SlugState::Missing {
                            Why::DocumentNeedsSlug
                        } else {
                            Why::UnsafeSlug
                        },
                        rollback: false,
                        cleanup: Cleanup::Temporary,
                    },
                )
            }
            &&& at == Action::ResolveDocument && !flags.ephemeral && event == Event::DocumentFound(
                false,
            ) ==> then == Action::CheckoutToMain
            &&& (at == Action::ResolveDocument && !flags.ephemeral && event
                == Event::DocumentFailed) || (at == Action::EnsureWorktree && event
                == Event::WorktreeFailed) ==> then == Action::Fail(
                Failure { why: Why::StepFailed, rollback: false, cleanup: Cleanup::Temporary },
            )
        }),
{
    pending_fits(flags, events);
    reply_is_next(flags, events, event);
    reveal(Flow::next);
}

/// At its place a dispatch reads the environment of the project where that is wanted,
/// looks for a token exactly where neither the resolver nor the project gave one, and
/// then prepares its log.
#[verifier::rlimit(60)]
#[verifier::spinoff_prover]
pub proof fn environments_are_completed(flags: RunFlags, events: Seq<Event>, event: Event)
    ensures
        ({
            let at = asked(flags, events);
            let then = reply(flags, events, event);
            let f = state(flags, events);
            &&& finds_its_place(f, at, event) && flags.project_env ==> then
                == Action::LoadProjectEnv
            &&& finds_its_place(f, at, event) && !flags.project_env && !f.facts.has_token ==> then
                == Action::ResolveToken
            &&& finds_its_place(f, at, event) && !flags.project_env && f.facts.has_token ==> then
                == Action::PrepareLog
            &&& at == Action::LoadProjectEnv && event is ProjectEnvLoaded ==> if f.facts.has_token
                || event->ProjectEnvLoaded_has_token {
                then == Action::PrepareLog
            } else {
                then == Action::ResolveToken
            }
            &&& at == Action::LoadProjectEnv && event == Event::ProjectEnvFailed ==> then
                == Action::Fail(
                Failure { why: Why::StepFailed, rollback: f.created, cleanup: Cleanup::Temporary },
            )
            &&& at == Action::ResolveToken && event == Event::TokenTried ==> then
                == Action::PrepareLog
        }),
{
    pending_fits(flags, events);
    reply_is_next(flags, events, event);
    reveal(Flow::next);
}

/// The prompt of a template is rendered before anything is put into it, then providers
/// add what they know if there are any, then it is put together, and the default branch
/// is looked up where the prompt still names it.
#[verifier::rlimit(60)]
#[verifier::spinoff_prover]
pub proof fn prompts_are_put_together(flags: RunFlags, events: Seq<Event>, event: Event)
    ensures
        ({
            let at = asked(flags, events);
            let then = reply(flags, events, event);
            let f = state(flags, events);
            let rendered = (at == Action::PrepareLog && event == Event::LogReady(true)
                && !f.facts.is_template) || (at == Action::RenderPrompt && event
                == Event::PromptRendered(true));
            &&& at == Action::PrepareLog && event == Event::LogReady(false) ==> then
                == Action::Fail(
                Failure { why: Why::StepFailed, rollback: f.created, cleanup: Cleanup::Temporary },
            )
            &&& at == Action::PrepareLog && event == Event::LogReady(true) && f.facts.is_template
                ==> then == Action::RenderPrompt
            &&& at == Action::RenderPrompt && event == Event::PromptRendered(false) ==> then
                == Action::Fail(
                Failure { why: Why::StepFailed, rollback: false, cleanup: Cleanup::Skip },
            )
            &&& rendered && f.facts.has_providers ==> then == Action::RunProviders
            &&& rendered && !f.facts.has_providers ==> then == Action::AssemblePrompt
            &&& at == Action::RunProviders && event == Event::ProvidersRan ==> then
                == Action::AssemblePrompt
            &&& at == Action::AssemblePrompt && event is Assembled ==> if
                event->Assembled_needs_default_branch {
                then == Action::ResolveDefaultBranch
            } else {
                then == Action::Spawn
            }
            &&& at == Action::ResolveDefaultBranch && event == Event::DefaultBranchResolved ==> then
                == Action::Spawn
        }),
{
    pending_fits(flags, events);
    reply_is_next(flags, events, event);
    reveal(Flow::next);
}

/// An agent that runs is recorded. One that cannot be recorded is ended, and only then
/// what it claimed is given back; a record of work on a pull request is followed by a
/// comment there. An agent that cannot be started takes the new worktree with it.
#[verifier::rlimit(60)]
#[verifier::spinoff_prover]
pub proof fn agents_are_recorded(flags: RunFlags, events: Seq<Event>, event: Event)
    ensures
        ({
            let at = asked(flags, events);
            let then = reply(flags, events, event);
            let f = state(flags, events);
            &&& at == Action::Spawn && event == Event::Spawned(true) ==> then
                == Action::ResolveWorkUnit
            &&& at == Action::Spawn && event == Event::Spawned(false) ==> then == Action::Fail(
                Failure { why: Why::StepFailed, rollback: f.created, cleanup: Cleanup::Temporary },
            )
            &&& at == Action::ResolveWorkUnit && event == Event::WorkUnitTried ==> then
                == Action::InsertRecord
            &&& at == Action::InsertRecord && event == Event::Inserted(false) ==> then
                == Action::KillSession
            &&& at == Action::InsertRecord && event == Event::Inserted(true) ==> if f.facts.has_pr
                && (f.facts.directive == Directive::ReviewFix || f.facts.directive
                == Directive::PrComments) {
                then == Action::PostComment
            } else {
                then == Action::Finish
            }
            &&& at == Action::KillSession && event == Event::SessionKilled(true) ==> then
                == Action::Fail(
                Failure { why: Why::StepFailed, rollback: false, cleanup: Cleanup::Recorded },
            )
            &&& at == Action::KillSession && event == Event::SessionKilled(false) ==> then
                == Action::Fail(
                Failure { why: Why::StepFailed, rollback: false, cleanup: Cleanup::Skip },
            )
            &&& at == Action::PostComment && event == Event::CommentTried ==> then == Action::Finish
        }),
{
    pending_fits(flags, events);
    reply_is_next(flags, events, event);
    reveal(Flow::next);
}

/// Only the answer to the step that was asked for moves a dispatch, and none moves one
/// that has ended.
#[verifier::rlimit(60)]
#[verifier::spinoff_prover]
pub proof fn other_events_move_nothing(flags: RunFlags, events: Seq<Event>, event: Event)
    ensures
        ({
            let at = asked(flags, events);
            let fits = match event {
                Event::ResolverFound(_) => at == Action::FindResolver,
                Event::Resolved(_) => at == Action::Resolve,
                Event::BranchValid(_) => at == Action::ValidateBranch,
                Event::SessionAlive(_) => at == Action::ProbeSession,
                Event::DocumentFound(_) => at == Action::ResolveDocument,
                Event::DocumentFailed => at == Action::ResolveDocument,
                Event::ContextReady => at == Action::GatherContext,
                Event::CheckoutTried => at == Action::CheckoutToMain,
                Event::WorktreeReady { .. } => at == Action::EnsureWorktree,
                Event::WorktreeFailed => at == Action::EnsureWorktree,
                Event::ProjectEnvLoaded { .. } => at == Action::LoadProjectEnv,
                Event::ProjectEnvFailed => at == Action::LoadProjectEnv,
                Event::TokenTried => at == Action::ResolveToken,
                Event::LogReady(_) => at == Action::PrepareLog,
                Event::PromptRendered(_) => at == Action::RenderPrompt,
                Event::ProvidersRan => at == Action::RunProviders,
                Event::Assembled { .. } => at == Action::AssemblePrompt,
                Event::DefaultBranchResolved => at == Action::ResolveDefaultBranch,
                Event::Spawned(_) => at == Action::Spawn || at == Action::SpawnEphemeral,
                Event::WorkUnitTried => at == Action::ResolveWorkUnit,
                Event::Inserted(_) => at == Action::InsertRecord,
                Event::SessionKilled(_) => at == Action::KillSession,
                Event::CommentTried => at == Action::PostComment,
            };
            &&& reply(flags, events, event) == Action::Wait <==> !fits
            &&& !fits ==> state(flags, events.push(event)) == state(flags, events)
            &&& is_end(at) ==> !fits
        }),
{
    pending_fits(flags, events);
    reply_is_next(flags, events, event);
    reveal(Flow::next);
}

/// A prompt was asked for and came.
pub open spec fn prompt_came(flags: RunFlags, events: Seq<Event>) -> bool {
    exists|k: int|
        0 <= k < events.len() && #[trigger] events[k] == Event::PromptRendered(true) && asked(
            flags,
            events.take(k),
        ) == Action::RenderPrompt
}

spec fn past_prompt(p: Phase) -> bool {
    p == Phase::Providers || p == Phase::Assemble || p == Phase::DefaultBranch || p
        == Phase::Spawn || after_spawn(p)
}

#[verifier::rlimit(60)]
#[verifier::spinoff_prover]
proof fn prompt_step(f: Flow, event: Event)
    requires
        sound(f),
    ensures
        f.next(event).1 == Action::RenderPrompt ==> f.facts.is_template && f.phase == Phase::LogDir,
        past_prompt(f.next(event).0.phase) && !past_prompt(f.phase) && f.facts.is_template
            ==> f.phase == Phase::Prompt && event == Event::PromptRendered(true),
        f.phase != Phase::Resolve ==> f.next(event).0.facts == f.facts,
        f.phase == Phase::Resolve ==> !past_prompt(f.next(event).0.phase),
        rank(f.phase) <= rank(f.next(event).0.phase),
        f.next(event).1 == Action::Spawn ==> f.next(event).0.phase == Phase::Spawn,
{
    reveal(Flow::next);
}

proof fn prompt_history(flags: RunFlags, events: Seq<Event>)
    ensures
        past_prompt(state(flags, events).phase) && state(flags, events).facts.is_template
            ==> prompt_came(flags, events),
        rank(state(flags, events).phase) >= 2 && state(flags, events).phase != Phase::Over
            && !state(flags, events).facts.is_template ==> !flow_after(flags, events).1.contains(
            Action::RenderPrompt,
        ),
        rank(state(flags, events).phase) < 2 ==> !flow_after(flags, events).1.contains(
            Action::RenderPrompt,
        ),
    decreases events.len(),
{
    pending_fits(flags, events);
    if events.len() > 0 {
        let front = events.drop_last();
        prompt_history(flags, front);
        pending_fits(flags, front);
        let (f, actions) = flow_after(flags, front);
        let e = events.last();
        prompt_step(f, e);
        every_step_advances(f, e);
        let g = f.next(e).0;
        let all = flow_after(flags, events).1;
        assert(all =~= actions.push(f.next(e).1));
        if all.contains(Action::RenderPrompt) {
            let i = choose|i: int| 0 <= i < all.len() && all[i] == Action::RenderPrompt;
            if i < actions.len() {
                assert(actions[i] == Action::RenderPrompt);
            }
        }
        if past_prompt(g.phase) && g.facts.is_template {
            if past_prompt(f.phase) {
                let k = choose|k: int|
                    0 <= k < front.len() && #[trigger] front[k] == Event::PromptRendered(true)
                        && asked(flags, front.take(k)) == Action::RenderPrompt;
                assert(events[k] == front[k]);
                assert(events.take(k) =~= front.take(k));
            } else {
                let k = front.len() as int;
                assert(events[k] == Event::PromptRendered(true));
                assert(events.take(k) =~= front);
            }
        }
    } else {
        let all = flow_after(flags, events).1;
        assert(all =~= seq![started(flags).1]);
        if all.contains(Action::RenderPrompt) {
            let i = choose|i: int| 0 <= i < all.len() && all[i] == Action::RenderPrompt;
            assert(all[i] == started(flags).1);
        }
    }
}

/// The agent of a template is started only with a prompt that was rendered for it; where
/// there is no template, no prompt is ever rendered before the agent starts.
pub proof fn template_prompts_are_rendered(flags: RunFlags, events: Seq<Event>)
    requires
        flow_after(flags, events).1.last() == Action::Spawn,
    ensures
        state(flags, events).facts.is_template ==> prompt_came(flags, events),
        !state(flags, events).facts.is_template ==> !flow_after(flags, events).1.contains(
            Action::RenderPrompt,
        ),
{
    pending_fits(flags, events);
    assert(asked(flags, events) == Action::Spawn);
    prompt_history(flags, events);
}

} // verus!
