//! The environment an agent runs in.
//!
//! What a project, a resolver or a provider sets is merged; the entries that
//! confine the agent are set last, so that none of them can change those.

use vstd::prelude::*;
use crate::dispatch::{self, compute_allowed_paths};
use crate::paths::{self, is_same_way};
use crate::pipeline::inputs::{self, kb_workspace};
use crate::strmap::{self, StrMap};
use crate::text;
use crate::types::WorktreePolicy;

verus! {

/// The project's environment, overridden by the resolver's.
pub fn merge_env(project: &StrMap, overrides: &StrMap) -> (r: StrMap)
    ensures
        r@ == project@.union_prefer_right(overrides@),
{
    let mut env = project.copy();
    env.extend(overrides);
    env
}

/// Whether the diagnostic file notes a token.
pub fn token_present(env: &StrMap) -> (r: bool)
    ensures
        r == (strmap::nonempty(strmap::value(env@, "GH_TOKEN"@)) is Some),
{
    strmap::keep_nonempty(env.get("GH_TOKEN")).is_some()
}

/// The paths besides the worktree: the KB root, unless it is the worktree.
pub open spec fn extra_paths(worktree: Seq<char>, kb_root: Seq<char>) -> Seq<Seq<char>> {
    if paths::same_way(kb_root, worktree) {
        Seq::empty()
    } else {
        seq![kb_root]
    }
}

/// The environment with the entries that confine the agent.
pub open spec fn sealed(
    env: Map<Seq<char>, Seq<char>>,
    policy: WorktreePolicy,
    overrides: Map<Seq<char>, Seq<char>>,
    branch: Seq<char>,
    worktree: Seq<char>,
    kb_root: Seq<char>,
) -> Map<Seq<char>, Seq<char>> {
    let allowed = text::joined(
        dispatch::allowed_paths(worktree, extra_paths(worktree, kb_root)),
        ":"@,
    );
    let rooted = env.insert("AGENT_ALLOWED_PATHS"@, allowed).insert("GITKB_ROOT"@, kb_root);
    let placed = match inputs::policy_workspace(policy, overrides, branch) {
        Some(w) => rooted.insert("GITKB_WORKSPACE"@, w),
        None => rooted,
    };
    placed.insert("CLAUDECODE"@, Seq::empty())
}

/// Sets the entries that confine the agent, after everything else is merged:
/// the paths it may touch and the KB it works on come from the dispatch alone,
/// and the marker of an enclosing agent session is cleared.
pub fn seal_env(
    env: &StrMap,
    policy: WorktreePolicy,
    overrides: &StrMap,
    branch: &str,
    worktree: &str,
    kb_root: &str,
) -> (r: StrMap)
    ensures
        r@ == sealed(env@, policy, overrides@, branch@, worktree@, kb_root@),
{
    let mut out = env.copy();
    let mut extra: Vec<String> = Vec::new();
    if !is_same_way(kb_root, worktree) {
        extra.push(kb_root.to_owned());
    }
    proof {
        assert(text::views(extra@) =~= extra_paths(worktree@, kb_root@));
    }
    let allowed = compute_allowed_paths(worktree, &extra);
    out.insert("AGENT_ALLOWED_PATHS", allowed.as_str());
    out.insert("GITKB_ROOT", kb_root);
    if let Some(w) = kb_workspace(policy, overrides, branch) {
        out.insert("GITKB_WORKSPACE", w.as_str());
    }
    out.insert("CLAUDECODE", "");
    proof {
        reveal_strlit("");
        assert(""@ =~= Seq::<char>::empty());
    }
    out
}

/// The environment of an ephemeral dispatch: the resolver's, confined to the
/// working directory.
pub open spec fn sealed_ephemeral(
    overrides: Map<Seq<char>, Seq<char>>,
    cwd: Seq<char>,
) -> Map<Seq<char>, Seq<char>> {
    overrides.insert("CLAUDECODE"@, Seq::empty()).insert(
        "AGENT_ALLOWED_PATHS"@,
        text::joined(dispatch::allowed_paths(cwd, Seq::empty()), ":"@),
    )
}

pub fn seal_ephemeral_env(overrides: &StrMap, cwd: &str) -> (r: StrMap)
    ensures
        r@ == sealed_ephemeral(overrides@, cwd@),
{
    let mut out = overrides.copy();
    out.insert("CLAUDECODE", "");
    let none: Vec<String> = Vec::new();
    proof {
        reveal_strlit("");
        assert(""@ =~= Seq::<char>::empty());
        assert(text::views(none@) =~= Seq::<Seq<char>>::empty());
    }
    let allowed = compute_allowed_paths(cwd, &none);
    out.insert("AGENT_ALLOWED_PATHS", allowed.as_str());
    out
}

proof fn names_differ()
    ensures
        "AGENT_ALLOWED_PATHS"@ != "GITKB_ROOT"@,
        "AGENT_ALLOWED_PATHS"@ != "GITKB_WORKSPACE"@,
        "AGENT_ALLOWED_PATHS"@ != "CLAUDECODE"@,
        "GITKB_ROOT"@ != "GITKB_WORKSPACE"@,
        "GITKB_ROOT"@ != "CLAUDECODE"@,
        "GITKB_WORKSPACE"@ != "CLAUDECODE"@,
{
    reveal_strlit("AGENT_ALLOWED_PATHS");
    reveal_strlit("GITKB_ROOT");
    reveal_strlit("GITKB_WORKSPACE");
    reveal_strlit("CLAUDECODE");
    assert("AGENT_ALLOWED_PATHS"@.len() == 19);
    assert("GITKB_ROOT"@.len() == 10 && "GITKB_ROOT"@[0] == 'G');
    assert("GITKB_WORKSPACE"@.len() == 15);
    assert("CLAUDECODE"@.len() == 10 && "CLAUDECODE"@[0] == 'C');
}

/// Whatever the merged environment holds, the agent may touch its worktree, the
/// KB root and the temporary directories only, works on the KB of the dispatch,
/// and does not see an enclosing session.
pub proof fn nothing_overrides_the_seal(
    env: Map<Seq<char>, Seq<char>>,
    policy: WorktreePolicy,
    overrides: Map<Seq<char>, Seq<char>>,
    branch: Seq<char>,
    worktree: Seq<char>,
    kb_root: Seq<char>,
)
    ensures
        ({
            let out = sealed(env, policy, overrides, branch, worktree, kb_root);
            &&& strmap::value(out, "CLAUDECODE"@) == Some(Seq::<char>::empty())
            &&& strmap::value(out, "GITKB_ROOT"@) == Some(kb_root)
            &&& strmap::value(out, "AGENT_ALLOWED_PATHS"@) == Some(
                text::joined(
                    dispatch::allowed_paths(worktree, extra_paths(worktree, kb_root)),
                    ":"@,
                ),
            )
            &&& inputs::policy_workspace(policy, overrides, branch) matches Some(w)
                ==> strmap::value(out, "GITKB_WORKSPACE"@) == Some(w)
        }),
{
    names_differ();
}

/// Every other entry is kept as it was merged.
pub proof fn seal_keeps_the_rest(
    env: Map<Seq<char>, Seq<char>>,
    policy: WorktreePolicy,
    overrides: Map<Seq<char>, Seq<char>>,
    branch: Seq<char>,
    worktree: Seq<char>,
    kb_root: Seq<char>,
    k: Seq<char>,
)
    requires
        k != "AGENT_ALLOWED_PATHS"@,
        k != "GITKB_ROOT"@,
        k != "GITKB_WORKSPACE"@,
        k != "CLAUDECODE"@,
    ensures
        strmap::value(sealed(env, policy, overrides, branch, worktree, kb_root), k)
            == strmap::value(env, k),
{
}

/// An ephemeral agent, too, is confined whatever its resolver set.
pub proof fn nothing_overrides_the_ephemeral_seal(
    overrides: Map<Seq<char>, Seq<char>>,
    cwd: Seq<char>,
)
    ensures
        strmap::value(sealed_ephemeral(overrides, cwd), "CLAUDECODE"@) == Some(
            Seq::<char>::empty(),
        ),
        strmap::value(sealed_ephemeral(overrides, cwd), "AGENT_ALLOWED_PATHS"@) == Some(
            text::joined(dispatch::allowed_paths(cwd, Seq::empty()), ":"@),
        ),
{
    names_differ();
}

/// The value is a list of paths that holds these and no others.
pub open spec fn allows(
    env: Map<Seq<char>, Seq<char>>,
    listed: Seq<Seq<char>>,
    root: Seq<char>,
    more: Option<Seq<char>>,
) -> bool {
    &&& strmap::value(env, "AGENT_ALLOWED_PATHS"@) == Some(text::joined(listed, ":"@))
    &&& forall|p: Seq<char>| #[trigger]
        listed.contains(p) <==> p == root || p == "/tmp"@ || p == "/private/tmp"@ || Some(p) == more
}

/// Whatever is set for it, an agent may touch its worktree, the temporary directories and
/// the root of its knowledge base, and nothing else. It works on the knowledge base of the
/// dispatch: on its main workspace where the dispatch runs at the root, on that of the
/// branch where it stays where it is, and else on the one that its resolver names. It does
/// not see the session of another agent.
pub proof fn agents_are_confined(
    env: Map<Seq<char>, Seq<char>>,
    policy: WorktreePolicy,
    overrides: Map<Seq<char>, Seq<char>>,
    branch: Seq<char>,
    worktree: Seq<char>,
    kb_root: Seq<char>,
)
    ensures
        ({
            let out = sealed(env, policy, overrides, branch, worktree, kb_root);
            let space = strmap::value(out, "GITKB_WORKSPACE"@);
            &&& strmap::value(out, "CLAUDECODE"@) == Some(Seq::<char>::empty())
            &&& strmap::value(out, "GITKB_ROOT"@) == Some(kb_root)
            &&& paths::same_way(kb_root, worktree) ==> exists|listed: Seq<Seq<char>>| #[trigger]
                allows(out, listed, worktree, None)
            &&& !paths::same_way(kb_root, worktree) ==> exists|listed: Seq<Seq<char>>| #[trigger]
                allows(out, listed, worktree, Some(kb_root))
            &&& policy == WorktreePolicy::Root ==> space == Some("main"@)
            &&& policy == WorktreePolicy::Current ==> space == Some(dispatch::sanitized(branch))
            &&& policy == WorktreePolicy::Branch || policy == WorktreePolicy::Document ==> space
                == if overrides.dom().contains("GITKB_WORKSPACE"@) {
                Some(overrides["GITKB_WORKSPACE"@])
            } else {
                strmap::value(env, "GITKB_WORKSPACE"@)
            }
        }),
{
    names_differ();
    let out = sealed(env, policy, overrides, branch, worktree, kb_root);
    let extra = extra_paths(worktree, kb_root);
    let listed = dispatch::allowed_paths(worktree, extra);
    let more = if paths::same_way(kb_root, worktree) {
        None
    } else {
        Some(kb_root)
    };
    assert forall|p: Seq<char>| #[trigger]
        listed.contains(p) <==> p == worktree || p == "/tmp"@ || p == "/private/tmp"@ || Some(p)
            == more by {
        dispatch::allowed_paths_are_exact(worktree, extra, p);
        if more is Some {
            assert(extra[0] == kb_root);
        }
    }
    assert(allows(out, listed, worktree, more));
}

/// An agent that leaves no traces may touch its directory and the temporary ones only.
pub proof fn ephemeral_agents_are_confined(overrides: Map<Seq<char>, Seq<char>>, cwd: Seq<char>)
    ensures
        exists|listed: Seq<Seq<char>>| #[trigger]
            allows(sealed_ephemeral(overrides, cwd), listed, cwd, None),
        strmap::value(sealed_ephemeral(overrides, cwd), "CLAUDECODE"@) == Some(
            Seq::<char>::empty(),
        ),
{
    names_differ();
    let none = Seq::<Seq<char>>::empty();
    let listed = dispatch::allowed_paths(cwd, none);
    assert forall|p: Seq<char>| #[trigger]
        listed.contains(p) <==> p == cwd || p == "/tmp"@ || p == "/private/tmp"@ || Some(p)
            == None::<Seq<char>> by {
        dispatch::allowed_paths_are_exact(cwd, none, p);
    }
    assert(allows(sealed_ephemeral(overrides, cwd), listed, cwd, None));
}

} // verus!
