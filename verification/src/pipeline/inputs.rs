//! What a dispatch is made of: parameters, pull request, limits, slug, places.

use vstd::prelude::*;
use crate::dispatch::{self, derive_pr_url_from_comment, parse_comment_url, sanitize_slashes};
use crate::strmap::{self, copy_opt, keep_nonempty, StrMap};
use crate::text;
use crate::types::{Status, WorktreePolicy};

verus! {

/// The parameters a resolver sees: where a comment is given and no pull
/// request, the pull request of the comment is added.
pub open spec fn enriched(params: Map<Seq<char>, Seq<char>>) -> Map<Seq<char>, Seq<char>> {
    let comment = strmap::nonempty(strmap::value(params, "comment"@));
    if comment is Some && strmap::nonempty(strmap::value(params, "pr"@)) is None {
        match dispatch::pr_url_of_comment(comment->0) {
            Some(pr) => params.insert("pr"@, pr),
            None => params,
        }
    } else {
        params
    }
}

/// The parameters with the pull request of a comment added, and the number and
/// kind of that comment.
pub fn enrich_params(params: &StrMap) -> (r: (StrMap, Option<String>, Option<String>))
    ensures
        r.0@ == enriched(params@),
        ({
            let comment = strmap::nonempty(strmap::value(params@, "comment"@));
            match (if comment is Some {
                dispatch::comment_of(comment->0)
            } else {
                None
            }) {
                Some((id, kind)) => strmap::opt_view(r.1) == Some(id) && strmap::opt_view(r.2)
                    == Some(kind),
                None => r.1 is None && r.2 is None,
            }
        }),
{
    let mut out = params.copy();
    match keep_nonempty(params.get("comment")) {
        Some(comment) => {
            if keep_nonempty(params.get("pr")).is_none() {
                if let Some(pr) = derive_pr_url_from_comment(comment.as_str()) {
                    out.insert("pr", pr.as_str());
                }
            }
            let (id, kind) = parse_comment_url(comment.as_str());
            (out, id, kind)
        },
        None => (out, None, None),
    }
}

/// A pull request that was given is never replaced.
pub proof fn given_pr_is_kept(params: Map<Seq<char>, Seq<char>>)
    requires
        strmap::nonempty(strmap::value(params, "pr"@)) is Some,
    ensures
        enriched(params) == params,
{
}

/// Nothing but the pull request is ever added.
pub proof fn enrichment_adds_only_pr(params: Map<Seq<char>, Seq<char>>, k: Seq<char>)
    requires
        k != "pr"@,
    ensures
        strmap::value(enriched(params), k) == strmap::value(params, k),
{
}

/// The pull request of a dispatch: the option, else the parameter; a blank one
/// is none.
pub open spec fn effective_pr(
    option: Option<Seq<char>>,
    params: Map<Seq<char>, Seq<char>>,
) -> Option<Seq<char>> {
    match strmap::nonempty(option) {
        Some(url) => Some(url),
        None => strmap::nonempty(strmap::value(params, "pr"@)),
    }
}

pub fn effective_pr_url(option: &Option<String>, params: &StrMap) -> (r: Option<String>)
    ensures
        strmap::opt_view(r) == effective_pr(strmap::opt_view(*option), params@),
{
    match keep_nonempty(copy_opt(option)) {
        Some(url) => Some(url),
        None => keep_nonempty(params.get("pr")),
    }
}

/// A blank option counts as none.
pub proof fn blank_option_is_none(params: Map<Seq<char>, Seq<char>>)
    ensures
        effective_pr(Some(Seq::empty()), params) == effective_pr(None, params),
{
}

/// The limit that holds: the option, else what the input asks for, else what is
/// configured for the directive, else the general one.
pub fn pick_limit<T>(
    option: Option<T>,
    resolved: Option<T>,
    directive: Option<T>,
    general: T,
) -> (r: T)
    ensures
        r == match option {
            Some(v) => v,
            None => match resolved {
                Some(v) => v,
                None => match directive {
                    Some(v) => v,
                    None => general,
                },
            },
        },
{
    match option {
        Some(v) => v,
        None => match resolved {
            Some(v) => v,
            None => match directive {
                Some(v) => v,
                None => general,
            },
        },
    }
}

/// The document of a dispatch: its task, else the parameter `task`, else `slug`;
/// blank ones do not count.
pub open spec fn document_slug(
    task: Option<Seq<char>>,
    params: Map<Seq<char>, Seq<char>>,
) -> Option<Seq<char>> {
    match strmap::nonempty(task) {
        Some(s) => Some(s),
        None => match strmap::nonempty(strmap::value(params, "task"@)) {
            Some(s) => Some(s),
            None => strmap::nonempty(strmap::value(params, "slug"@)),
        },
    }
}

pub fn choose_document_slug(task: &Option<String>, params: &StrMap) -> (r: Option<String>)
    ensures
        strmap::opt_view(r) == document_slug(strmap::opt_view(*task), params@),
{
    match keep_nonempty(copy_opt(task)) {
        Some(s) => Some(s),
        None => match keep_nonempty(params.get("task")) {
            Some(s) => Some(s),
            None => keep_nonempty(params.get("slug")),
        },
    }
}

/// The state of a document slug, as the flow needs it.
pub fn slug_state(slug: &Option<String>) -> (r: crate::pipeline::flow::SlugState)
    ensures
        r == match strmap::opt_view(*slug) {
            None => crate::pipeline::flow::SlugState::Missing,
            Some(s) => if crate::paths::unsafe_slug(s) {
                crate::pipeline::flow::SlugState::Unsafe
            } else {
                crate::pipeline::flow::SlugState::Safe
            },
        },
{
    match slug {
        None => crate::pipeline::flow::SlugState::Missing,
        Some(s) => if crate::paths::is_unsafe_slug(s.as_str()) {
            crate::pipeline::flow::SlugState::Unsafe
        } else {
            crate::pipeline::flow::SlugState::Safe
        },
    }
}

/// The first of two paths that is given, else the last.
pub fn first_path(a: &Option<String>, b: &Option<String>, or: &str) -> (r: String)
    ensures
        r@ == match strmap::opt_view(*a) {
            Some(p) => p,
            None => match strmap::opt_view(*b) {
                Some(p) => p,
                None => or@,
            },
        },
{
    match a {
        Some(p) => p.clone(),
        None => match b {
            Some(p) => p.clone(),
            None => or.to_owned(),
        },
    }
}

/// The repositories of a dispatch: those asked for, else the one the
/// environment names, else that of the pull request, else the configured one,
/// else that of the workspace.
pub open spec fn repositories(
    asked: Seq<Seq<char>>,
    env: Option<Seq<char>>,
    pr: Option<Seq<char>>,
    configured: Option<Seq<char>>,
    workspace: Option<Seq<char>>,
) -> Seq<Seq<char>> {
    if asked.len() > 0 {
        asked
    } else if env is Some && text::trimmed(env->0).len() > 0 {
        seq![text::trimmed(env->0)]
    } else {
        match pr {
            Some(r) => seq![r],
            None => match configured {
                Some(r) => seq![r],
                None => match workspace {
                    Some(r) => seq![r],
                    None => Seq::empty(),
                },
            },
        }
    }
}

/// Whether the repository of the pull request matters at all.
pub fn needs_pr_lookup(asked: &Vec<String>, env: &Option<String>) -> (r: bool)
    ensures
        r == (asked@.len() == 0 && !(env is Some && text::trimmed(env->0@).len() > 0)),
        !r ==> forall|pr: Option<Seq<char>>, pr2: Option<Seq<char>>, c: Option<Seq<char>>, w: Option<Seq<char>>|
            repositories(text::views(asked@), strmap::opt_view(*env), pr, c, w) == repositories(
                text::views(asked@),
                strmap::opt_view(*env),
                pr2,
                c,
                w,
            ),
{
    if asked.len() > 0 {
        return false;
    }
    match env {
        Some(e) => text::trim(e.as_str()).as_str().is_empty(),
        None => true,
    }
}

fn one(s: String) -> (r: Vec<String>)
    ensures
        text::views(r@) == seq![s@],
{
    let mut v: Vec<String> = Vec::new();
    v.push(s);
    proof {
        assert(text::views(v@) =~= seq![s@]);
    }
    v
}

/// Copies a list of strings.
pub fn copy_list(list: &Vec<String>) -> (r: Vec<String>)
    ensures
        text::views(r@) == text::views(list@),
{
    let mut out: Vec<String> = Vec::new();
    let mut i: usize = 0;
    while i < list.len()
        invariant
            i <= list.len(),
            text::views(out@) == text::views(list@).take(i as int),
        decreases list.len() - i,
    {
        let s = list[i].clone();
        proof {
            text::views_push(out@, s);
            assert(text::views(list@).take(i + 1) =~= text::views(list@).take(i as int).push(s@));
        }
        out.push(s);
        i += 1;
    }
    proof {
        assert(text::views(list@).take(i as int) =~= text::views(list@));
    }
    out
}

/// Resolve the target repo list.
///
/// Order: explicit `--repo` args, `DISPATCH_WORKTREE_REPO` env var, PR URL
/// resolution, config (`dispatch.repo`), meta discovery.
pub fn resolve_base_repos(
    asked: &Vec<String>,
    env: &Option<String>,
    pr: &Option<String>,
    configured: &Option<String>,
    workspace: &Option<String>,
) -> (r: Vec<String>)
    ensures
        text::views(r@) == repositories(
            text::views(asked@),
            strmap::opt_view(*env),
            strmap::opt_view(*pr),
            strmap::opt_view(*configured),
            strmap::opt_view(*workspace),
        ),
{
    proof {
        assert(text::views(asked@).len() == asked@.len());
    }
    if asked.len() > 0 {
        return copy_list(asked);
    }
    if let Some(e) = env {
        let t = text::trim(e.as_str());
        if !t.as_str().is_empty() {
            return one(t);
        }
    }
    if let Some(r) = pr {
        return one(r.clone());
    }
    if let Some(r) = configured {
        return one(r.clone());
    }
    match workspace {
        Some(r) => one(r.clone()),
        None => {
            let none: Vec<String> = Vec::new();
            proof {
                assert(text::views(none@) =~= Seq::<Seq<char>>::empty());
            }
            none
        },
    }
}

/// How an agent that ran to its end, or still runs, is recorded.
pub open spec fn status_after(exit: Option<i32>) -> Status {
    match exit {
        Some(code) => if code == 0 {
            Status::Done
        } else {
            Status::Failed
        },
        None => Status::Running,
    }
}

pub fn status_of_exit(exit: Option<i32>) -> (r: Status)
    ensures
        r == status_after(exit),
{
    match exit {
        Some(code) => if code == 0 {
            Status::Done
        } else {
            Status::Failed
        },
        None => Status::Running,
    }
}

/// The KB workspace that a policy stands for, where it fixes one.
pub open spec fn policy_workspace(
    policy: WorktreePolicy,
    overrides: Map<Seq<char>, Seq<char>>,
    branch: Seq<char>,
) -> Option<Seq<char>> {
    match policy {
        WorktreePolicy::Document => strmap::value(overrides, "GITKB_WORKSPACE"@),
        WorktreePolicy::Branch => strmap::value(overrides, "GITKB_WORKSPACE"@),
        WorktreePolicy::Root => Some("main"@),
        WorktreePolicy::Current => Some(dispatch::sanitized(branch)),
    }
}

pub fn kb_workspace(policy: WorktreePolicy, overrides: &StrMap, branch: &str) -> (r: Option<String>)
    ensures
        strmap::opt_view(r) == policy_workspace(policy, overrides@, branch@),
{
    match policy {
        WorktreePolicy::Document => overrides.get("GITKB_WORKSPACE"),
        WorktreePolicy::Branch => overrides.get("GITKB_WORKSPACE"),
        WorktreePolicy::Root => Some("main".to_owned()),
        WorktreePolicy::Current => Some(sanitize_slashes(branch)),
    }
}

/// Whether the pull request context is added to the providers in front.
pub fn adds_pr_context(params: &StrMap, pr: &Option<String>, providers: &Vec<String>) -> (r: bool)
    ensures
        r == ((params@.dom().contains("pr"@) || pr is Some) && !text::views(providers@).contains(
            "pr-context"@,
        )),
{
    (params.contains_key("pr") || pr.is_some()) && !dispatch::list_contains(providers, "pr-context")
}

/// A parameter that is there and not empty.
pub open spec fn given(params: Map<Seq<char>, Seq<char>>, name: Seq<char>) -> bool {
    params.dom().contains(name) && params[name].len() > 0
}

/// The pull request is that of the option if it is not empty, else that of the parameters
/// if it is not, else there is none.
pub proof fn pull_requests_come_in_order(
    option: Option<Seq<char>>,
    params: Map<Seq<char>, Seq<char>>,
)
    ensures
        option is Some && option->0.len() > 0 ==> effective_pr(option, params) == option,
        !(option is Some && option->0.len() > 0) && given(params, "pr"@) ==> effective_pr(
            option,
            params,
        ) == Some(params["pr"@]),
        !(option is Some && option->0.len() > 0) && !given(params, "pr"@) ==> effective_pr(
            option,
            params,
        ) is None,
{
}

/// A comment on a pull request stands for it: its address without what is behind `#` is
/// added exactly where a comment is given, no pull request is, and the address is that of
/// one.
pub proof fn comments_bring_their_pull_request(params: Map<Seq<char>, Seq<char>>)
    ensures
        ({
            let base = text::split_on(params["comment"@], '#')[0];
            if given(params, "comment"@) && !given(params, "pr"@) && text::occurs(base, "/pull/"@) {
                enriched(params) == params.insert("pr"@, base)
            } else {
                enriched(params) == params
            }
        }),
{
}

/// The document is the task of the dispatch, else the parameter `task`, else `slug`; empty
/// ones do not count.
pub proof fn documents_come_in_order(
    task: Option<Seq<char>>,
    params: Map<Seq<char>, Seq<char>>,
)
    ensures
        ({
            let own = task is Some && task->0.len() > 0;
            let slug = document_slug(task, params);
            &&& own ==> slug == task
            &&& !own && given(params, "task"@) ==> slug == Some(params["task"@])
            &&& !own && !given(params, "task"@) && given(params, "slug"@) ==> slug == Some(
                params["slug"@],
            )
            &&& !own && !given(params, "task"@) && !given(params, "slug"@) ==> slug is None
        }),
{
}

/// The repositories are those that were asked for. Only where there are none the one of
/// the environment counts, then that of the pull request, then the configured one, and
/// then that of the workspace.
pub proof fn repositories_come_in_order(
    asked: Seq<Seq<char>>,
    env: Option<Seq<char>>,
    pr: Option<Seq<char>>,
    configured: Option<Seq<char>>,
    workspace: Option<Seq<char>>,
)
    ensures
        ({
            let r = repositories(asked, env, pr, configured, workspace);
            let from_env = env is Some && text::trimmed(env->0).len() > 0;
            &&& asked.len() > 0 ==> r == asked
            &&& asked.len() == 0 ==> r.len() <= 1
            &&& asked.len() == 0 && from_env ==> r == seq![text::trimmed(env->0)]
            &&& asked.len() == 0 && !from_env && pr is Some ==> r == seq![pr->0]
            &&& asked.len() == 0 && !from_env && pr is None && configured is Some ==> r
                == seq![configured->0]
            &&& asked.len() == 0 && !from_env && pr is None && configured is None && workspace
                is Some ==> r == seq![workspace->0]
            &&& r.len() == 0 <==> asked.len() == 0 && !from_env && pr is None && configured is None
                && workspace is None
        }),
{
}

/// An agent that has not ended is recorded as running, one that ended well as done, and
/// any other as failed.
pub proof fn agents_are_recorded_as_they_ended(exit: Option<i32>)
    ensures
        status_after(exit) == Status::Running <==> exit is None,
        status_after(exit) == Status::Done <==> exit == Some(0i32),
        status_after(exit) == Status::Failed <==> exit is Some && exit != Some(0i32),
{
}

} // verus!
