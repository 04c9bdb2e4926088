//! Where a dispatch runs.

use vstd::prelude::*;
use crate::paths::{self, goes_through};
use crate::strmap;
use crate::text::concat;
use crate::types::WorktreePolicy;

verus! {

/// Where a recorded dispatch runs: the current directory, the root of the
/// workspace, or the place that was found for its document or its branch. A
/// document without a workspace is worked on at the root.
pub open spec fn run_place(
    policy: WorktreePolicy,
    cwd: Seq<char>,
    root: Seq<char>,
    found: Option<Seq<char>>,
) -> Seq<char> {
    match policy {
        WorktreePolicy::Current => cwd,
        WorktreePolicy::Root => root,
        WorktreePolicy::Document => match found {
            Some(p) => p,
            None => root,
        },
        WorktreePolicy::Branch => found->0,
    }
}

pub fn choose_run_place(
    policy: WorktreePolicy,
    cwd: &str,
    root: &str,
    found: Option<&str>,
) -> (r: String)
    requires
        policy == WorktreePolicy::Branch ==> found is Some,
    ensures
        r@ == run_place(policy, cwd@, root@, strmap::opt_str(found)),
{
    match policy {
        WorktreePolicy::Current => cwd.to_owned(),
        WorktreePolicy::Root => root.to_owned(),
        _ => match found {
            Some(p) => p.to_owned(),
            None => root.to_owned(),
        },
    }
}

/// Where an ephemeral dispatch runs. It makes no worktree, and a document
/// without a workspace is worked on in the current directory.
pub open spec fn ephemeral_place(
    policy: WorktreePolicy,
    cwd: Seq<char>,
    root: Seq<char>,
    document: Option<Seq<char>>,
) -> Seq<char> {
    match policy {
        WorktreePolicy::Root => root,
        WorktreePolicy::Document => match document {
            Some(p) => p,
            None => cwd,
        },
        _ => cwd,
    }
}

pub fn choose_ephemeral_place(
    policy: WorktreePolicy,
    cwd: &str,
    root: &str,
    document: Option<&str>,
) -> (r: String)
    ensures
        r@ == ephemeral_place(policy, cwd@, root@, strmap::opt_str(document)),
{
    match policy {
        WorktreePolicy::Root => root.to_owned(),
        WorktreePolicy::Document => match document {
            Some(p) => p.to_owned(),
            None => cwd.to_owned(),
        },
        _ => cwd.to_owned(),
    }
}

/// The root that a preview shows: that of the document, where it has one.
pub open spec fn preview_root(
    policy: WorktreePolicy,
    root: Seq<char>,
    document: Option<Seq<char>>,
) -> Seq<char> {
    match document {
        Some(p) => if policy == WorktreePolicy::Document {
            p
        } else {
            root
        },
        None => root,
    }
}

pub fn choose_preview_root(
    policy: WorktreePolicy,
    root: &str,
    document: Option<&str>,
) -> (r: String)
    ensures
        r@ == preview_root(policy, root@, strmap::opt_str(document)),
{
    match (policy, document) {
        (WorktreePolicy::Document, Some(p)) => p.to_owned(),
        _ => root.to_owned(),
    }
}

/// The environment file of a project is read only where it lies in the worktree,
/// links resolved.
pub fn check_env_file(file: &str, worktree: &str) -> (r: Result<(), String>)
    ensures
        r is Ok <==> paths::leads_through(file@, worktree@),
        r matches Err(e) ==> e@ == ".dispatch/env path escapes worktree: "@ + file@,
{
    if goes_through(file, worktree) {
        Ok(())
    } else {
        Err(concat(".dispatch/env path escapes worktree: ", file))
    }
}

/// A dispatch stays in the current directory or goes to the root where its policy says so.
/// A branch has the place that was found for it. So has a document; one without is worked
/// on at the root, and where no traces are left in the current directory.
pub proof fn places_are_those_of_the_policy(
    policy: WorktreePolicy,
    cwd: Seq<char>,
    root: Seq<char>,
    found: Option<Seq<char>>,
)
    ensures
        policy == WorktreePolicy::Current ==> run_place(policy, cwd, root, found) == cwd
            && ephemeral_place(policy, cwd, root, found) == cwd,
        policy == WorktreePolicy::Root ==> run_place(policy, cwd, root, found) == root
            && ephemeral_place(policy, cwd, root, found) == root,
        policy == WorktreePolicy::Branch ==> ephemeral_place(policy, cwd, root, found) == cwd && (
        found is Some ==> run_place(policy, cwd, root, found) == found->0),
        policy == WorktreePolicy::Document && found is Some ==> run_place(policy, cwd, root, found)
            == found->0 && ephemeral_place(policy, cwd, root, found) == found->0 && preview_root(
            policy,
            root,
            found,
        ) == found->0,
        policy == WorktreePolicy::Document && found is None ==> run_place(policy, cwd, root, found)
            == root && ephemeral_place(policy, cwd, root, found) == cwd,
        policy != WorktreePolicy::Document || found is None ==> preview_root(policy, root, found)
            == root,
{
}

} // verus!
