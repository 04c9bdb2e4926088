//! A raw prompt, which any input can be.

use vstd::prelude::*;
use crate::dispatch::{self, build_dispatch_id};
use crate::strmap::StrMap;
use crate::text::{self, concat, push_str, write_i64, write_u64};
use crate::types::{Directive, ResolvedInput};

verus! {

/// The branch of a prompt: nothing but the time, the process and a running
/// number tells prompts apart.
pub open spec fn prompt_branch(unix_ms: i64, pid: u32, seq: u32) -> Seq<char> {
    "prompt-"@ + text::decimal_int(unix_ms as int) + "-"@ + text::decimal(pid as nat) + "-"@
        + text::decimal(seq as nat)
}

/// Two prompts get different branches, unless they are made in one millisecond, by one
/// process and under one number.
pub proof fn prompt_branches_are_distinct(
    unix_ms: i64,
    pid: u32,
    seq: u32,
    unix_ms2: i64,
    pid2: u32,
    seq2: u32,
)
    requires
        (unix_ms, pid, seq) != (unix_ms2, pid2, seq2),
    ensures
        prompt_branch(unix_ms, pid, seq) != prompt_branch(unix_ms2, pid2, seq2),
{
    let head = "prompt-"@;
    let at = text::decimal_int(unix_ms as int);
    let at2 = text::decimal_int(unix_ms2 as int);
    let of = head + at + "-"@ + text::decimal(pid as nat);
    let of2 = head + at2 + "-"@ + text::decimal(pid2 as nat);
    if pid != pid2 || unix_ms != unix_ms2 {
        if unix_ms != unix_ms2 {
            text::integers_are_distinct(unix_ms as int, unix_ms2 as int);
            assert((head + at).skip(head.len() as int) =~= at);
            assert((head + at2).skip(head.len() as int) =~= at2);
        }
        text::last_numbers_tell_apart(head + at, pid as nat, head + at2, pid2 as nat);
    }
    text::last_numbers_tell_apart(of, seq as nat, of2, seq2 as nat);
}

fn write_branch(unix_ms: i64, pid: u32, seq: u32) -> (r: String)
    ensures
        r@ == prompt_branch(unix_ms, pid, seq),
{
    let mut out = concat("prompt-", write_i64(unix_ms).as_str());
    push_str(&mut out, "-");
    push_str(&mut out, write_u64(pid as u64).as_str());
    push_str(&mut out, "-");
    push_str(&mut out, write_u64(seq as u64).as_str());
    out
}

/// The directive of a prompt: the one that is asked for, or else to implement.
pub open spec fn prompt_directive(asked: Option<Directive>) -> Directive {
    match asked {
        Some(d) => d,
        None => Directive::Implement,
    }
}

/// Resolver for raw prompts, which come last since any input can be one.
#[derive(Clone, Copy, Debug)]
pub struct PromptResolver;

impl PromptResolver {
    pub fn name(&self) -> (r: &'static str)
        ensures
            r@ == "prompt"@,
    {
        "prompt"
    }

    /// Any input can be a prompt.
    pub fn can_resolve(&self, input: &str) -> (r: bool)
        ensures
            r,
    {
        true
    }

    /// Takes the input as a prompt, made at the given time.
    pub fn resolve(
        &self,
        input: &str,
        asked: Option<Directive>,
        unix_ms: i64,
        pid: u32,
        seq: u32,
    ) -> (r: ResolvedInput)
        ensures
            r.system_prompt@ == input@,
            r.directive == prompt_directive(asked),
            r.task_slug is None,
            r.branch@ == prompt_branch(unix_ms, pid, seq),
            r.dispatch_id@ == dispatch::dispatch_id(
                prompt_branch(unix_ms, pid, seq),
                prompt_directive(asked),
                unix_ms as int,
                dispatch::id_suffix(pid, seq) as nat,
            ),
            r.env_overrides@ == Map::<Seq<char>, Seq<char>>::empty(),
            r.kb_root is None,
            !r.is_template,
            r.template_body is None,
            r.max_turns is None,
            r.worktree_policy is None,
    {
        let directive = match asked {
            Some(d) => d,
            None => Directive::Implement,
        };
        let branch = write_branch(unix_ms, pid, seq);
        let dispatch_id = build_dispatch_id(branch.as_str(), directive, unix_ms, pid, seq);
        ResolvedInput {
            system_prompt: input.to_owned(),
            directive,
            task_slug: None,
            branch,
            dispatch_id,
            env_overrides: StrMap::new(),
            kb_root: None,
            is_template: false,
            template_body: None,
            max_turns: None,
            worktree_policy: None,
        }
    }
}

/// A prompt follows the directive that is asked for, and implements otherwise.
pub proof fn prompts_implement_unless_told(d: Directive)
    ensures
        prompt_directive(Some(d)) == d,
        prompt_directive(None) == Directive::Implement,
{
}

} // verus!
