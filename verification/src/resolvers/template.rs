//! Templates: prompts that are kept in files.

use vstd::prelude::*;
use crate::dispatch::{self, build_dispatch_id, list_contains};
use crate::order::{self, sort_names};
use crate::paths::{self, join_path};
use crate::pipeline::inputs::copy_list;
use crate::strmap::{self, copy_opt, keep_nonempty, StrMap};
use crate::terminal_text::{self, is_control_char};
use crate::text::{self, chars_of, concat, contains, contains_char, ends_with, push_str, same, starts_with, strip_suffix, trim, write_i64, write_u64};
use crate::types::{Directive, ResolvedInput};

verus! {

/// A character that may stand in the name of a branch.
pub open spec fn ref_char(c: char) -> bool {
    !terminal_text::is_control(c) && c != ' ' && c != '~' && c != '^' && c != ':' && c != '?' && c
        != '*' && c != '[' && c != '\\'
}

/// A text that is safe as part of the name of a branch.
pub open spec fn ref_safe(s: Seq<char>) -> bool {
    &&& s.len() > 0
    &&& !text::starts(s, "."@)
    &&& !text::ends(s, "."@)
    &&& !text::occurs(s, ".."@)
    &&& forall|i: int| 0 <= i < s.len() ==> ref_char(#[trigger] s[i])
}

/// Check whether `s` contains only characters safe for use in a Git refname.
pub fn is_ref_safe(s: &str) -> (r: bool)
    ensures
        r == ref_safe(s@),
{
    if s.unicode_len() == 0 || starts_with(s, ".") || ends_with(s, ".") || contains(s, "..") {
        return false;
    }
    let v = chars_of(s);
    let mut i: usize = 0;
    while i < v.len()
        invariant
            i <= v.len(),
            v@ == s@,
            forall|j: int| 0 <= j < i ==> ref_char(#[trigger] s@[j]),
        decreases v.len() - i,
    {
        let c = v[i];
        if is_control_char(c) || c == ' ' || c == '~' || c == '^' || c == ':' || c == '?' || c
            == '*' || c == '[' || c == '\\' {
            proof {
                assert(!ref_char(s@[i as int]));
            }
            return false;
        }
        i += 1;
    }
    true
}

/// The name leads out of the templates directory.
pub open spec fn wanders(s: Seq<char>) -> bool {
    text::occurs(s, ".."@) || s.contains('/') || s.contains('\\')
}

pub fn is_wandering(s: &str) -> (r: bool)
    ensures
        r == wanders(s@),
{
    contains(s, "..") || contains_char(s, '/') || contains_char(s, '\\')
}

/// Resolver for templates.
#[derive(Clone, Copy, Debug)]
pub struct TemplateResolver;

impl TemplateResolver {
    pub fn name(&self) -> (r: &'static str)
        ensures
            r@ == "template"@,
    {
        "template"
    }

    /// Whether an input is the name of a template, given whether there is a file of
    /// that name.
    pub fn can_resolve(&self, input: &str, exists: bool) -> (r: bool)
        ensures
            r == (!wanders(input@) && ref_safe(input@) && exists),
    {
        !is_wandering(input) && is_ref_safe(input) && exists
    }
}

/// A name that is accepted stands for a file in the templates directory.
pub proof fn accepted_names_stay_inside(dir: Seq<char>, s: Seq<char>)
    requires
        !wanders(s),
        ref_safe(s),
    ensures
        text::starts(paths::joined_path(dir, s + ".md"@), dir),
{
    let file = s + ".md"@;
    assert(file[0] == s[0]);
    assert(s.contains(s[0]));
    let path = paths::joined_path(dir, file);
    assert(path.subrange(0, dir.len() as int) =~= dir);
}

/// A text between quotes, with escapes, as std shows it for debugging.
pub uninterp spec fn debug_text(s: Seq<char>) -> Seq<char>;

/// `format!("{:?}")` on a text: the text between quotes, with escapes. It is
/// named, not described.
#[verifier::external_body]
fn show_debug(s: &str) -> (r: String)
    ensures
        r@ == debug_text(s@),
{
    format!("{:?}", s)
}

/// Why a name is not accepted, given how it is shown.
pub open spec fn name_error(s: Seq<char>, shown: Seq<char>) -> Option<Seq<char>> {
    if wanders(s) {
        Some("template name must not contain path separators or '..': "@ + shown)
    } else if !ref_safe(s) {
        Some("template name contains characters invalid in Git refnames: "@ + shown)
    } else {
        None
    }
}

/// Judges a name, given how it is shown.
pub fn judge_name(s: &str, shown: &str) -> (r: Result<(), String>)
    ensures
        match name_error(s@, shown@) {
            None => r is Ok,
            Some(m) => r matches Err(e) && e@ == m,
        },
{
    if is_wandering(s) {
        Err(concat("template name must not contain path separators or '..': ", shown))
    } else if !is_ref_safe(s) {
        Err(concat("template name contains characters invalid in Git refnames: ", shown))
    } else {
        Ok(())
    }
}

/// Judges a name.
pub fn check_name(s: &str) -> (r: Result<(), String>)
    ensures
        match name_error(s@, debug_text(s@)) {
            None => r is Ok,
            Some(m) => r matches Err(e) && e@ == m,
        },
{
    let shown = show_debug(s);
    judge_name(s, shown.as_str())
}

/// The templates directory: as configured, below the configuration if it is
/// relative.
pub fn templates_dir(dir: &str, config_dir: Option<&str>) -> (r: String)
    ensures
        r@ == match config_dir {
            Some(base) => paths::joined_path(base@, dir@),
            None => dir@,
        },
{
    match config_dir {
        Some(base) => join_path(base, dir),
        None => dir.to_owned(),
    }
}

/// The name of the template in a file, if it holds one.
pub open spec fn template_in(file: Seq<char>) -> Option<Seq<char>> {
    if text::ends(file, ".md"@) && file.len() > ".md"@.len() {
        Some(file.take(file.len() - ".md"@.len()))
    } else {
        None
    }
}

pub fn template_of(file: &str) -> (r: Option<String>)
    ensures
        strmap::opt_view(r) == template_in(file@),
{
    match strip_suffix(file, ".md") {
        Some(stem) => if stem.as_str().unicode_len() > 0 {
            Some(stem)
        } else {
            None
        },
        None => None,
    }
}

/// The names of the templates in the first `n` files.
pub open spec fn templates_in(files: Seq<Seq<char>>, n: int) -> Seq<Seq<char>>
    decreases n,
{
    if n <= 0 {
        Seq::empty()
    } else {
        match template_in(files[n - 1]) {
            Some(t) => templates_in(files, n - 1).push(t),
            None => templates_in(files, n - 1),
        }
    }
}

/// The names are those of the templates, in alphabetical order.
pub open spec fn are_sorted(names: Seq<Seq<char>>, unsorted: Seq<Seq<char>>) -> bool {
    &&& names.to_multiset() == unsorted.to_multiset()
    &&& forall|i: int, j: int|
        0 <= i < j < names.len() ==> !text::before(#[trigger] names[j], #[trigger] names[i])
}

/// List available template names, given the files of the templates directory.
pub fn list_templates(files: &Vec<String>) -> (r: Vec<String>)
    ensures
        are_sorted(
            text::views(r@),
            templates_in(text::views(files@), files@.len() as int),
        ),
{
    let ghost all = text::views(files@);
    let mut names: Vec<String> = Vec::new();
    let mut i: usize = 0;
    proof {
        assert(text::views(names@) =~= templates_in(all, 0));
    }
    while i < files.len()
        invariant
            i <= files.len(),
            all == text::views(files@),
            text::views(names@) == templates_in(all, i as int),
        decreases files.len() - i,
    {
        proof {
            assert(all[i as int] == files@[i as int]@);
        }
        if let Some(t) = template_of(files[i].as_str()) {
            proof {
                text::views_push(names@, t);
            }
            names.push(t);
        }
        i += 1;
    }
    let ghost unsorted = names@;
    let r = sort_names(names);
    proof {
        let p = choose|p: Seq<usize>|
            #![auto]
            order::is_order(order::named(unsorted), p, unsorted.len() as int) && r@.len()
                == unsorted.len() && forall|i: int|
                0 <= i < p.len() ==> r@[i]@ == unsorted[p[i] as int]@;
        let before = text::views(unsorted);
        assert(text::views(r@) =~= order::arranged(before, p));
        assert(r.len() == before.len());
        order::arranging_keeps_items(order::named(unsorted), before, p);
        let after = text::views(r@);
        assert forall|a: int, b: int| 0 <= a < b < after.len() implies !text::before(
            #[trigger] after[b],
            #[trigger] after[a],
        ) by {
            assert(after[a] == r@[a]@);
            assert(after[b] == r@[b]@);
        }
    }
    r
}

/// The parameters of a template: those that are given, and an empty comment
/// where none is.
pub open spec fn template_params(params: Map<Seq<char>, Seq<char>>) -> Map<Seq<char>, Seq<char>> {
    if params.dom().contains("comment"@) {
        params
    } else {
        params.insert("comment"@, ""@)
    }
}

pub fn build_params(params: &StrMap) -> (r: StrMap)
    ensures
        r@ == template_params(params@),
{
    let mut out = params.copy();
    if !out.contains_key("comment") {
        out.insert("comment", "");
    }
    out
}

/// The variables that are filled in later: those of the providers, and the
/// worktree.
pub open spec fn deferred_names(provided: Seq<Seq<char>>) -> Seq<Seq<char>> {
    if provided.contains("worktree"@) {
        provided
    } else {
        provided.push("worktree"@)
    }
}

pub fn deferred_vars(provided: &Vec<String>) -> (r: Vec<String>)
    ensures
        text::views(r@) == deferred_names(text::views(provided@)),
{
    let mut out = copy_list(provided);
    if !list_contains(provided, "worktree") {
        let w = "worktree".to_owned();
        proof {
            text::views_push(out@, w);
        }
        out.push(w);
    }
    out
}

/// The first of the required parameters, from `i` on, that is missing or empty.
pub open spec fn missing_param(
    required: Seq<Seq<char>>,
    params: Map<Seq<char>, Seq<char>>,
    i: int,
) -> Option<Seq<char>>
    decreases required.len() - i,
{
    if i < 0 || i >= required.len() {
        None
    } else if strmap::nonempty(strmap::value(params, required[i])) is None {
        Some(required[i])
    } else {
        missing_param(required, params, i + 1)
    }
}

/// All required parameters must be there.
pub fn check_required(required: &Vec<String>, params: &StrMap, template: &str) -> (r: Result<
    (),
    String,
>)
    ensures
        match missing_param(text::views(required@), params@, 0) {
            None => r is Ok,
            Some(p) => r matches Err(e) && e@ == "template '"@ + template@ + "' requires --param "@
                + p + "=<value>"@,
        },
{
    let ghost all = text::views(required@);
    let mut i: usize = 0;
    while i < required.len()
        invariant
            i <= required.len(),
            all == text::views(required@),
            missing_param(all, params@, 0) == missing_param(all, params@, i as int),
        decreases required.len() - i,
    {
        proof {
            assert(all[i as int] == required@[i as int]@);
        }
        if keep_nonempty(params.get(required[i].as_str())).is_none() {
            let mut e = concat("template '", template);
            push_str(&mut e, "' requires --param ");
            push_str(&mut e, required[i].as_str());
            push_str(&mut e, "=<value>");
            return Err(e);
        }
        i += 1;
    }
    Ok(())
}

/// The directive of a template: the one that is asked for, else the one that
/// the template names, which must be known, else the first one of its older
/// list, if it is known, else to implement.
pub open spec fn directive_of(
    asked: Option<Directive>,
    named: Option<Seq<char>>,
    listed: Seq<Seq<char>>,
) -> Option<Directive> {
    match asked {
        Some(d) => Some(d),
        None => match named {
            Some(n) => Directive::named(n),
            None => if listed.len() > 0 {
                match Directive::named(listed[0]) {
                    Some(d) => Some(d),
                    None => Some(Directive::Implement),
                }
            } else {
                Some(Directive::Implement)
            },
        },
    }
}

pub fn resolve_directive(
    asked: Option<Directive>,
    named: &Option<String>,
    listed: &Vec<String>,
    template: &str,
) -> (r: Result<Directive, String>)
    ensures
        match directive_of(asked, strmap::opt_view(*named), text::views(listed@)) {
            Some(d) => r == Ok::<Directive, String>(d),
            None => r matches Err(e) && e@ == "unknown directive '"@ + named->0@
                + "' in template '"@ + template@ + "'"@,
        },
{
    if let Some(d) = asked {
        return Ok(d);
    }
    if let Some(n) = named {
        return match Directive::parse(n.as_str()) {
            Some(d) => Ok(d),
            None => {
                let mut e = concat("unknown directive '", n.as_str());
                push_str(&mut e, "' in template '");
                push_str(&mut e, template);
                push_str(&mut e, "'");
                Err(e)
            },
        };
    }
    if listed.len() > 0 {
        proof {
            assert(text::views(listed@)[0] == listed@[0]@);
        }
        return match Directive::parse(listed[0].as_str()) {
            Some(d) => Ok(d),
            None => Ok(Directive::Implement),
        };
    }
    Ok(Directive::Implement)
}

/// How the branch of a template is found.
pub enum BranchPlan {
    /// It is the head branch of the pull request.
    PrHead(String),
    Given(String),
    /// It is the current branch of the repository.
    Current,
}

/// The pull request that a template is about: the option, unless it is empty,
/// or else the parameter.
pub open spec fn template_pr(
    option: Option<Seq<char>>,
    params: Map<Seq<char>, Seq<char>>,
) -> Option<Seq<char>> {
    match strmap::nonempty(option) {
        Some(u) => Some(u),
        None => strmap::nonempty(strmap::value(params, "pr"@)),
    }
}

/// How the branch is found: the pull request comes before a branch that is
/// given, and that before the current one.
pub fn plan_branch(pr_url: &Option<String>, params: &StrMap) -> (r: BranchPlan)
    ensures
        match template_pr(strmap::opt_view(*pr_url), params@) {
            Some(u) => r matches BranchPlan::PrHead(v) && v@ == u,
            None => match strmap::nonempty(strmap::value(params@, "branch"@)) {
                Some(b) => r matches BranchPlan::Given(c) && c@ == b,
                None => r is Current,
            },
        },
{
    if let Some(u) = keep_nonempty(copy_opt(pr_url)) {
        return BranchPlan::PrHead(u);
    }
    if let Some(u) = keep_nonempty(params.get("pr")) {
        return BranchPlan::PrHead(u);
    }
    match keep_nonempty(params.get("branch")) {
        Some(b) => BranchPlan::Given(b),
        None => BranchPlan::Current,
    }
}

/// A branch that is made up for a template.
pub open spec fn made_up_branch(
    template: Seq<char>,
    unix_ms: i64,
    pid: u32,
    seq: u32,
) -> Seq<char> {
    "tpl--"@ + template + "-"@ + text::decimal_int(unix_ms as int) + "-"@ + text::decimal(
        pid as nat,
    ) + "-"@ + text::decimal(seq as nat)
}

/// Two made-up branches differ, whatever templates and times they are made for, unless
/// they are made by one process and under one number.
pub proof fn made_up_branches_are_distinct(
    template: Seq<char>,
    unix_ms: i64,
    pid: u32,
    seq: u32,
    template2: Seq<char>,
    unix_ms2: i64,
    pid2: u32,
    seq2: u32,
)
    requires
        pid != pid2 || seq != seq2,
    ensures
        made_up_branch(template, unix_ms, pid, seq) != made_up_branch(
            template2,
            unix_ms2,
            pid2,
            seq2,
        ),
{
    let head = "tpl--"@ + template + "-"@ + text::decimal_int(unix_ms as int);
    let head2 = "tpl--"@ + template2 + "-"@ + text::decimal_int(unix_ms2 as int);
    if pid != pid2 {
        text::last_numbers_tell_apart(head, pid as nat, head2, pid2 as nat);
    }
    text::last_numbers_tell_apart(
        head + "-"@ + text::decimal(pid as nat),
        seq as nat,
        head2 + "-"@ + text::decimal(pid2 as nat),
        seq2 as nat,
    );
}

fn make_up_branch(template: &str, unix_ms: i64, pid: u32, seq: u32) -> (r: String)
    ensures
        r@ == made_up_branch(template@, unix_ms, pid, seq),
{
    let mut out = concat("tpl--", template);
    push_str(&mut out, "-");
    push_str(&mut out, write_i64(unix_ms).as_str());
    push_str(&mut out, "-");
    push_str(&mut out, write_u64(pid as u64).as_str());
    push_str(&mut out, "-");
    push_str(&mut out, write_u64(seq as u64).as_str());
    out
}

/// The branch that work may go on: not a main branch, and not none at all.
pub open spec fn usable_branch(said: Option<Seq<char>>) -> Option<Seq<char>> {
    match said {
        Some(s) => {
            let b = text::trimmed(s);
            if b.len() > 0 && b != "main"@ && b != "master"@ {
                Some(b)
            } else {
                None
            }
        },
        None => None,
    }
}

/// The branch for a plan. `head` is the head branch of the pull request, and
/// `current` what `git` said of the current branch, as far as they were found.
pub open spec fn branch_for(
    plan: BranchPlan,
    head: Option<Seq<char>>,
    current: Option<Seq<char>>,
    made_up: Seq<char>,
) -> Seq<char> {
    match plan {
        BranchPlan::Given(b) => b@,
        BranchPlan::PrHead(_) => match head {
            Some(b) => b,
            None => made_up,
        },
        BranchPlan::Current => match usable_branch(current) {
            Some(b) => b,
            None => made_up,
        },
    }
}

pub fn choose_branch(
    plan: &BranchPlan,
    head: &Option<String>,
    current: &Option<String>,
    template: &str,
    unix_ms: i64,
    pid: u32,
    seq: u32,
) -> (r: String)
    ensures
        r@ == branch_for(
            *plan,
            strmap::opt_view(*head),
            strmap::opt_view(*current),
            made_up_branch(template@, unix_ms, pid, seq),
        ),
{
    match plan {
        BranchPlan::Given(b) => b.clone(),
        BranchPlan::PrHead(_) => match head {
            Some(b) => b.clone(),
            None => make_up_branch(template, unix_ms, pid, seq),
        },
        BranchPlan::Current => {
            if let Some(s) = current {
                let b = trim(s.as_str());
                if b.as_str().unicode_len() > 0 && !same(b.as_str(), "main") && !same(
                    b.as_str(),
                    "master",
                ) {
                    return b;
                }
            }
            make_up_branch(template, unix_ms, pid, seq)
        },
    }
}

/// A template is never worked on in a main branch that happens to be checked
/// out.
pub proof fn main_branches_are_left_alone(
    head: Option<Seq<char>>,
    current: Option<Seq<char>>,
    template: Seq<char>,
    unix_ms: i64,
    pid: u32,
    seq: u32,
)
    ensures
        branch_for(
            BranchPlan::Current,
            head,
            current,
            made_up_branch(template, unix_ms, pid, seq),
        ) != "main"@,
        branch_for(
            BranchPlan::Current,
            head,
            current,
            made_up_branch(template, unix_ms, pid, seq),
        ) != "master"@,
{
    reveal_strlit("tpl--");
    reveal_strlit("main");
    reveal_strlit("master");
    let b = made_up_branch(template, unix_ms, pid, seq);
    assert(b[0] == 't');
    assert("main"@[0] == 'm');
    assert("master"@[0] == 'm');
}

/// What has to be asked before a branch can be chosen.
#[derive(Clone, Copy, Debug, PartialEq, Eq, Structural)]
pub struct TemplateFacts {
    /// The head of a pull request.
    pub asks_head: bool,
    /// The branch that is checked out.
    pub asks_current: bool,
}

/// What a plan for the branch asks.
pub fn template_facts(plan: &BranchPlan) -> (r: TemplateFacts)
    ensures
        r.asks_head == (*plan is PrHead),
        r.asks_current == (*plan is Current),
{
    match plan {
        BranchPlan::PrHead(_) => TemplateFacts { asks_head: true, asks_current: false },
        BranchPlan::Given(_) => TemplateFacts { asks_head: false, asks_current: false },
        BranchPlan::Current => TemplateFacts { asks_head: false, asks_current: true },
    }
}

/// How far resolving a template has come.
#[derive(Clone, Copy, Debug, PartialEq, Eq, Structural)]
pub enum Phase {
    Name,
    Read,
    Params,
    Render,
    Directive,
    Head,
    Current,
    Over,
}

/// What is done next to resolve a template.
#[derive(Clone, Copy, Debug, PartialEq, Eq, Structural)]
pub enum Action {
    /// Check the name.
    CheckName,
    /// Read the template, and what its head says.
    Read,
    /// Check that the required parameters are there.
    CheckParams,
    /// Put the parameters in.
    Render,
    /// Choose the directive.
    ChooseDirective,
    /// Ask for the head of the pull request.
    AskHead,
    /// Ask for the branch that is checked out.
    AskCurrent,
    /// Choose the branch; the template is resolved.
    Finish,
    /// Report what went wrong.
    Fail,
}

/// The resolving of a template.
#[derive(Clone, Copy, Debug, PartialEq, Eq, Structural)]
pub struct TemplateFlow {
    pub facts: TemplateFacts,
    pub phase: Phase,
}

/// The step once all is checked.
pub open spec fn after_checks(facts: TemplateFacts) -> (Phase, Action) {
    if facts.asks_head {
        (Phase::Head, Action::AskHead)
    } else if facts.asks_current {
        (Phase::Current, Action::AskCurrent)
    } else {
        (Phase::Over, Action::Finish)
    }
}

/// The step that follows, given whether the last one succeeded. A branch is chosen
/// whatever was answered about it.
pub open spec fn next(facts: TemplateFacts, phase: Phase, ok: bool) -> (Phase, Action) {
    match phase {
        Phase::Head => (Phase::Over, Action::Finish),
        Phase::Current => (Phase::Over, Action::Finish),
        Phase::Over => (Phase::Over, Action::Fail),
        _ => if !ok {
            (Phase::Over, Action::Fail)
        } else {
            match phase {
                Phase::Name => (Phase::Read, Action::Read),
                Phase::Read => (Phase::Params, Action::CheckParams),
                Phase::Params => (Phase::Render, Action::Render),
                Phase::Render => (Phase::Directive, Action::ChooseDirective),
                _ => after_checks(facts),
            }
        },
    }
}

/// Begins to resolve a template: its name comes first.
pub fn start(facts: TemplateFacts) -> (r: (TemplateFlow, Action))
    ensures
        r.0 == (TemplateFlow { facts, phase: Phase::Name }),
        r.1 == Action::CheckName,
{
    (TemplateFlow { facts, phase: Phase::Name }, Action::CheckName)
}

impl TemplateFlow {
    /// Takes whether the last step succeeded and gives the next one.
    pub fn step(self, ok: bool) -> (r: (TemplateFlow, Action))
        ensures
            r.0.facts == self.facts,
            (r.0.phase, r.1) == next(self.facts, self.phase, ok),
    {
        let facts = self.facts;
        let (phase, action) = match self.phase {
            Phase::Head => (Phase::Over, Action::Finish),
            Phase::Current => (Phase::Over, Action::Finish),
            Phase::Over => (Phase::Over, Action::Fail),
            _ => if !ok {
                (Phase::Over, Action::Fail)
            } else {
                match self.phase {
                    Phase::Name => (Phase::Read, Action::Read),
                    Phase::Read => (Phase::Params, Action::CheckParams),
                    Phase::Params => (Phase::Render, Action::Render),
                    Phase::Render => (Phase::Directive, Action::ChooseDirective),
                    _ => if facts.asks_head {
                        (Phase::Head, Action::AskHead)
                    } else if facts.asks_current {
                        (Phase::Current, Action::AskCurrent)
                    } else {
                        (Phase::Over, Action::Finish)
                    },
                }
            },
        };
        (TemplateFlow { facts, phase }, action)
    }
}

/// Each check has to be passed before what comes behind it: nothing is read under a
/// name that was not accepted, nothing is rendered before its parameters were found,
/// and nothing outside is asked before the directive is known.
pub proof fn checks_come_first(facts: TemplateFacts, phase: Phase, ok: bool)
    ensures
        next(facts, phase, ok).1 == Action::Read <==> phase == Phase::Name && ok,
        next(facts, phase, ok).1 == Action::Render <==> phase == Phase::Params && ok,
        next(facts, phase, ok).1 == Action::ChooseDirective <==> phase == Phase::Render && ok,
        next(facts, phase, ok).1 == Action::AskHead ==> phase == Phase::Directive && ok,
        next(facts, phase, ok).1 == Action::AskCurrent ==> phase == Phase::Directive && ok,
{
}

/// The resolving of a template: where it stands after the given answers, and the steps
/// that it asked for.
pub open spec fn history(facts: TemplateFacts, answers: Seq<bool>) -> (Phase, Seq<Action>)
    decreases answers.len(),
{
    if answers.len() == 0 {
        (Phase::Name, seq![Action::CheckName])
    } else {
        let (phase, actions) = history(facts, answers.drop_last());
        let (then, action) = next(facts, phase, answers.last());
        (then, actions.push(action))
    }
}

/// The step that is to be answered: the last one asked for.
pub open spec fn asked(facts: TemplateFacts, answers: Seq<bool>) -> Action {
    history(facts, answers).1.last()
}

spec fn fits(phase: Phase, action: Action) -> bool {
    match phase {
        Phase::Name => action == Action::CheckName,
        Phase::Read => action == Action::Read,
        Phase::Params => action == Action::CheckParams,
        Phase::Render => action == Action::Render,
        Phase::Directive => action == Action::ChooseDirective,
        Phase::Head => action == Action::AskHead,
        Phase::Current => action == Action::AskCurrent,
        Phase::Over => action == Action::Finish || action == Action::Fail,
    }
}

proof fn phase_fits(facts: TemplateFacts, answers: Seq<bool>)
    ensures
        fits(history(facts, answers).0, asked(facts, answers)),
    decreases answers.len(),
{
    if answers.len() > 0 {
        phase_fits(facts, answers.drop_last());
    }
}

/// A template is read under an accepted name, then its parameters are checked, then it is
/// rendered, then its directive is chosen. What fails ends it. After that only what the
/// branch depends on is asked, and the branch is chosen whatever the answer is.
pub proof fn templates_are_resolved_step_by_step(
    facts: TemplateFacts,
    answers: Seq<bool>,
    ok: bool,
)
    ensures
        ({
            let at = asked(facts, answers);
            let then = asked(facts, answers.push(ok));
            let checked = at == Action::ChooseDirective && ok;
            let check = at == Action::CheckName || at == Action::Read || at == Action::CheckParams
                || at == Action::Render || at == Action::ChooseDirective;
            &&& asked(facts, Seq::empty()) == Action::CheckName
            &&& check && !ok ==> then == Action::Fail
            &&& at == Action::CheckName && ok <==> then == Action::Read
            &&& at == Action::Read && ok <==> then == Action::CheckParams
            &&& at == Action::CheckParams && ok <==> then == Action::Render
            &&& at == Action::Render && ok <==> then == Action::ChooseDirective
            &&& checked && facts.asks_head <==> then == Action::AskHead
            &&& checked && !facts.asks_head && facts.asks_current <==> then == Action::AskCurrent
            &&& then == Action::Finish <==> (checked && !facts.asks_head && !facts.asks_current)
                || at == Action::AskHead || at == Action::AskCurrent
        }),
{
    phase_fits(facts, answers);
    assert(answers.push(ok).drop_last() =~= answers);
}

/// How many steps a template is from its end at most.
pub open spec fn steps_left(phase: Phase) -> nat {
    match phase {
        Phase::Name => 6,
        Phase::Read => 5,
        Phase::Params => 4,
        Phase::Render => 3,
        Phase::Directive => 2,
        Phase::Head => 1,
        Phase::Current => 1,
        Phase::Over => 0,
    }
}

/// Each step comes nearer to the end, and the end is reached with a result exactly
/// where no check failed.
pub proof fn resolving_ends(facts: TemplateFacts, phase: Phase, ok: bool)
    requires
        phase != Phase::Over,
    ensures
        steps_left(next(facts, phase, ok).0) < steps_left(phase),
        next(facts, phase, ok).0 == Phase::Over <==> next(facts, phase, ok).1 == Action::Finish
            || next(facts, phase, ok).1 == Action::Fail,
        next(facts, phase, ok).1 == Action::Fail <==> !ok && phase != Phase::Head && phase
            != Phase::Current,
{
}

/// What a template comes to, once its parts are known.
pub fn resolved(
    body: String,
    directive: Directive,
    branch: String,
    unix_ms: i64,
    pid: u32,
    seq: u32,
) -> (r: ResolvedInput)
    ensures
        r.system_prompt@ == Seq::<char>::empty(),
        r.directive == directive,
        r.task_slug is None,
        r.branch@ == branch@,
        r.dispatch_id@ == dispatch::dispatch_id(
            branch@,
            directive,
            unix_ms as int,
            dispatch::id_suffix(pid, seq) as nat,
        ),
        r.env_overrides@ == Map::<Seq<char>, Seq<char>>::empty(),
        r.kb_root is None,
        r.is_template,
        strmap::opt_view(r.template_body) == Some(body@),
        r.max_turns is None,
        r.worktree_policy is None,
{
    let dispatch_id = build_dispatch_id(branch.as_str(), directive, unix_ms, pid, seq);
    ResolvedInput {
        system_prompt: String::new(),
        directive,
        task_slug: None,
        branch,
        dispatch_id,
        env_overrides: StrMap::new(),
        kb_root: None,
        is_template: true,
        template_body: Some(body),
        max_turns: None,
        worktree_policy: None,
    }
}

/// The parameter that is asked for is the first of the required ones that is not there or
/// empty; there is none exactly where all are there.
pub proof fn required_parameters_are_found(
    required: Seq<Seq<char>>,
    params: Map<Seq<char>, Seq<char>>,
    from: int,
)
    requires
        0 <= from <= required.len(),
    ensures
        ({
            let there = |p: Seq<char>| params.dom().contains(p) && params[p].len() > 0;
            match missing_param(required, params, from) {
                Some(p) => exists|i: int|
                    from <= i < required.len() && #[trigger] required[i] == p && !there(p)
                        && forall|j: int| from <= j < i ==> there(#[trigger] required[j]),
                None => forall|j: int|
                    from <= j < required.len() ==> there(#[trigger] required[j]),
            }
        }),
    decreases required.len() - from,
{
    let there = |p: Seq<char>| params.dom().contains(p) && params[p].len() > 0;
    if from < required.len() {
        required_parameters_are_found(required, params, from + 1);
        if !there(required[from]) {
            assert(required[from] == required[from]);
        } else {
            match missing_param(required, params, from + 1) {
                Some(p) => {
                    let i = choose|i: int|
                        from + 1 <= i < required.len() && #[trigger] required[i] == p && !there(p)
                            && forall|j: int| from + 1 <= j < i ==> there(#[trigger] required[j]);
                    assert(required[i] == p);
                },
                None => {},
            }
        }
    }
}

/// The directive is the one asked for; else the one the template names, which has to be a
/// directive; else the first of its list, where it is one; else to implement.
pub proof fn directives_come_in_order(
    asked: Option<Directive>,
    named: Option<Seq<char>>,
    listed: Seq<Seq<char>>,
)
    ensures
        asked is Some ==> directive_of(asked, named, listed) == asked,
        asked is None && named is Some ==> directive_of(asked, named, listed) == Directive::named(
            named->0,
        ),
        asked is None && named is None && listed.len() > 0 && Directive::named(listed[0]) is Some
            ==> directive_of(asked, named, listed) == Directive::named(listed[0]),
        asked is None && named is None && (listed.len() == 0 || Directive::named(listed[0]) is None)
            ==> directive_of(asked, named, listed) == Some(Directive::Implement),
{
}

/// A branch that is given is taken. The head of a pull request is taken where it is known,
/// and the branch that is checked out where it is none of the main ones; else a branch is
/// made up.
pub proof fn branches_come_from_the_plan(
    plan: BranchPlan,
    head: Option<Seq<char>>,
    current: Option<Seq<char>>,
    made_up: Seq<char>,
)
    ensures
        ({
            let b = branch_for(plan, head, current, made_up);
            let out = text::trimmed(current->0);
            let usable = current is Some && out.len() > 0 && out != "main"@ && out != "master"@;
            &&& plan matches BranchPlan::Given(g) ==> b == g@
            &&& plan is PrHead && head is Some ==> b == head->0
            &&& plan is PrHead && head is None ==> b == made_up
            &&& plan is Current && usable ==> b == out
            &&& plan is Current && !usable ==> b == made_up
        }),
{
}

/// A template has all parameters that are given as they are, and a comment in any case.
pub proof fn templates_have_a_comment(params: Map<Seq<char>, Seq<char>>, k: Seq<char>)
    ensures
        template_params(params).dom().contains("comment"@),
        params.dom().contains(k) ==> template_params(params).dom().contains(k) && template_params(
            params,
        )[k] == params[k],
        k != "comment"@ && !params.dom().contains(k) ==> !template_params(params).dom().contains(
            k,
        ),
        !params.dom().contains("comment"@) ==> template_params(params)["comment"@] == ""@,
{
}

/// What comes later is what the providers give and the worktree, each once where the
/// providers name each once.
pub proof fn worktrees_come_later(provided: Seq<Seq<char>>, name: Seq<char>)
    ensures
        deferred_names(provided).contains(name) <==> provided.contains(name) || name
            == "worktree"@,
        provided.contains("worktree"@) ==> deferred_names(provided) == provided,
{
    let all = deferred_names(provided);
    if provided.contains(name) {
        let i = choose|i: int| 0 <= i < provided.len() && provided[i] == name;
        assert(all[i] == name);
    }
    if !provided.contains("worktree"@) {
        assert(all[provided.len() as int] == "worktree"@);
        if all.contains(name) && name != "worktree"@ {
            let i = choose|i: int| 0 <= i < all.len() && all[i] == name;
            assert(provided[i] == name);
        }
    }
}

/// A file holds the template of its name, without its ending.
pub proof fn templates_are_named_by_their_files(name: Seq<char>, file: Seq<char>)
    ensures
        name.len() > 0 ==> template_in(name + ".md"@) == Some(name),
        template_in(".md"@) is None,
        !text::ends(file, ".md"@) ==> template_in(file) is None,
        template_in(file) matches Some(t) ==> t.len() > 0 && file == t + ".md"@,
{
    reveal_strlit(".md");
    let long = name + ".md"@;
    assert(long.subrange(name.len() as int, long.len() as int) =~= ".md"@);
    assert(long.take(long.len() - 3) =~= name);
    if let Some(t) = template_in(file) {
        assert(file.subrange(file.len() - 3, file.len() as int) == ".md"@);
        assert(file =~= t + ".md"@);
    }
}

/// The templates of a directory are those of its files, each of them.
pub proof fn each_file_gives_its_template(files: Seq<Seq<char>>, n: int, name: Seq<char>)
    requires
        0 <= n <= files.len(),
    ensures
        templates_in(files, n).contains(name) <==> name.len() > 0 && exists|i: int|
            0 <= i < n && #[trigger] files[i] == name + ".md"@,
    decreases n,
{
    if n > 0 {
        let before = templates_in(files, n - 1);
        each_file_gives_its_template(files, n - 1, name);
        templates_are_named_by_their_files(name, files[n - 1]);
        match template_in(files[n - 1]) {
            Some(t) => {
                let all = before.push(t);
                if all.contains(name) {
                    let k = choose|k: int| 0 <= k < all.len() && all[k] == name;
                    if k < before.len() {
                        assert(before[k] == name);
                        assert(before.contains(name));
                    } else {
                        assert(files[n - 1] == name + ".md"@);
                    }
                }
                if before.contains(name) {
                    let k = choose|k: int| 0 <= k < before.len() && before[k] == name;
                    assert(all[k] == name);
                }
                if name == t {
                    assert(all[before.len() as int] == name);
                }
            },
            None => {},
        }
    }
}

/// A pull request is that of the option, unless it is empty, or else the parameter.
pub proof fn template_pull_requests_come_in_order(
    option: Option<Seq<char>>,
    params: Map<Seq<char>, Seq<char>>,
    url: Seq<char>,
)
    ensures
        url.len() > 0 ==> template_pr(Some(url), params) == Some(url),
        url.len() > 0 && params.dom().contains("pr"@) && params["pr"@] == url && (option is None
            || option->0.len() == 0) ==> template_pr(option, params) == Some(url),
        !params.dom().contains("pr"@) && (option is None || option->0.len() == 0) ==> template_pr(
            option,
            params,
        ) is None,
{
}

/// A name is refused where it leads elsewhere, or where a branch could not carry it,
/// and only there.
pub proof fn names_are_refused_for_a_reason(s: Seq<char>, shown: Seq<char>, i: int)
    ensures
        s.contains('/') || s.contains('\\') || text::occurs(s, ".."@) ==> name_error(s, shown)
            == Some("template name must not contain path separators or '..': "@ + shown),
        s.len() == 0 ==> name_error(s, shown) is Some,
        0 <= i < s.len() && (s[i] == ' ' || s[i] == '~' || s[i] == '^' || s[i] == ':' || s[i] == '?'
            || s[i] == '*' || s[i] == '[' || s[i] <= '\u{1f}' || s[i] == '\u{7f}') ==> name_error(
            s,
            shown,
        ) is Some,
        s.len() > 0 && (s[0] == '.' || s.last() == '.') ==> name_error(s, shown) is Some,
        s.len() > 0 && (forall|j: int|
            0 <= j < s.len() ==> ('a' <= #[trigger] s[j] <= 'z' || 'A' <= s[j] <= 'Z' || '0' <= s[j]
                <= '9' || s[j] == '-' || s[j] == '_')) ==> name_error(s, shown) is None,
{
    reveal_strlit(".");
    reveal_strlit("..");
    if s.len() > 0 {
        if s[0] == '.' {
            assert(s.subrange(0, 1) =~= "."@);
            assert(text::starts(s, "."@));
        }
        if s.last() == '.' {
            assert(s.subrange(s.len() - 1, s.len() as int) =~= "."@);
            assert(text::ends(s, "."@));
        }
        if forall|j: int|
            0 <= j < s.len() ==> ('a' <= #[trigger] s[j] <= 'z' || 'A' <= s[j] <= 'Z' || '0' <= s[j]
                <= '9' || s[j] == '-' || s[j] == '_') {
            if text::occurs(s, ".."@) {
                let k = choose|k: int| text::occurs_at(s, k, ".."@);
                assert(s.subrange(k, k + 2)[0] == '.');
                assert(s[k] == '.');
            }
            if text::starts(s, "."@) {
                assert(s.subrange(0, 1)[0] == '.');
            }
            if text::ends(s, "."@) {
                assert(s.subrange(s.len() - 1, s.len() as int)[0] == '.');
            }
        }
    }
    if 0 <= i < s.len() && !ref_char(s[i]) {
        assert(!ref_safe(s));
    }
}

} // verus!
