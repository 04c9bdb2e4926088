//! Prompt and comment texts: placeholders, preambles, context.

use vstd::prelude::*;
use crate::strmap;
use crate::text::{self, chars_of, concat, contains, join, push_str, replace, slice_chars, trim};

verus! {

/// The mark that stands for a variable until its value is known.
pub open spec fn deferred(name: Seq<char>) -> Seq<char> {
    "__ATC_DEFER_"@ + name + "__"@
}

/// The variable as a template writes it.
pub open spec fn raw(name: Seq<char>) -> Seq<char> {
    "{{"@ + name + "}}"@
}

pub fn deferred_placeholder(name: &str) -> (r: String)
    ensures
        r@ == deferred(name@),
{
    let head = concat("__ATC_DEFER_", name);
    concat(head.as_str(), "__")
}

pub fn raw_placeholder(name: &str) -> (r: String)
    ensures
        r@ == raw(name@),
{
    let head = concat("{{", name);
    concat(head.as_str(), "}}")
}

/// The text with each variable replaced in turn, in both forms.
pub open spec fn with_variables(t: Seq<char>, vars: Seq<(String, String)>) -> Seq<char>
    decreases vars.len(),
{
    if vars.len() == 0 {
        t
    } else {
        let before = with_variables(t, vars.drop_last());
        let (k, v) = vars.last();
        text::replaced(text::replaced(before, deferred(k@), v@), raw(k@), v@)
    }
}

/// Puts the values that providers found in place of the variables.
pub fn apply_variables(t: &str, vars: &Vec<(String, String)>) -> (r: String)
    ensures
        r@ == with_variables(t@, vars@),
{
    let mut out = t.to_owned();
    let mut i: usize = 0;
    while i < vars.len()
        invariant
            i <= vars.len(),
            out@ == with_variables(t@, vars@.take(i as int)),
        decreases vars.len() - i,
    {
        proof {
            assert(vars@.take(i + 1).drop_last() =~= vars@.take(i as int));
            assert(vars@.take(i + 1).last() == vars@[i as int]);
        }
        let name = vars[i].0.as_str();
        let value = vars[i].1.as_str();
        out = replace(out.as_str(), deferred_placeholder(name).as_str(), value);
        out = replace(out.as_str(), raw_placeholder(name).as_str(), value);
        i += 1;
    }
    proof {
        assert(vars@.take(i as int) =~= vars@);
    }
    out
}

/// Puts the worktree path in place of `{{worktree}}` and its deferred form.
pub fn fill_worktree(t: &str, path: &str) -> (r: String)
    ensures
        r@ == text::replaced(
            text::replaced(t@, "{{worktree}}"@, path@),
            deferred("worktree"@),
            path@,
        ),
{
    let once = replace(t, "{{worktree}}", path);
    replace(once.as_str(), deferred_placeholder("worktree").as_str(), path)
}

/// Whether the default branch still has to be found out.
pub fn mentions_default_branch(prompt: &str, body: &Option<String>) -> (r: bool)
    ensures
        r == (text::occurs(prompt@, deferred("default_branch"@)) || (body is Some && text::occurs(
            body->0@,
            deferred("default_branch"@),
        ))),
{
    let mark = deferred_placeholder("default_branch");
    contains(prompt, mark.as_str()) || match body {
        Some(b) => contains(b.as_str(), mark.as_str()),
        None => false,
    }
}

/// Puts the default branch in place of its placeholder, in both forms.
pub fn fill_default_branch(t: &str, branch: &str) -> (r: String)
    ensures
        r@ == text::replaced(
            text::replaced(t@, deferred("default_branch"@), branch@),
            "{{default_branch}}"@,
            branch@,
        ),
{
    let once = replace(t, deferred_placeholder("default_branch").as_str(), branch);
    replace(once.as_str(), "{{default_branch}}", branch)
}

/// The prompt with the providers' sections in front, set apart by rules.
pub open spec fn with_preamble(sections: Seq<Seq<char>>, prompt: Seq<char>) -> Seq<char> {
    if sections.len() == 0 {
        prompt
    } else {
        text::joined(sections, "\n\n---\n\n"@) + "\n\n---\n\n"@ + prompt
    }
}

pub fn prepend_sections(sections: &Vec<String>, prompt: &str) -> (r: String)
    ensures
        r@ == with_preamble(text::views(sections@), prompt@),
{
    proof {
        assert(text::views(sections@).len() == sections@.len());
    }
    if sections.len() == 0 {
        return prompt.to_owned();
    }
    let mut out = join(sections, "\n\n---\n\n");
    push_str(&mut out, "\n\n---\n\n");
    push_str(&mut out, prompt);
    out
}

/// The line that tells an agent which repositories of a meta worktree it works
/// on; nothing where there is no such worktree or no repository.
pub open spec fn meta_context(is_meta: bool, repos: Seq<Seq<char>>, worktree: Seq<char>) -> Seq<char> {
    if is_meta && repos.len() > 0 {
        "\n**Meta worktree context:** The target repo(s): `"@ + text::joined(repos, "`, `"@)
            + "` within the worktree at `"@ + worktree + "`.\n"@
    } else {
        Seq::empty()
    }
}

pub fn meta_context_line(is_meta: bool, repos: &Vec<String>, worktree: &str) -> (r: String)
    ensures
        r@ == meta_context(is_meta, text::views(repos@), worktree@),
{
    proof {
        assert(text::views(repos@).len() == repos@.len());
    }
    if !is_meta || repos.len() == 0 {
        return String::new();
    }
    let mut out = concat(
        "\n**Meta worktree context:** The target repo(s): `",
        join(repos, "`, `").as_str(),
    );
    push_str(&mut out, "` within the worktree at `");
    push_str(&mut out, worktree);
    push_str(&mut out, "`.\n");
    out
}

/// What the agent is handed on standard input: nothing for a task, whose text
/// is fetched; the rendered template; else a marker.
pub open spec fn stdin_of(
    has_task: bool,
    body: Option<Seq<char>>,
    branch: Seq<char>,
) -> Option<Seq<char>> {
    if has_task {
        None
    } else {
        match body {
            Some(b) => Some(b),
            None => Some(
                "Non-task dispatch ("@ + branch
                    + "). All instructions are in the system prompt."@,
            ),
        }
    }
}

pub fn stdin_content(has_task: bool, body: &Option<String>, branch: &str) -> (r: Option<String>)
    ensures
        strmap::opt_view(r) == stdin_of(has_task, strmap::opt_view(*body), branch@),
{
    if has_task {
        return None;
    }
    match body {
        Some(b) => Some(b.clone()),
        None => {
            let head = concat("Non-task dispatch (", branch);
            Some(concat(head.as_str(), "). All instructions are in the system prompt."))
        },
    }
}

/// The text of the comment that announces an agent on a pull request.
pub open spec fn start_comment_template() -> Seq<char> {
    "**Agent starting:** `{{directive}}`\n\n{{#if task}}Task: `{{task}}`\n{{/if}}\nBranch: `{{branch}}`\nWorktree: `{{worktree}}`\nSession: `{{session}}`\n\nFollow along:\n\n    atc watch --id {{session}}\n"@
}

/// `s` without its `{{#if task}}` blocks, taken from the left. A block that is
/// not closed stays.
pub open spec fn without_blocks(s: Seq<char>) -> Seq<char>
    decreases s.len(),
{
    match text::first_occurrence(s, "{{#if task}}"@, 0) {
        None => s,
        Some(start) => match text::first_occurrence(s, "{{/if}}"@, start) {
            None => s,
            Some(end) => {
                let end_of_block = end + "{{/if}}"@.len();
                let rest = s.take(start) + s.skip(end_of_block);
                if 0 <= start < end_of_block <= s.len() {
                    without_blocks(rest)
                } else {
                    s
                }
            },
        },
    }
}

fn remove_blocks(s: &str) -> (r: String)
    ensures
        r@ == without_blocks(s@),
{
    let open = chars_of("{{#if task}}");
    let close = chars_of("{{/if}}");
    proof {
        reveal_strlit("{{/if}}");
    }
    let mut cur = s.to_owned();
    loop
        invariant
            open@ == "{{#if task}}"@,
            close@ == "{{/if}}"@,
            close@.len() == 7,
            without_blocks(cur@) == without_blocks(s@),
        ensures
            cur@ == without_blocks(s@),
        decreases cur@.len(),
    {
        let v = chars_of(cur.as_str());
        match text::find_first(&v, 0, &open) {
            None => {
                break;
            },
            Some(start) => match text::find_first(&v, start, &close) {
                None => {
                    break;
                },
                Some(end) => {
                    let head = slice_chars(&v, 0, start);
                    assert(end + close.len() <= v.len());
                    let tail = slice_chars(&v, end + close.len(), v.len());
                    proof {
                        assert(head@ =~= cur@.take(start as int));
                        assert(tail@ =~= cur@.skip(end + 7));
                    }
                    cur = concat(head.as_str(), tail.as_str());
                },
            },
        }
    }
    cur
}

/// `s` with runs of blank lines reduced to one.
pub open spec fn collapsed(s: Seq<char>) -> Seq<char>
    decreases s.len(),
{
    if text::occurs(s, "\n\n\n"@) {
        let next = text::replaced(s, "\n\n\n"@, "\n\n"@);
        if next.len() < s.len() {
            collapsed(next)
        } else {
            s
        }
    } else {
        s
    }
}

proof fn collapse_step_shrinks(s: Seq<char>)
    requires
        text::occurs(s, "\n\n\n"@),
    ensures
        text::replaced(s, "\n\n\n"@, "\n\n"@).len() < s.len(),
{
    reveal_strlit("\n\n\n");
    reveal_strlit("\n\n");
    text::replaced_len(s, 0, "\n\n\n"@, "\n\n"@);
    let j = choose|j: int| text::occurs_at(s, j, "\n\n\n"@);
    assert(0 <= j && text::occurs_at(s, j, "\n\n\n"@));
}

fn collapse_blank_lines(s: &str) -> (r: String)
    ensures
        r@ == collapsed(s@),
{
    let mut cur = s.to_owned();
    while contains(cur.as_str(), "\n\n\n")
        invariant
            collapsed(cur@) == collapsed(s@),
        decreases cur@.len(),
    {
        proof {
            collapse_step_shrinks(cur@);
        }
        cur = replace(cur.as_str(), "\n\n\n", "\n\n");
    }
    cur
}

/// After collapsing, no two blank lines follow each other.
pub proof fn collapsed_has_no_triple_newline(s: Seq<char>)
    ensures
        !text::occurs(collapsed(s), "\n\n\n"@),
    decreases s.len(),
{
    if text::occurs(s, "\n\n\n"@) {
        collapse_step_shrinks(s);
        collapsed_has_no_triple_newline(text::replaced(s, "\n\n\n"@, "\n\n"@));
    }
}

/// The announcement with its values put in, before blank lines are collapsed.
pub open spec fn filled_comment(
    template: Seq<char>,
    directive: Seq<char>,
    task: Option<Seq<char>>,
    branch: Seq<char>,
    worktree: Seq<char>,
    session: Seq<char>,
) -> Seq<char> {
    let t1 = text::replaced(template, "{{directive}}"@, directive);
    let t2 = text::replaced(t1, "{{branch}}"@, branch);
    let t3 = text::replaced(t2, "{{worktree}}"@, worktree);
    let t4 = text::replaced(t3, "{{session}}"@, session);
    match task {
        Some(name) => text::replaced(
            text::replaced(text::replaced(t4, "{{#if task}}"@, ""@), "{{/if}}"@, ""@),
            "{{task}}"@,
            name,
        ),
        None => without_blocks(t4),
    }
}

/// A template of the announcement with its values put in, and its blank lines
/// collapsed.
pub open spec fn start_comment(
    template: Seq<char>,
    directive: Seq<char>,
    task: Option<Seq<char>>,
    branch: Seq<char>,
    worktree: Seq<char>,
    session: Seq<char>,
) -> Seq<char> {
    text::trimmed(collapsed(filled_comment(template, directive, task, branch, worktree, session)))
}

/// A text that may be missing.
pub open spec fn slice_view(s: Option<&str>) -> Option<Seq<char>> {
    match s {
        Some(t) => Some(t@),
        None => None,
    }
}

/// Render a template of the PR start comment.
pub fn fill_start_comment(
    template: &str,
    directive: &str,
    task: Option<&str>,
    branch: &str,
    worktree: &str,
    session: &str,
) -> (r: String)
    ensures
        r@ == start_comment(
            template@,
            directive@,
            slice_view(task),
            branch@,
            worktree@,
            session@,
        ),
{
    let mut out = replace(template, "{{directive}}", directive);
    out = replace(out.as_str(), "{{branch}}", branch);
    out = replace(out.as_str(), "{{worktree}}", worktree);
    out = replace(out.as_str(), "{{session}}", session);
    match task {
        Some(name) => {
            out = replace(out.as_str(), "{{#if task}}", "");
            out = replace(out.as_str(), "{{/if}}", "");
            out = replace(out.as_str(), "{{task}}", name);
        },
        None => {
            out = remove_blocks(out.as_str());
        },
    }
    let flat = collapse_blank_lines(out.as_str());
    trim(flat.as_str())
}

/// Render the PR start comment.
pub fn render_pr_start_comment(
    directive: &str,
    task: Option<&str>,
    branch: &str,
    worktree: &str,
    session: &str,
) -> (r: String)
    ensures
        r@ == start_comment(
            start_comment_template(),
            directive@,
            slice_view(task),
            branch@,
            worktree@,
            session@,
        ),
{
    fill_start_comment(
        "**Agent starting:** `{{directive}}`\n\n{{#if task}}Task: `{{task}}`\n{{/if}}\nBranch: `{{branch}}`\nWorktree: `{{worktree}}`\nSession: `{{session}}`\n\nFollow along:\n\n    atc watch --id {{session}}\n",
        directive,
        task,
        branch,
        worktree,
        session,
    )
}

proof fn foreign_marks_stay(s: Seq<char>, pat: Seq<char>, rep: Seq<char>)
    requires
        !text::occurs(s, pat),
    ensures
        text::replaced(s, pat, rep) == s,
{
    text::replaced_without_occurrence(s, 0, pat, rep);
    assert(s.skip(0) =~= s);
}

proof fn no_occurrence_without_its_first(s: Seq<char>, pat: Seq<char>)
    requires
        pat.len() > 0,
        !s.contains(pat[0]),
    ensures
        !text::occurs(s, pat),
{
    if text::occurs(s, pat) {
        let j = choose|j: int| text::occurs_at(s, j, pat);
        assert(s.subrange(j, j + pat.len())[0] == pat[0]);
        assert(s.contains(s[j]));
    }
}

proof fn only_occurrence_is_replaced(a: Seq<char>, pat: Seq<char>, b: Seq<char>, rep: Seq<char>)
    requires
        pat.len() > 0,
        !a.contains(pat[0]),
        !b.contains(pat[0]),
    ensures
        text::replaced(a + pat + b, pat, rep) == a + rep + b,
{
    let s = a + pat + b;
    assert forall|j: int| 0 <= j < a.len() implies !text::occurs_at(s, j, pat) by {
        if text::occurs_at(s, j, pat) {
            assert(s.subrange(j, j + pat.len())[0] == pat[0]);
            assert(a.contains(a[j]));
        }
    }
    text::first_occurrences_are_replaced(a, pat, b, rep);
    no_occurrence_without_its_first(b, pat);
    foreign_marks_stay(b, pat, rep);
}

/// A variable gives way to its value, whether it is deferred or still as the
/// template writes it, and the text around it stays as it is. A variable that is
/// not in the text changes nothing.
pub proof fn variables_take_their_values(
    t: Seq<char>,
    vars: Seq<(String, String)>,
    name: String,
    value: String,
    a: Seq<char>,
    b: Seq<char>,
)
    requires
        !a.contains('_') && !a.contains('{'),
        !b.contains('_') && !b.contains('{'),
        !value@.contains('{'),
    ensures
        with_variables(t, Seq::empty()) == t,
        with_variables(t, vars) == a + "__ATC_DEFER_"@ + name@ + "__"@ + b ==> with_variables(
            t,
            vars.push((name, value)),
        ) == a + value@ + b,
        with_variables(t, vars) == a + "{{"@ + name@ + "}}"@ + b && !name@.contains('{')
            ==> with_variables(t, vars.push((name, value))) == a + value@ + b,
        with_variables(t, vars) == a ==> with_variables(t, vars.push((name, value))) == a,
{
    reveal_strlit("__ATC_DEFER_");
    reveal_strlit("__");
    reveal_strlit("{{");
    reveal_strlit("}}");
    let d = deferred(name@);
    let w = raw(name@);
    assert(d[0] == '_' && d.last() == '_' && d.len() == name@.len() + 14);
    assert(w[0] == '{');
    let before = with_variables(t, vars);
    assert(vars.push((name, value)).drop_last() =~= vars);
    let filled = a + value@ + b;
    assert(!filled.contains('{')) by {
        if filled.contains('{') {
            let i = choose|i: int| 0 <= i < filled.len() && filled[i] == '{';
            if i < a.len() {
                assert(a.contains(a[i]));
            } else if i < a.len() + value@.len() {
                assert(value@.contains(value@[i - a.len()]));
            } else {
                assert(b.contains(b[i - a.len() - value@.len()]));
            }
        }
    }
    if before == a + "__ATC_DEFER_"@ + name@ + "__"@ + b {
        assert(before =~= a + d + b);
        only_occurrence_is_replaced(a, d, b, value@);
        no_occurrence_without_its_first(filled, w);
        foreign_marks_stay(filled, w, value@);
    }
    if before == a + "{{"@ + name@ + "}}"@ + b && !name@.contains('{') {
        assert(before =~= a + w + b);
        assert(!text::occurs(before, d)) by {
            if text::occurs(before, d) {
                let j = choose|j: int| text::occurs_at(before, j, d);
                let n = a.len() as int;
                let m = n + w.len();
                let last = j + d.len() - 1;
                assert(before.subrange(j, j + d.len())[0] == d[0]);
                assert(before.subrange(j, j + d.len())[d.len() - 1] == d.last());
                assert(before[j] == '_' && before[last] == '_');
                if j < n {
                    assert(a.contains(a[j]));
                }
                if last < n {
                    assert(a.contains(a[last]));
                }
                if j >= m {
                    assert(b.contains(b[j - m]));
                }
                if last >= m {
                    assert(b.contains(b[last - m]));
                }
                assert(n <= j && last < m);
                assert(before[n] == '{' && before[n + 1] == '{' && before[m - 1] == '}' && before[m
                    - 2] == '}');
            }
        }
        foreign_marks_stay(before, d, value@);
        only_occurrence_is_replaced(a, w, b, value@);
    }
    if before == a {
        no_occurrence_without_its_first(a, d);
        no_occurrence_without_its_first(a, w);
        foreign_marks_stay(a, d, value@);
        foreign_marks_stay(a, w, value@);
    }
}

/// The prompt comes last and as it is; each section stands in front of it. Where
/// there is none, there is nothing but the prompt.
pub proof fn prompts_follow_their_sections(
    sections: Seq<Seq<char>>,
    prompt: Seq<char>,
    i: int,
)
    ensures
        with_preamble(Seq::empty(), prompt) == prompt,
        with_preamble(seq![sections[0]], prompt) == sections[0] + "\n\n---\n\n"@ + prompt,
        text::ends(with_preamble(sections, prompt), prompt),
        0 <= i < sections.len() ==> exists|k: int|
            {
                &&& #[trigger] text::occurs_at(with_preamble(sections, prompt), k, sections[i])
                &&& k + sections[i].len() + "\n\n---\n\n"@.len() + prompt.len() <= with_preamble(
                    sections,
                    prompt,
                ).len()
            },
{
    let all = with_preamble(sections, prompt);
    assert(all.subrange(all.len() - prompt.len(), all.len() as int) =~= prompt);
    assert(text::joined(seq![sections[0]], "\n\n---\n\n"@) =~= sections[0]);
    if 0 <= i < sections.len() {
        text::joined_holds_its_pieces(sections, "\n\n---\n\n"@, i);
        let front = text::joined(sections, "\n\n---\n\n"@);
        let k = choose|k: int| text::occurs_at(front, k, sections[i]);
        assert(all.subrange(k, k + sections[i].len()) =~= front.subrange(k, k + sections[i].len()));
        assert(text::occurs_at(all, k, sections[i]));
    }
}

/// The agent is told of its repositories in a meta worktree, each of them and the
/// worktree, and of nothing elsewhere.
pub proof fn meta_worktrees_are_explained(
    repos: Seq<Seq<char>>,
    worktree: Seq<char>,
    i: int,
)
    ensures
        meta_context(false, repos, worktree).len() == 0,
        meta_context(true, Seq::empty(), worktree).len() == 0,
        0 <= i < repos.len() ==> {
            &&& text::occurs(meta_context(true, repos, worktree), repos[i])
            &&& text::ends(
                meta_context(true, repos, worktree),
                "the worktree at `"@ + worktree + "`.\n"@,
            )
        },
{
    if 0 <= i < repos.len() {
        text::joined_holds_its_pieces(repos, "`, `"@, i);
        let list = text::joined(repos, "`, `"@);
        let k = choose|k: int| text::occurs_at(list, k, repos[i]);
        let all = meta_context(true, repos, worktree);
        let n = "\n**Meta worktree context:** The target repo(s): `"@.len();
        assert(all.subrange(n + k, n + k + repos[i].len()) =~= list.subrange(
            k,
            k + repos[i].len(),
        ));
        assert(text::occurs_at(all, n + k, repos[i]));
        reveal_strlit("` within the worktree at `");
        reveal_strlit("the worktree at `");
        let end = "the worktree at `"@ + worktree + "`.\n"@;
        assert(all.subrange(all.len() - end.len(), all.len() as int) =~= end);
    }
}

/// An agent with a task is handed nothing; one with a template gets it as it was
/// rendered; any other gets a note that names its branch.
pub proof fn agents_are_handed_their_template(body: Seq<char>, branch: Seq<char>)
    ensures
        stdin_of(true, None, branch) is None,
        stdin_of(true, Some(body), branch) is None,
        stdin_of(false, Some(body), branch) == Some(body),
        stdin_of(false, None, branch) matches Some(note) && text::occurs(
            note,
            "("@ + branch + ")"@,
        ),
{
    reveal_strlit("Non-task dispatch (");
    reveal_strlit("(");
    reveal_strlit(")");
    reveal_strlit("). All instructions are in the system prompt.");
    let note = stdin_of(false, None, branch)->0;
    let p = "("@ + branch + ")"@;
    assert(note.subrange(18, 18 + p.len() as int) =~= p);
    assert(text::occurs_at(note, 18, p));
}

proof fn other_marks_stay(
    a: Seq<char>,
    mark: Seq<char>,
    b: Seq<char>,
    pat: Seq<char>,
    rep: Seq<char>,
)
    requires
        !a.contains('{') && !b.contains('{'),
        mark.len() > 2 && pat.len() > 2,
        pat[0] == '{' && pat[1] == '{',
        mark[0] == '{' && mark[1] == '{',
        forall|i: int| 2 <= i < mark.len() ==> mark[i] != '{',
        mark[2] != pat[2],
    ensures
        !text::occurs(a + mark + b, pat),
        text::replaced(a + mark + b, pat, rep) == a + mark + b,
{
    let s = a + mark + b;
    if text::occurs(s, pat) {
        let j = choose|j: int| text::occurs_at(s, j, pat);
        let sub = s.subrange(j, j + pat.len());
        assert(sub[0] == pat[0] && sub[1] == pat[1] && sub[2] == pat[2]);
        assert(s[j] == '{' && s[j + 1] == '{' && s[j + 2] == pat[2]);
        let n = a.len() as int;
        if j < n {
            assert(a.contains(a[j]));
        } else if j >= n + mark.len() {
            assert(b.contains(b[j - n - mark.len()]));
        } else if j > n + 1 {
            assert(mark[j - n] != '{');
        } else if j == n + 1 {
            assert(mark[2] != '{');
        }
    }
    foreign_marks_stay(s, pat, rep);
}

proof fn brace_free_sum(a: Seq<char>, x: Seq<char>, b: Seq<char>)
    requires
        !a.contains('{') && !x.contains('{') && !b.contains('{'),
    ensures
        !(a + x + b).contains('{'),
{
    let s = a + x + b;
    if s.contains('{') {
        let i = choose|i: int| 0 <= i < s.len() && s[i] == '{';
        if i < a.len() {
            assert(a.contains(a[i]));
        } else if i < a.len() + x.len() {
            assert(x.contains(x[i - a.len()]));
        } else {
            assert(b.contains(b[i - a.len() - x.len()]));
        }
    }
}

proof fn marks_of_the_announcement()
    ensures
        forall|i: int| 2 <= i < "{{directive}}"@.len() ==> "{{directive}}"@[i] != '{',
        forall|i: int| 2 <= i < "{{branch}}"@.len() ==> "{{branch}}"@[i] != '{',
        forall|i: int| 2 <= i < "{{worktree}}"@.len() ==> "{{worktree}}"@[i] != '{',
        forall|i: int| 2 <= i < "{{session}}"@.len() ==> "{{session}}"@[i] != '{',
        forall|i: int| 2 <= i < "{{task}}"@.len() ==> "{{task}}"@[i] != '{',
        "{{directive}}"@.len() > 2 && "{{directive}}"@[0] == '{' && "{{directive}}"@[1] == '{'
            && "{{directive}}"@[2] == 'd',
        "{{branch}}"@.len() > 2 && "{{branch}}"@[0] == '{' && "{{branch}}"@[1] == '{'
            && "{{branch}}"@[2] == 'b',
        "{{worktree}}"@.len() > 2 && "{{worktree}}"@[0] == '{' && "{{worktree}}"@[1] == '{'
            && "{{worktree}}"@[2] == 'w',
        "{{session}}"@.len() > 2 && "{{session}}"@[0] == '{' && "{{session}}"@[1] == '{'
            && "{{session}}"@[2] == 's',
        "{{task}}"@.len() > 2 && "{{task}}"@[0] == '{' && "{{task}}"@[1] == '{' && "{{task}}"@[2]
            == 't',
        "{{#if task}}"@.len() > 2 && "{{#if task}}"@[0] == '{' && "{{#if task}}"@[1] == '{'
            && "{{#if task}}"@[2] == '#',
        "{{/if}}"@.len() > 2 && "{{/if}}"@[0] == '{' && "{{/if}}"@[1] == '{' && "{{/if}}"@[2]
            == '/',
        ""@.len() == 0,
{
    reveal_strlit("{{directive}}");
    reveal_strlit("{{branch}}");
    reveal_strlit("{{worktree}}");
    reveal_strlit("{{session}}");
    reveal_strlit("{{task}}");
    reveal_strlit("{{#if task}}");
    reveal_strlit("{{/if}}");
    reveal_strlit("");
}

proof fn plain_text_stays(
    s: Seq<char>,
    directive: Seq<char>,
    task: Option<Seq<char>>,
    branch: Seq<char>,
    worktree: Seq<char>,
    session: Seq<char>,
)
    requires
        !s.contains('{'),
    ensures
        filled_comment(s, directive, task, branch, worktree, session) == s,
        text::replaced(s, "{{directive}}"@, directive) == s,
        text::replaced(s, "{{branch}}"@, branch) == s,
        text::replaced(s, "{{worktree}}"@, worktree) == s,
        text::replaced(s, "{{session}}"@, session) == s,
{
    marks_of_the_announcement();
    no_occurrence_without_its_first(s, "{{directive}}"@);
    no_occurrence_without_its_first(s, "{{branch}}"@);
    no_occurrence_without_its_first(s, "{{worktree}}"@);
    no_occurrence_without_its_first(s, "{{session}}"@);
    no_occurrence_without_its_first(s, "{{task}}"@);
    no_occurrence_without_its_first(s, "{{#if task}}"@);
    no_occurrence_without_its_first(s, "{{/if}}"@);
    foreign_marks_stay(s, "{{directive}}"@, directive);
    foreign_marks_stay(s, "{{branch}}"@, branch);
    foreign_marks_stay(s, "{{worktree}}"@, worktree);
    foreign_marks_stay(s, "{{session}}"@, session);
    foreign_marks_stay(s, "{{#if task}}"@, ""@);
    foreign_marks_stay(s, "{{/if}}"@, ""@);
    if let Some(name) = task {
        foreign_marks_stay(s, "{{task}}"@, name);
    }
    text::missing_is_not_found(s, "{{#if task}}"@, 0);
}

/// Each mark in a template of the announcement gives way to the value it is for,
/// and the text around it stays.
pub proof fn announcements_take_their_values(
    a: Seq<char>,
    b: Seq<char>,
    directive: Seq<char>,
    task: Option<Seq<char>>,
    branch: Seq<char>,
    worktree: Seq<char>,
    session: Seq<char>,
)
    requires
        !a.contains('{') && !b.contains('{'),
        !directive.contains('{') && !branch.contains('{') && !worktree.contains('{')
            && !session.contains('{'),
    ensures
        filled_comment(a + "{{directive}}"@ + b, directive, task, branch, worktree, session) == a
            + directive + b,
        filled_comment(a + "{{branch}}"@ + b, directive, task, branch, worktree, session) == a
            + branch + b,
        filled_comment(a + "{{worktree}}"@ + b, directive, task, branch, worktree, session) == a
            + worktree + b,
        filled_comment(a + "{{session}}"@ + b, directive, task, branch, worktree, session) == a
            + session + b,
        task matches Some(name) ==> filled_comment(
            a + "{{task}}"@ + b,
            directive,
            task,
            branch,
            worktree,
            session,
        ) == a + name + b,
        filled_comment(a, directive, task, branch, worktree, session) == a,
{
    marks_of_the_announcement();
    plain_text_stays(a, directive, task, branch, worktree, session);

    brace_free_sum(a, directive, b);
    only_occurrence_is_replaced(a, "{{directive}}"@, b, directive);
    plain_text_stays(a + directive + b, directive, task, branch, worktree, session);

    brace_free_sum(a, branch, b);
    other_marks_stay(a, "{{branch}}"@, b, "{{directive}}"@, directive);
    only_occurrence_is_replaced(a, "{{branch}}"@, b, branch);
    plain_text_stays(a + branch + b, directive, task, branch, worktree, session);

    brace_free_sum(a, worktree, b);
    other_marks_stay(a, "{{worktree}}"@, b, "{{directive}}"@, directive);
    other_marks_stay(a, "{{worktree}}"@, b, "{{branch}}"@, branch);
    only_occurrence_is_replaced(a, "{{worktree}}"@, b, worktree);
    plain_text_stays(a + worktree + b, directive, task, branch, worktree, session);

    brace_free_sum(a, session, b);
    other_marks_stay(a, "{{session}}"@, b, "{{directive}}"@, directive);
    other_marks_stay(a, "{{session}}"@, b, "{{branch}}"@, branch);
    other_marks_stay(a, "{{session}}"@, b, "{{worktree}}"@, worktree);
    only_occurrence_is_replaced(a, "{{session}}"@, b, session);
    plain_text_stays(a + session + b, directive, task, branch, worktree, session);

    if let Some(name) = task {
        other_marks_stay(a, "{{task}}"@, b, "{{directive}}"@, directive);
        other_marks_stay(a, "{{task}}"@, b, "{{branch}}"@, branch);
        other_marks_stay(a, "{{task}}"@, b, "{{worktree}}"@, worktree);
        other_marks_stay(a, "{{task}}"@, b, "{{session}}"@, session);
        other_marks_stay(a, "{{task}}"@, b, "{{#if task}}"@, ""@);
        other_marks_stay(a, "{{task}}"@, b, "{{/if}}"@, ""@);
        only_occurrence_is_replaced(a, "{{task}}"@, b, name);
    }
}

/// What stands in a block for the task is left out where there is no task.
pub proof fn blocks_need_a_task(a: Seq<char>, x: Seq<char>, b: Seq<char>)
    requires
        !a.contains('{') && !x.contains('{') && !b.contains('{'),
    ensures
        without_blocks(a + "{{#if task}}"@ + x + "{{/if}}"@ + b) == a + b,
        without_blocks(a) == a,
        text::replaced(
            text::replaced(a + "{{#if task}}"@ + x + "{{/if}}"@ + b, "{{#if task}}"@, ""@),
            "{{/if}}"@,
            ""@,
        ) == a + x + b,
{
    marks_of_the_announcement();
    let open = "{{#if task}}"@;
    let close = "{{/if}}"@;
    let s = a + open + x + close + b;
    let n = a.len() as int;
    let m = n + open.len() + x.len();
    reveal_strlit("{{#if task}}");
    reveal_strlit("{{/if}}");
    assert(s.subrange(n, n + open.len()) =~= open);
    assert forall|j: int| 0 <= j < n implies !text::occurs_at(s, j, open) by {
        if text::occurs_at(s, j, open) {
            assert(s.subrange(j, j + open.len())[0] == open[0]);
            assert(a.contains(a[j]));
        }
    }
    text::first_is_found(s, open, 0, n);
    assert(s.subrange(m, m + close.len()) =~= close);
    assert forall|j: int| n <= j < m implies !text::occurs_at(s, j, close) by {
        if text::occurs_at(s, j, close) {
            let sub = s.subrange(j, j + close.len());
            assert(sub[0] == close[0] && sub[1] == close[1] && sub[2] == close[2]);
            assert(s[j] == '{' && s[j + 1] == '{' && s[j + 2] == '/');
            if j >= n + open.len() {
                assert(x.contains(x[j - n - open.len()]));
            } else {
                assert(s[j] == open[j - n]);
            }
        }
    }
    text::first_is_found(s, close, n, m);
    let rest = a + b;
    assert(s.take(n) + s.skip(m + close.len()) =~= rest);
    brace_free_sum(a, Seq::empty(), b);
    assert(a + Seq::<char>::empty() + b =~= rest);
    no_occurrence_without_its_first(rest, open);
    text::missing_is_not_found(rest, open, 0);
    assert(without_blocks(rest) == rest);
    assert(without_blocks(s) == rest);
    no_occurrence_without_its_first(a, open);
    text::missing_is_not_found(a, open, 0);

    let tail = x + close + b;
    assert(s =~= a + open + tail);
    text::first_occurrences_are_replaced(a, open, tail, ""@);
    other_marks_stay(x, close, b, open, ""@);
    let mid = a + x;
    assert(a + ""@ + tail =~= mid + close + b);
    brace_free_sum(a, Seq::empty(), x);
    assert(a + Seq::<char>::empty() + x =~= mid);
    only_occurrence_is_replaced(mid, close, b, ""@);
    assert(mid + ""@ + b =~= a + x + b);
}

} // verus!
