//! Shared dispatch rules: names, identifiers, pull request links, workspaces
//! and worktrees.

use vstd::prelude::*;
use vstd::string::StrSliceExecFns;
use vstd::utf8::encode_utf8;
use crate::json::{self, count_at, find_fault, holds_at, names_at, pointer_to, text_at};
use crate::text::{self, chars_of, concat, contains, push_str, same, slice_chars, split, starts_with, trim, write_hex, write_i64, write_u64};
use crate::strmap;
use crate::types::Directive;

verus! {

/// `s` with every `/` written as `--`.
pub open spec fn sanitized(s: Seq<char>) -> Seq<char>
    decreases s.len(),
{
    if s.len() == 0 {
        Seq::empty()
    } else if s[0] == '/' {
        seq!['-', '-'] + sanitized(s.skip(1))
    } else {
        seq![s[0]] + sanitized(s.skip(1))
    }
}

/// Sanitize a string by replacing `/` with `--`. Used for:
/// - Deriving branch names from slugs (`tasks/foo` becomes `tasks--foo`)
/// - Sanitizing branch names for worktree names and dispatch IDs
pub fn sanitize_slashes(s: &str) -> (r: String)
    ensures
        r@ == sanitized(s@),
{
    let v = chars_of(s);
    let mut out = String::new();
    let mut i: usize = 0;
    proof {
        assert(v@.skip(0) =~= s@);
        assert(out@ + sanitized(s@) =~= sanitized(s@));
    }
    while i < v.len()
        invariant
            i <= v.len(),
            v@ == s@,
            out@ + sanitized(v@.skip(i as int)) == sanitized(s@),
        decreases v.len() - i,
    {
        proof {
            assert(v@.skip(i as int)[0] == v@[i as int]);
            assert(v@.skip(i as int).skip(1) =~= v@.skip(i + 1));
        }
        let ghost before = out@;
        if v[i] == '/' {
            out.push('-');
            out.push('-');
            proof {
                assert(out@ =~= before + seq!['-', '-']);
            }
        } else {
            out.push(v[i]);
            proof {
                assert(out@ =~= before + seq![v@[i as int]]);
            }
        }
        i += 1;
        proof {
            assert(out@ + sanitized(v@.skip(i as int)) =~= sanitized(s@));
        }
    }
    proof {
        assert(out@ + Seq::<char>::empty() =~= out@);
    }
    out
}

/// Derive branch name from slug: replace `/` with `--`.
pub fn derive_branch(slug: &str) -> (r: String)
    ensures
        r@ == sanitized(slug@),
{
    sanitize_slashes(slug)
}

/// `t` with every `--`, taken from the left, written as `/`.
pub open spec fn desanitized(t: Seq<char>) -> Seq<char>
    decreases t.len(),
{
    if t.len() == 0 {
        Seq::empty()
    } else if t.len() >= 2 && t[0] == '-' && t[1] == '-' {
        seq!['/'] + desanitized(t.skip(2))
    } else {
        seq![t[0]] + desanitized(t.skip(1))
    }
}

/// No part of the slug holds `--`, and none that a slash follows ends in `-`.
pub open spec fn plain_slug(s: Seq<char>) -> bool {
    forall|i: int|
        0 <= i < s.len() - 1 && #[trigger] s[i] == '-' ==> s[i + 1] != '-' && s[i + 1] != '/'
}

/// A plain slug can be read back from its branch name.
pub proof fn branch_determines_slug(s: Seq<char>)
    requires
        plain_slug(s),
    ensures
        desanitized(sanitized(s)) == s,
    decreases s.len(),
{
    if s.len() > 0 {
        let rest = s.skip(1);
        assert(plain_slug(rest)) by {
            assert forall|i: int| 0 <= i < rest.len() - 1 && #[trigger] rest[i] == '-' implies rest[i
                + 1] != '-' && rest[i + 1] != '/' by {
                assert(s[i + 1] == rest[i]);
            }
        }
        branch_determines_slug(rest);
        let t = sanitized(s);
        if s[0] == '/' {
            assert(t.skip(2) =~= sanitized(rest));
        } else {
            assert(t.skip(1) =~= sanitized(rest));
            if rest.len() > 0 {
                assert(rest[0] == s[1]);
                assert(t[1] == sanitized(rest)[0]);
            }
            if s[0] == '-' && s.len() > 1 {
                assert(s[0] == '-');
                assert(t[1] != '-');
            }
        }
        assert(desanitized(t) =~= s);
    } else {
        assert(s =~= Seq::<char>::empty());
    }
}

/// Two plain slugs with one branch name are the same slug.
pub proof fn branch_names_are_distinct(a: Seq<char>, b: Seq<char>)
    requires
        plain_slug(a),
        plain_slug(b),
        sanitized(a) == sanitized(b),
    ensures
        a == b,
{
    branch_determines_slug(a);
    branch_determines_slug(b);
}

/// A sanitized name holds no slash.
pub proof fn sanitized_has_no_slash(s: Seq<char>)
    ensures
        !sanitized(s).contains('/'),
    decreases s.len(),
{
    if s.len() > 0 {
        sanitized_has_no_slash(s.skip(1));
        let rest = sanitized(s.skip(1));
        let t = sanitized(s);
        if t.contains('/') {
            let i = choose|i: int| 0 <= i < t.len() && t[i] == '/';
            let off: int = if s[0] == '/' { 2 } else { 1 };
            if i >= off {
                assert(rest[i - off] == '/');
            }
            assert(false);
        }
    }
}

/// A name without slashes is its own sanitized form.
pub proof fn sanitized_keeps_plain_names(s: Seq<char>)
    requires
        !s.contains('/'),
    ensures
        sanitized(s) == s,
    decreases s.len(),
{
    if s.len() > 0 {
        assert(s[0] != '/');
        assert(!s.skip(1).contains('/')) by {
            if s.skip(1).contains('/') {
                let i = choose|i: int| 0 <= i < s.skip(1).len() && s.skip(1)[i] == '/';
                assert(s[i + 1] == '/');
            }
        }
        sanitized_keeps_plain_names(s.skip(1));
        assert(seq![s[0]] + s.skip(1) =~= s);
    } else {
        assert(s =~= Seq::<char>::empty());
    }
}

/// The suffix that tells apart identifiers made within one millisecond.
pub open spec fn id_suffix(pid: u32, seq: u32) -> u32 {
    (pid ^ seq) & 0xffff
}

/// `<branch>@<directive>@<unix-ms>-<4 hex digits>`.
pub open spec fn dispatch_id(
    branch: Seq<char>,
    directive: Directive,
    unix_ms: int,
    suffix: nat,
) -> Seq<char> {
    sanitized(branch) + "@"@ + directive.name() + "@"@ + text::decimal_int(unix_ms) + "-"@
        + text::padded_left(text::numeral(suffix, 16), '0', 4)
}

/// Judges a branch name, given whether git accepts it.
pub fn validate_branch_name(branch: &str, accepted: bool) -> (r: Result<(), String>)
    ensures
        if accepted {
            r is Ok
        } else {
            r matches Err(e) && e@ == "invalid branch name '"@ + branch@
                + "': git check-ref-format rejected it"@
        },
{
    if accepted {
        Ok(())
    } else {
        let mut e = concat("invalid branch name '", branch);
        push_str(&mut e, "': git check-ref-format rejected it");
        Err(e)
    }
}

/// Build dispatch ID: `<branch>@<directive>@<unix-ms>-<rand>`.
///
/// The 4-hex-digit suffix mixes a running number with the process ID. Nothing else
/// enters it, so that within a process the running number alone keeps identifiers
/// apart.
pub fn build_dispatch_id(
    branch: &str,
    directive: Directive,
    unix_ms: i64,
    pid: u32,
    seq: u32,
) -> (r: String)
    ensures
        r@ == dispatch_id(
            branch@,
            directive,
            unix_ms as int,
            id_suffix(pid, seq) as nat,
        ),
{
    let mut id = sanitize_slashes(branch);
    push_str(&mut id, "@");
    push_str(&mut id, directive.as_str());
    push_str(&mut id, "@");
    push_str(&mut id, write_i64(unix_ms).as_str());
    push_str(&mut id, "-");
    let suffix: u32 = (pid ^ seq) & 0xffff;
    push_str(&mut id, write_hex(suffix as u64, 4).as_str());
    id
}

spec fn hex_digit_value(c: char) -> int {
    if c <= '9' {
        c as int - 48
    } else {
        c as int - 87
    }
}

spec fn hex_value(s: Seq<char>) -> int
    decreases s.len(),
{
    if s.len() == 0 {
        0
    } else {
        hex_value(s.drop_last()) * 16 + hex_digit_value(s.last())
    }
}

proof fn hex_value_of_numeral(n: nat)
    ensures
        hex_value(text::numeral(n, 16)) == n,
        text::numeral(n, 16).len() >= 1,
    decreases n,
{
    let s = text::numeral(n, 16);
    if n < 16 {
        assert(s.drop_last() =~= Seq::<char>::empty());
        assert(hex_value(s.drop_last()) == 0);
    } else {
        hex_value_of_numeral(n / 16);
        assert(s.drop_last() =~= text::numeral(n / 16, 16));
        assert(n == (n / 16) * 16 + n % 16);
    }
}

proof fn hex_value_skips_zeros(k: nat, s: Seq<char>)
    ensures
        hex_value(Seq::new(k, |i: int| '0') + s) == hex_value(s),
    decreases s.len() + k,
{
    let z = Seq::new(k, |i: int| '0');
    if s.len() > 0 {
        assert((z + s).drop_last() =~= z + s.drop_last());
        hex_value_skips_zeros(k, s.drop_last());
    } else if k > 0 {
        let y = Seq::new((k - 1) as nat, |i: int| '0');
        assert((z + s).drop_last() =~= y + Seq::<char>::empty());
        hex_value_skips_zeros((k - 1) as nat, Seq::<char>::empty());
    } else {
        assert(z + s =~= s);
    }
}

proof fn suffix_has_four_digits(n: nat)
    requires
        n < 0x10000,
    ensures
        text::padded_left(text::numeral(n, 16), '0', 4).len() == 4,
        hex_value(text::padded_left(text::numeral(n, 16), '0', 4)) == n,
{
    reveal_with_fuel(text::numeral, 5);
    assert(text::numeral(n, 16).len() <= 4);
    hex_value_of_numeral(n);
    hex_value_skips_zeros((4 - text::numeral(n, 16).len()) as nat, text::numeral(n, 16));
}

/// Identifiers with different suffix numbers differ, whatever branch, directive
/// and time they are made for.
pub proof fn dispatch_ids_are_distinct(
    branch: Seq<char>,
    directive: Directive,
    unix_ms: int,
    a: nat,
    branch2: Seq<char>,
    directive2: Directive,
    unix_ms2: int,
    b: nat,
)
    requires
        a < 0x10000,
        b < 0x10000,
        a != b,
    ensures
        dispatch_id(branch, directive, unix_ms, a) != dispatch_id(
            branch2,
            directive2,
            unix_ms2,
            b,
        ),
{
    let x = text::padded_left(text::numeral(a, 16), '0', 4);
    let y = text::padded_left(text::numeral(b, 16), '0', 4);
    let p = dispatch_id(branch, directive, unix_ms, a);
    let q = dispatch_id(branch2, directive2, unix_ms2, b);
    suffix_has_four_digits(a);
    suffix_has_four_digits(b);
    assert(p.skip(p.len() - 4) =~= x);
    assert(q.skip(q.len() - 4) =~= y);
}

/// Two calls in one process give different identifiers, at whatever times and for
/// whatever branches and directives they are made, as long as their running
/// numbers differ in the low 16 bits.
pub proof fn sequence_number_separates_ids(
    branch: Seq<char>,
    directive: Directive,
    unix_ms: int,
    s: u32,
    branch2: Seq<char>,
    directive2: Directive,
    unix_ms2: int,
    t: u32,
    pid: u32,
)
    requires
        s & 0xffff != t & 0xffff,
    ensures
        dispatch_id(branch, directive, unix_ms, id_suffix(pid, s) as nat) != dispatch_id(
            branch2,
            directive2,
            unix_ms2,
            id_suffix(pid, t) as nat,
        ),
{
    assert(s & 0xffff != t & 0xffff ==> (pid ^ s) & 0xffff != (pid ^ t) & 0xffff) by (bit_vector);
    assert((pid ^ s) & 0xffff < 0x10000 && (pid ^ t) & 0xffff < 0x10000) by (bit_vector);
    dispatch_ids_are_distinct(
        branch,
        directive,
        unix_ms,
        id_suffix(pid, s) as nat,
        branch2,
        directive2,
        unix_ms2,
        id_suffix(pid, t) as nat,
    );
}

proof fn no_slash_in_numeral(n: nat, base: nat)
    requires
        2 <= base <= 16,
    ensures
        !text::numeral(n, base).contains('/'),
    decreases n,
{
    let s = text::numeral(n, base);
    let last = if n < base {
        n as int
    } else {
        (n % base) as int
    };
    assert(0 <= last < 16) by {
        assert(n % base < base) by (nonlinear_arith)
            requires
                base >= 2,
        ;
    }
    assert(text::digit(last) != '/');
    if n >= base {
        assert(n / base < n) by (nonlinear_arith)
            requires
                n >= base >= 2,
        ;
        no_slash_in_numeral(n / base, base);
        if s.contains('/') {
            let i = choose|i: int| 0 <= i < s.len() && s[i] == '/';
            if i < s.len() - 1 {
                assert(text::numeral(n / base, base)[i] == '/');
            }
        }
    }
}

proof fn concat_lacks(a: Seq<char>, b: Seq<char>, c: char)
    requires
        !a.contains(c),
        !b.contains(c),
    ensures
        !(a + b).contains(c),
{
    if (a + b).contains(c) {
        let i = choose|i: int| 0 <= i < (a + b).len() && (a + b)[i] == c;
        if i < a.len() {
            assert(a[i] == c);
        } else {
            assert(b[i - a.len()] == c);
        }
    }
}

/// A dispatch identifier holds no slash, so it can name a file.
pub proof fn dispatch_id_has_no_slash(
    branch: Seq<char>,
    directive: Directive,
    unix_ms: int,
    suffix: nat,
)
    ensures
        !dispatch_id(branch, directive, unix_ms, suffix).contains('/'),
{
    sanitized_has_no_slash(branch);
    reveal_strlit("@");
    reveal_strlit("-");
    reveal_strlit("implement");
    reveal_strlit("research");
    reveal_strlit("kb-update");
    reveal_strlit("review-fix");
    reveal_strlit("pr-comments");
    reveal_strlit("refine");
    reveal_strlit("create-task");
    reveal_strlit("close");
    assert(!directive.name().contains('/'));
    let n: nat = if unix_ms < 0 {
        (-unix_ms) as nat
    } else {
        unix_ms as nat
    };
    no_slash_in_numeral(n, 10);
    no_slash_in_numeral(suffix, 16);
    concat_lacks(seq!['-'], text::decimal(n), '/');
    let hex = text::numeral(suffix, 16);
    let zeros = Seq::new((4 - hex.len()) as nat, |i: int| '0');
    assert(!zeros.contains('/'));
    concat_lacks(zeros, hex, '/');
    let p1 = sanitized(branch) + "@"@;
    concat_lacks(sanitized(branch), "@"@, '/');
    concat_lacks(p1, directive.name(), '/');
    let p2 = p1 + directive.name();
    concat_lacks(p2, "@"@, '/');
    let p3 = p2 + "@"@;
    concat_lacks(p3, text::decimal_int(unix_ms), '/');
    let p4 = p3 + text::decimal_int(unix_ms);
    concat_lacks(p4, "-"@, '/');
    concat_lacks(p4 + "-"@, text::padded_left(hex, '0', 4), '/');
}

/// The ASCII digits of `s`, in order.
pub open spec fn digits_of(s: Seq<char>) -> Seq<char> {
    s.filter(|c: char| '0' <= c <= '9')
}

fn keep_digits(s: &str) -> (r: String)
    ensures
        r@ == digits_of(s@),
{
    let v = chars_of(s);
    let ghost pred = |c: char| '0' <= c <= '9';
    let mut out = String::new();
    let mut i: usize = 0;
    proof {
        reveal(Seq::filter);
        assert(s@.take(0).filter(pred) =~= Seq::<char>::empty());
    }
    while i < v.len()
        invariant
            i <= v.len(),
            v@ == s@,
            pred == (|c: char| '0' <= c <= '9'),
            out@ == s@.take(i as int).filter(pred),
        decreases v.len() - i,
    {
        proof {
            reveal(Seq::filter);
            assert(s@.take(i + 1).drop_last() =~= s@.take(i as int));
            assert(s@.take(i + 1).last() == s@[i as int]);
        }
        if '0' <= v[i] && v[i] <= '9' {
            out.push(v[i]);
        }
        i += 1;
    }
    proof {
        assert(s@.take(i as int) =~= s@);
    }
    out
}

/// The kind of comment a URL fragment names.
pub open spec fn comment_kind(fragment: Seq<char>) -> Option<Seq<char>> {
    if text::starts(fragment, "issuecomment-"@) {
        Some("issue"@)
    } else if text::starts(fragment, "discussion_r"@) {
        Some("review_comment"@)
    } else if text::starts(fragment, "pullrequestreview-"@) {
        Some("review"@)
    } else {
        None
    }
}

/// The comment number and kind that a URL names in its fragment: what stands
/// between the first and the second `#`.
pub open spec fn comment_of(url: Seq<char>) -> Option<(Seq<char>, Seq<char>)> {
    let parts = text::split_on(url, '#');
    if parts.len() < 2 {
        None
    } else {
        match comment_kind(parts[1]) {
            Some(kind) => if digits_of(parts[1]).len() == 0 {
                None
            } else {
                Some((digits_of(parts[1]), kind))
            },
            None => None,
        }
    }
}

/// Parse a comment URL to extract the comment ID and type.
///
/// Returns `(comment_id, comment_type)` where comment_type is one of
/// "issue", "review_comment", "review"; both are absent if unrecognized.
pub fn parse_comment_url(comment_url: &str) -> (r: (Option<String>, Option<String>))
    ensures
        match comment_of(comment_url@) {
            Some((id, kind)) => strmap::opt_view(r.0) == Some(id) && strmap::opt_view(r.1) == Some(
                kind,
            ),
            None => r.0 is None && r.1 is None,
        },
{
    let parts = split(comment_url, '#');
    proof {
        assert(text::views(parts@).len() == parts@.len());
    }
    if parts.len() < 2 {
        return (None, None);
    }
    proof {
        assert(text::views(parts@)[1] == parts@[1]@);
    }
    let fragment = parts[1].as_str();
    let id = keep_digits(fragment);
    let kind = if starts_with(fragment, "issuecomment-") {
        "issue"
    } else if starts_with(fragment, "discussion_r") {
        "review_comment"
    } else if starts_with(fragment, "pullrequestreview-") {
        "review"
    } else {
        return (None, None);
    };
    if id.as_str().is_empty() {
        return (None, None);
    }
    (Some(id), Some(kind.to_owned()))
}

/// The URL without its fragment, if it looks like a pull request.
pub open spec fn pr_url_of_comment(url: Seq<char>) -> Option<Seq<char>> {
    let base = text::split_on(url, '#')[0];
    if text::occurs(base, "/pull/"@) {
        Some(base)
    } else {
        None
    }
}

/// Derive a PR URL from a comment URL by stripping the fragment.
pub fn derive_pr_url_from_comment(comment_url: &str) -> (r: Option<String>)
    ensures
        strmap::opt_view(r) == pr_url_of_comment(comment_url@),
{
    let parts = split(comment_url, '#');
    proof {
        assert(text::views(parts@)[0] == parts@[0]@);
    }
    if contains(parts[0].as_str(), "/pull/") {
        Some(parts[0].clone())
    } else {
        None
    }
}

/// The derived URL is what stands before the first `#`, so it has no fragment.
pub proof fn derived_pr_url_has_no_fragment(url: Seq<char>)
    requires
        pr_url_of_comment(url) is Some,
    ensures
        !pr_url_of_comment(url)->0.contains('#'),
        text::occurs(pr_url_of_comment(url)->0, "/pull/"@),
{
    text::split_pieces_lack_separator(url, '#');
}

/// `base` with those of `extra` added that are not there yet, in order.
pub open spec fn with_new(base: Seq<Seq<char>>, extra: Seq<Seq<char>>) -> Seq<Seq<char>>
    decreases extra.len(),
{
    if extra.len() == 0 {
        base
    } else {
        let before = with_new(base, extra.drop_last());
        if before.contains(extra.last()) {
            before
        } else {
            before.push(extra.last())
        }
    }
}

/// Whether a list of strings holds `s`.
pub fn list_contains(list: &Vec<String>, s: &str) -> (r: bool)
    ensures
        r == text::views(list@).contains(s@),
{
    let mut i: usize = 0;
    while i < list.len()
        invariant
            i <= list.len(),
            forall|j: int| 0 <= j < i ==> #[trigger] text::views(list@)[j] != s@,
        decreases list.len() - i,
    {
        proof {
            assert(text::views(list@)[i as int] == list@[i as int]@);
        }
        if same(list[i].as_str(), s) {
            return true;
        }
        i += 1;
    }
    proof {
        assert(text::views(list@).len() == list@.len());
    }
    false
}

/// The paths an agent may touch: its worktree, the temporary directories, and
/// what is added.
pub open spec fn allowed_paths(root: Seq<char>, extra: Seq<Seq<char>>) -> Seq<Seq<char>> {
    with_new(seq![root, "/tmp"@, "/private/tmp"@], extra)
}

/// Compute AGENT_ALLOWED_PATHS for agent sandbox.
pub fn compute_allowed_paths(worktree_root: &str, extra_paths: &Vec<String>) -> (r: String)
    ensures
        r@ == text::joined(allowed_paths(worktree_root@, text::views(extra_paths@)), ":"@),
{
    let mut paths: Vec<String> = Vec::new();
    paths.push(worktree_root.to_owned());
    paths.push("/tmp".to_owned());
    paths.push("/private/tmp".to_owned());
    let ghost base = seq![worktree_root@, "/tmp"@, "/private/tmp"@];
    let ghost extra = text::views(extra_paths@);
    proof {
        assert(text::views(paths@) =~= base);
        assert(extra.take(0) =~= Seq::<Seq<char>>::empty());
    }
    let mut i: usize = 0;
    while i < extra_paths.len()
        invariant
            i <= extra_paths.len(),
            extra == text::views(extra_paths@),
            text::views(paths@) == with_new(base, extra.take(i as int)),
        decreases extra_paths.len() - i,
    {
        proof {
            assert(extra.take(i + 1).drop_last() =~= extra.take(i as int));
            assert(extra.take(i + 1).last() == extra_paths@[i as int]@);
        }
        if !list_contains(&paths, extra_paths[i].as_str()) {
            let p = extra_paths[i].clone();
            proof {
                text::views_push(paths@, p);
            }
            paths.push(p);
        }
        i += 1;
    }
    proof {
        assert(extra.take(i as int) =~= extra);
    }
    text::join(&paths, ":")
}

/// Whatever is added, the agent may touch its worktree and the temporary
/// directories, everything that was added, and nothing else.
pub proof fn allowed_paths_are_exact(root: Seq<char>, extra: Seq<Seq<char>>, p: Seq<char>)
    ensures
        allowed_paths(root, extra).contains(p) <==> (p == root || p == "/tmp"@ || p
            == "/private/tmp"@ || extra.contains(p)),
    decreases extra.len(),
{
    let base = seq![root, "/tmp"@, "/private/tmp"@];
    if extra.len() == 0 {
        assert(base[0] == root && base[1] == "/tmp"@ && base[2] == "/private/tmp"@);
        assert(base.contains(p) <==> (p == root || p == "/tmp"@ || p == "/private/tmp"@));
    } else {
        allowed_paths_are_exact(root, extra.drop_last(), p);
        let before = with_new(base, extra.drop_last());
        let last = extra.last();
        assert(extra.contains(p) <==> (extra.drop_last().contains(p) || p == last)) by {
            if extra.contains(p) && p != last {
                let i = choose|i: int| 0 <= i < extra.len() && extra[i] == p;
                assert(extra.drop_last()[i] == p);
            }
            if extra.drop_last().contains(p) {
                let i = choose|i: int| 0 <= i < extra.drop_last().len() && extra.drop_last()[i] == p;
                assert(extra[i] == p);
            }
            assert(extra[extra.len() - 1] == last);
        }
        let after = before.push(last);
        assert(after.contains(p) <==> (before.contains(p) || p == last)) by {
            if before.contains(p) {
                let i = choose|i: int| 0 <= i < before.len() && before[i] == p;
                assert(after[i] == p);
            }
            if after.contains(p) && p != last {
                let i = choose|i: int| 0 <= i < after.len() && after[i] == p;
                assert(before[i] == p);
            }
            assert(after[before.len() as int] == last);
        }
    }
}

/// One entry of `meta project list --recursive --json`.
pub struct Project {
    pub path: Option<String>,
    pub repo: Option<String>,
    /// The nested projects, where the entry lists any.
    pub projects: Option<Vec<Project>>,
}

/// `s` without repetitions of `p` in front.
pub open spec fn without_prefixes(s: Seq<char>, p: Seq<char>) -> Seq<char>
    decreases s.len(),
{
    if p.len() > 0 && text::starts(s, p) {
        without_prefixes(s.skip(p.len() as int), p)
    } else {
        s
    }
}

/// `s` without repetitions of `p` at its end.
pub open spec fn without_suffixes(s: Seq<char>, p: Seq<char>) -> Seq<char>
    decreases s.len(),
{
    if p.len() > 0 && text::ends(s, p) {
        without_suffixes(s.take(s.len() - p.len()), p)
    } else {
        s
    }
}

fn trim_prefixes(s: &str, p: &str) -> (r: String)
    ensures
        r@ == without_prefixes(s@, p@),
{
    let mut cur = s.to_owned();
    if p.is_empty() {
        return cur;
    }
    loop
        invariant
            p@.len() > 0,
            without_prefixes(cur@, p@) == without_prefixes(s@, p@),
        ensures
            cur@ == without_prefixes(s@, p@),
        decreases cur@.len(),
    {
        match text::strip_prefix(cur.as_str(), p) {
            Some(rest) => {
                cur = rest;
            },
            None => {
                break;
            },
        }
    }
    cur
}

fn trim_suffixes(s: &str, p: &str) -> (r: String)
    ensures
        r@ == without_suffixes(s@, p@),
{
    let mut cur = s.to_owned();
    if p.is_empty() {
        return cur;
    }
    loop
        invariant
            p@.len() > 0,
            without_suffixes(cur@, p@) == without_suffixes(s@, p@),
        ensures
            cur@ == without_suffixes(s@, p@),
        decreases cur@.len(),
    {
        match text::strip_suffix(cur.as_str(), p) {
            Some(rest) => {
                cur = rest;
            },
            None => {
                break;
            },
        }
    }
    cur
}

/// A remote URL reduced to `org/repo`.
pub open spec fn normalized_remote(url: Seq<char>) -> Seq<char> {
    without_suffixes(
        without_prefixes(without_prefixes(url, "git@github.com:"@), "https://github.com/"@),
        ".git"@,
    )
}

fn normalize_remote(url: &str) -> (r: String)
    ensures
        r@ == normalized_remote(url@),
{
    let a = trim_prefixes(url, "git@github.com:");
    let b = trim_prefixes(a.as_str(), "https://github.com/");
    trim_suffixes(b.as_str(), ".git")
}

/// A project path that the search passes over.
pub open spec fn unsafe_project_path(p: Seq<char>) -> bool {
    crate::paths::absolute(p) || crate::paths::climbs(p) || crate::paths::starts_here(p)
}

/// The path of a project seen from the workspace root.
pub open spec fn project_path(prefix: Seq<char>, path: Seq<char>) -> Seq<char> {
    if prefix.len() == 0 || prefix == "."@ {
        path
    } else {
        prefix + "/"@ + path
    }
}

/// The path of the first project, depth first, whose remote is `target`.
pub open spec fn repo_in(projects: Seq<Project>, prefix: Seq<char>, target: Seq<char>) -> Option<
    Seq<char>,
>
    decreases projects,
{
    if projects.len() == 0 {
        None
    } else {
        match repo_at(projects[0], prefix, target) {
            Some(found) => Some(found),
            None => repo_in(projects.subrange(1, projects.len() as int), prefix, target),
        }
    }
}

/// The search within one entry: the entry itself, then what it nests.
pub open spec fn repo_at(project: Project, prefix: Seq<char>, target: Seq<char>) -> Option<
    Seq<char>,
>
    decreases project,
{
    match project.path {
        None => None,
        Some(path) => if unsafe_project_path(path@) {
            None
        } else {
            let full = project_path(prefix, path@);
            if project.repo is Some && normalized_remote(project.repo->0@) == target {
                Some(full)
            } else {
                match project.projects {
                    Some(nested) => repo_in(nested@, full, target),
                    None => None,
                }
            }
        },
    }
}

fn find_repo_at(project: &Project, prefix: &str, target: &str) -> (r: Option<String>)
    ensures
        strmap::opt_view(r) == repo_at(*project, prefix@, target@),
    decreases *project,
{
    match &project.path {
        None => None,
        Some(path) => {
            if crate::paths::is_absolute(path.as_str()) || crate::paths::has_parent_part(
                path.as_str(),
            ) || crate::paths::has_leading_current_part(path.as_str()) {
                return None;
            }
            let full = if prefix.is_empty() || same(prefix, ".") {
                path.clone()
            } else {
                let head = concat(prefix, "/");
                concat(head.as_str(), path.as_str())
            };
            if let Some(remote) = &project.repo {
                let normalized = normalize_remote(remote.as_str());
                if same(normalized.as_str(), target) {
                    return Some(full);
                }
            }
            match &project.projects {
                Some(nested) => find_repo(nested, full.as_str(), target),
                None => None,
            }
        },
    }
}

/// Search a `meta project list --recursive --json` tree for the project whose
/// `repo` URL matches `target` (an `org/repo` string). Returns the relative
/// path from the workspace root (e.g. `"open-source/atc"`).
pub fn find_repo(projects: &Vec<Project>, prefix: &str, target: &str) -> (r: Option<String>)
    ensures
        strmap::opt_view(r) == repo_in(projects@, prefix@, target@),
    decreases *projects,
{
    let mut i: usize = 0;
    proof {
        assert(projects@.subrange(0, projects@.len() as int) =~= projects@);
    }
    while i < projects.len()
        invariant
            i <= projects.len(),
            repo_in(projects@.subrange(i as int, projects@.len() as int), prefix@, target@)
                == repo_in(projects@, prefix@, target@),
        decreases projects.len() - i,
    {
        let ghost rest = projects@.subrange(i as int, projects@.len() as int);
        proof {
            assert(rest[0] == projects@[i as int]);
            assert(rest.subrange(1, rest.len() as int) =~= projects@.subrange(
                i + 1,
                projects@.len() as int,
            ));
            assert(decreases_to!(*projects => projects@));
            assert(decreases_to!(projects@ => projects@[i as int]));
        }
        let found = find_repo_at(&projects[i], prefix, target);
        if found.is_some() {
            return found;
        }
        i += 1;
    }
    None
}

/// `org/repo` as a pull request URL names it: what stands between the host and
/// the first `/pull/`.
pub open spec fn pr_repository(url: Seq<char>, r: Option<Seq<char>>) -> bool {
    let host = "https://github.com/"@;
    if !text::starts(url, host) {
        r is None
    } else {
        let rest = url.skip(host.len() as int);
        &&& r is Some
        &&& text::occurs(rest, "/pull/"@) ==> (text::starts(rest, r->0 + "/pull/"@)
            && !text::occurs(r->0 + "/pull"@, "/pull/"@))
        &&& !text::occurs(rest, "/pull/"@) ==> r->0 == rest
    }
}

/// Extracts `org/repo` from a pull request URL.
pub fn repository_of_pr(pr_url: &str) -> (r: Option<String>)
    ensures
        pr_repository(pr_url@, strmap::opt_view(r)),
{
    match text::strip_prefix(pr_url, "https://github.com/") {
        None => None,
        Some(rest) => {
            let v = chars_of(rest.as_str());
            let pat = chars_of("/pull/");
            proof {
                reveal_strlit("/pull/");
                reveal_strlit("/pull");
            }
            match text::find_from(&v, 0, &pat) {
                None => {
                    proof {
                        assert(!text::occurs(rest@, "/pull/"@));
                    }
                    Some(rest)
                },
                Some(i) => {
                    let head = slice_chars(&v, 0, i);
                    proof {
                        assert(text::occurs_at(rest@, i as int, "/pull/"@));
                        assert((head@ + "/pull/"@) =~= rest@.subrange(0, i + 6));
                        let h = head@ + "/pull"@;
                        if text::occurs(h, "/pull/"@) {
                            let j = choose|j: int| text::occurs_at(h, j, "/pull/"@);
                            assert(h =~= rest@.subrange(0, i + 5)) by {
                                assert forall|k: int| 0 <= k < 5 implies "/pull"@[k] == rest@[i
                                    + k] by {
                                    assert(rest@.subrange(i as int, i + 6)[k] == "/pull/"@[k]);
                                }
                            }
                            assert(rest@.subrange(j, j + 6) =~= h.subrange(j, j + 6));
                            assert(text::occurs_at(rest@, j, "/pull/"@));
                        }
                    }
                    Some(head)
                },
            }
        },
    }
}

/// Result of meta workspace discovery.
pub struct MetaDiscovery {
    /// Primary repo alias (e.g., "core")
    pub repo: String,
    /// Workspace root directory (where meta manages sub-repos)
    pub workspace_root: String,
}

/// One named entry of the flat project listing.
pub struct MetaEntry {
    pub name: String,
    pub path: Option<String>,
    pub provides: bool,
}

/// The view of an entry: its name, its path, and whether it provides something.
pub open spec fn meta_view(e: MetaEntry) -> (Seq<char>, Option<Seq<char>>, bool) {
    (e.name@, strmap::opt_view(e.path), e.provides)
}

/// The views of entries.
pub open spec fn meta_views(entries: Seq<MetaEntry>) -> Seq<
    (Seq<char>, Option<Seq<char>>, bool),
> {
    entries.map_values(|e: MetaEntry| meta_view(e))
}

/// What bytes say of a project of this name: the text under `path` in it, and whether
/// there is something under `provides`.
pub open spec fn listed_member(bytes: Seq<u8>, name: Seq<char>) -> (
    Seq<char>,
    Option<Seq<char>>,
    bool,
) {
    (
        name,
        json::json_text(bytes, json::member_pointer(name) + "/path"@),
        json::json_holds(bytes, json::member_pointer(name) + "/provides"@),
    )
}

/// The members of the object that bytes hold, none where they hold none.
pub open spec fn listed_members(bytes: Seq<u8>) -> Seq<(Seq<char>, Option<Seq<char>>, bool)> {
    match json::json_names(bytes, ""@) {
        Some(names) => names.map_values(|n: Seq<char>| listed_member(bytes, n)),
        None => Seq::empty(),
    }
}

fn read_members(bytes: &Vec<u8>) -> (r: Vec<MetaEntry>)
    ensures
        meta_views(r@) == listed_members(bytes@),
{
    let mut out: Vec<MetaEntry> = Vec::new();
    let names = match names_at(bytes, "") {
        Some(names) => names,
        None => {
            proof {
                assert(meta_views(out@) =~= listed_members(bytes@));
            }
            return out;
        },
    };
    let ghost all = listed_members(bytes@);
    let mut i: usize = 0;
    while i < names.len()
        invariant
            i <= names.len(),
            all == text::views(names@).map_values(|n: Seq<char>| listed_member(bytes@, n)),
            out@.len() == i,
            forall|k: int| 0 <= k < i ==> meta_view(#[trigger] out@[k]) == all[k],
        decreases names.len() - i,
    {
        let at = pointer_to(names[i].as_str());
        let name = names[i].clone();
        let path = text_at(bytes, concat(at.as_str(), "/path").as_str());
        let provides = holds_at(bytes, concat(at.as_str(), "/provides").as_str());
        out.push(MetaEntry { name, path, provides });
        i += 1;
    }
    proof {
        assert(meta_views(out@) =~= all);
    }
    out
}

/// The first entry that provides something, else the first not named `.`.
pub open spec fn primary_entry(entries: Seq<(Seq<char>, Option<Seq<char>>, bool)>) -> Option<
    Seq<char>,
> {
    match first_providing(entries) {
        Some(name) => Some(name),
        None => first_named(entries),
    }
}

pub open spec fn first_providing(entries: Seq<(Seq<char>, Option<Seq<char>>, bool)>) -> Option<
    Seq<char>,
>
    decreases entries.len(),
{
    if entries.len() == 0 {
        None
    } else {
        match first_providing(entries.drop_last()) {
            Some(name) => Some(name),
            None => if entries.last().2 {
                Some(entries.last().0)
            } else {
                None
            },
        }
    }
}

pub open spec fn first_named(entries: Seq<(Seq<char>, Option<Seq<char>>, bool)>) -> Option<
    Seq<char>,
>
    decreases entries.len(),
{
    if entries.len() == 0 {
        None
    } else {
        match first_named(entries.drop_last()) {
            Some(name) => Some(name),
            None => if entries.last().0 != "."@ {
                Some(entries.last().0)
            } else {
                None
            },
        }
    }
}

/// The path of the entry named `.`; where several carry the name, of the last.
pub open spec fn root_entry_path(entries: Seq<(Seq<char>, Option<Seq<char>>, bool)>) -> Option<
    Seq<char>,
>
    decreases entries.len(),
{
    if entries.len() == 0 {
        None
    } else if entries.last().0 == "."@ {
        entries.last().1
    } else {
        root_entry_path(entries.drop_last())
    }
}

/// What a listing tells of a meta workspace: its primary repository and its
/// root, where `cwd` stands in for a root that it does not give.
pub open spec fn discovered(
    entries: Seq<(Seq<char>, Option<Seq<char>>, bool)>,
    cwd: Seq<char>,
) -> Option<(Seq<char>, Seq<char>)> {
    match primary_entry(entries) {
        Some(repo) => Some(
            (
                repo,
                match root_entry_path(entries) {
                    Some(p) => p,
                    None => cwd,
                },
            ),
        ),
        None => None,
    }
}

/// The view of a discovery.
pub open spec fn discovery_view(r: Option<MetaDiscovery>) -> Option<(Seq<char>, Seq<char>)> {
    match r {
        Some(m) => Some((m.repo@, m.workspace_root@)),
        None => None,
    }
}

/// Picks the primary repository and the root of a meta workspace from the
/// entries of its project listing; `cwd` stands in for a root the listing does
/// not give.
pub fn meta_of_entries(entries: &Vec<MetaEntry>, cwd: &str) -> (r: Option<MetaDiscovery>)
    ensures
        discovery_view(r) == discovered(meta_views(entries@), cwd@),
{
    let mut providing: Option<String> = None;
    let mut named: Option<String> = None;
    let mut root: Option<String> = None;
    let mut i: usize = 0;
    let ghost all = meta_views(entries@);
    while i < entries.len()
        invariant
            i <= entries.len(),
            all == meta_views(entries@),
            strmap::opt_view(providing) == first_providing(all.take(i as int)),
            strmap::opt_view(named) == first_named(all.take(i as int)),
            strmap::opt_view(root) == root_entry_path(all.take(i as int)),
        decreases entries.len() - i,
    {
        let e = &entries[i];
        proof {
            assert(all.take(i + 1).drop_last() =~= all.take(i as int));
            assert(all.take(i + 1).last() == meta_view(*e));
        }
        if providing.is_none() && e.provides {
            providing = Some(e.name.clone());
        }
        if same(e.name.as_str(), ".") {
            root = strmap::copy_opt(&e.path);
        } else if named.is_none() {
            named = Some(e.name.clone());
        }
        i += 1;
    }
    proof {
        assert(all.take(i as int) =~= all);
    }
    let workspace_root = match root {
        Some(p) => p,
        None => cwd.to_owned(),
    };
    match providing {
        Some(repo) => Some(MetaDiscovery { repo, workspace_root }),
        None => match named {
            Some(repo) => Some(MetaDiscovery { repo, workspace_root }),
            None => None,
        },
    }
}

/// Discovers a meta workspace from what `meta project list --recursive --json`
/// answers. None if `meta` fails.
pub fn discover_meta(answer: &ToolAnswer, cwd: &str) -> (r: Option<MetaDiscovery>)
    ensures
        discovery_view(r) == if answer.success {
            discovered(listed_members(encode_utf8(text::trimmed(answer.stdout@))), cwd@)
        } else {
            None
        },
{
    if !answer.success {
        return None;
    }
    let listing = trim(answer.stdout.as_str());
    meta_of_entries(&read_members(&listing.as_str().as_bytes_vec()), cwd)
}

/// What to do about a dispatch that is recorded as running on a worktree.
#[derive(Clone, Copy, Debug, PartialEq, Eq, Structural)]
pub enum Collision {
    /// The session lives and may not be overridden.
    Refuse,
    /// The session is gone: the record is stale and becomes failed.
    MarkFailed,
    /// The session lives and is overridden: kill it, then mark it failed.
    KillAndMarkFailed,
}

/// Decides what happens to a dispatch running on the wanted worktree.
pub fn check_worktree_collision(alive: bool, force: bool) -> (r: Collision)
    ensures
        r == Collision::Refuse <==> alive && !force,
        r == Collision::MarkFailed <==> !alive,
        r == Collision::KillAndMarkFailed <==> alive && force,
{
    if alive && !force {
        Collision::Refuse
    } else if !alive {
        Collision::MarkFailed
    } else {
        Collision::KillAndMarkFailed
    }
}

/// Why a worktree in use is refused.
pub fn collision_message(worktree: &str, id: &str, session: &str) -> (r: String)
    ensures
        r@ == "Worktree "@ + worktree@ + " is in use by dispatch "@ + id@ + " (session: "@ + session@
            + "). Use --force to override."@,
{
    let mut m = concat("Worktree ", worktree);
    push_str(&mut m, " is in use by dispatch ");
    push_str(&mut m, id);
    push_str(&mut m, " (session: ");
    push_str(&mut m, session);
    push_str(&mut m, "). Use --force to override.");
    m
}

/// Result of resolving a document's workspace location.
pub struct DocumentWorkspace {
    /// Filesystem path for agent CWD.
    pub cwd: String,
    /// KB workspace branch name (e.g., "main", "tasks--harmony-350").
    pub workspace_branch: String,
}

/// A directory below the KB workspaces, and whether it holds the document.
pub struct WorkspaceEntry {
    pub name: String,
    pub has_document: bool,
}

/// Directory names that are not searched: `main`, which comes first anyway, and
/// what could lead out of the workspaces.
pub open spec fn passed_over(name: Seq<char>) -> bool {
    name == "main"@ || name.contains('/') || name.contains('\\') || name == ".."@ || name == "."@
}

pub fn is_passed_over(name: &str) -> (r: bool)
    ensures
        r == passed_over(name@),
{
    same(name, "main") || text::contains_char(name, '/') || text::contains_char(name, '\\') || same(
        name,
        "..",
    ) || same(name, ".")
}

/// The workspaces that hold the document, `main` first.
pub open spec fn matching_workspaces(in_main: bool, entries: Seq<WorkspaceEntry>) -> Seq<Seq<char>>
    decreases entries.len(),
{
    if entries.len() == 0 {
        if in_main {
            seq!["main"@]
        } else {
            Seq::empty()
        }
    } else {
        let found = matching_workspaces(in_main, entries.drop_last());
        if entries.last().has_document && !passed_over(entries.last().name@) {
            found.push(entries.last().name@)
        } else {
            found
        }
    }
}

fn collect_matches(in_main: bool, entries: &Vec<WorkspaceEntry>) -> (r: Vec<String>)
    ensures
        text::views(r@) == matching_workspaces(in_main, entries@),
{
    let mut found: Vec<String> = Vec::new();
    if in_main {
        found.push("main".to_owned());
    }
    proof {
        assert(text::views(found@) =~= matching_workspaces(in_main, entries@.take(0)));
    }
    let mut i: usize = 0;
    while i < entries.len()
        invariant
            i <= entries.len(),
            text::views(found@) == matching_workspaces(in_main, entries@.take(i as int)),
        decreases entries.len() - i,
    {
        proof {
            assert(entries@.take(i + 1).drop_last() =~= entries@.take(i as int));
            assert(entries@.take(i + 1).last() == entries@[i as int]);
        }
        if entries[i].has_document && !is_passed_over(entries[i].name.as_str()) {
            let name = entries[i].name.clone();
            proof {
                text::views_push(found@, name);
            }
            found.push(name);
        }
        i += 1;
    }
    proof {
        assert(entries@.take(i as int) =~= entries@);
    }
    found
}

/// The matches other than `main`.
pub open spec fn off_main(matches: Seq<Seq<char>>) -> Seq<Seq<char>>
    decreases matches.len(),
{
    if matches.len() == 0 {
        Seq::empty()
    } else if matches.last() != "main"@ {
        off_main(matches.drop_last()).push(matches.last())
    } else {
        off_main(matches.drop_last())
    }
}

/// A workspace other than `main` wins; of several, the first in alphabetical
/// order.
pub open spec fn preferred_workspace(matches: Seq<Seq<char>>) -> Seq<char> {
    if off_main(matches).len() == 0 {
        "main"@
    } else {
        text::least(off_main(matches))
    }
}

/// Pick a single workspace from the match set.
pub fn select_from_matches(matches: &Vec<String>) -> (r: String)
    ensures
        r@ == preferred_workspace(text::views(matches@)),
{
    let mut best: Option<String> = None;
    let ghost all = text::views(matches@);
    proof {
        assert(all.take(0) =~= Seq::<Seq<char>>::empty());
    }
    let mut i: usize = 0;
    while i < matches.len()
        invariant
            i <= matches.len(),
            all == text::views(matches@),
            best is None <==> off_main(all.take(i as int)).len() == 0,
            best matches Some(b) ==> b@ == text::least(off_main(all.take(i as int))),
        decreases matches.len() - i,
    {
        let ghost sofar = off_main(all.take(i as int));
        proof {
            assert(all.take(i + 1).drop_last() =~= all.take(i as int));
            assert(all.take(i + 1).last() == matches@[i as int]@);
            assert(sofar.push(matches@[i as int]@).drop_last() =~= sofar);
        }
        if !same(matches[i].as_str(), "main") {
            best = match best {
                None => Some(matches[i].clone()),
                Some(b) => if text::comes_before(matches[i].as_str(), b.as_str()) {
                    Some(matches[i].clone())
                } else {
                    Some(b)
                },
            };
        }
        i += 1;
    }
    proof {
        assert(all.take(i as int) =~= all);
    }
    match best {
        Some(b) => b,
        None => "main".to_owned(),
    }
}

/// The first match that names the current branch, as it is or sanitized.
pub open spec fn current_match(matches: Seq<Seq<char>>, current: Seq<char>) -> Option<Seq<char>>
    decreases matches.len(),
{
    if matches.len() == 0 {
        None
    } else {
        match current_match(matches.drop_last(), current) {
            Some(m) => Some(m),
            None => if matches.last() == current || matches.last() == sanitized(current) {
                Some(matches.last())
            } else {
                None
            },
        }
    }
}

/// The workspace chosen among the matches: the current branch if it is one of
/// them, else the preferred one.
pub open spec fn chosen_workspace(matches: Seq<Seq<char>>, current: Option<Seq<char>>) -> Seq<char> {
    match current {
        Some(c) => match current_match(matches, c) {
            Some(m) => m,
            None => preferred_workspace(matches),
        },
        None => preferred_workspace(matches),
    }
}

fn choose_workspace(matches: &Vec<String>, current: &Option<String>) -> (r: String)
    ensures
        r@ == chosen_workspace(text::views(matches@), strmap::opt_view(*current)),
{
    if let Some(c) = current {
        let sane = sanitize_slashes(c.as_str());
        let ghost all = text::views(matches@);
        let mut i: usize = 0;
        while i < matches.len()
            invariant
                i <= matches.len(),
                all == text::views(matches@),
                sane@ == sanitized(c@),
                strmap::opt_view(*current) == Some(c@),
                current_match(all.take(i as int), c@) is None,
            decreases matches.len() - i,
        {
            proof {
                assert(all.take(i + 1).drop_last() =~= all.take(i as int));
                assert(all.take(i + 1).last() == matches@[i as int]@);
            }
            if same(matches[i].as_str(), c.as_str()) || same(matches[i].as_str(), sane.as_str()) {
                proof {
                    current_match_is_stable(all, c@, i + 1);
                }
                return matches[i].clone();
            }
            i += 1;
        }
        proof {
            assert(all.take(i as int) =~= all);
        }
    }
    select_from_matches(matches)
}

proof fn current_match_is_stable(all: Seq<Seq<char>>, c: Seq<char>, n: int)
    requires
        0 <= n <= all.len(),
        current_match(all.take(n), c) is Some,
    ensures
        current_match(all, c) == current_match(all.take(n), c),
    decreases all.len(),
{
    if n == all.len() {
        assert(all.take(n) =~= all);
    } else {
        assert(all.drop_last().take(n) =~= all.take(n));
        current_match_is_stable(all.drop_last(), c, n);
    }
}

/// Where a code worktree for a branch may be, in the order it is looked for.
pub open spec fn worktree_candidates(branch: Seq<char>, base: Seq<char>, root: Seq<char>) -> Seq<
    Seq<char>,
> {
    let local = crate::paths::joined_path(root, ".worktrees"@);
    seq![
        crate::paths::joined_path(base, sanitized(branch)),
        crate::paths::joined_path(base, branch),
        crate::paths::joined_path(local, sanitized(branch)),
        crate::paths::joined_path(local, branch),
    ]
}

/// The first of the candidates that exists.
pub open spec fn first_existing(candidates: Seq<Seq<char>>, existing: Seq<Seq<char>>) -> Option<
    Seq<char>,
>
    decreases candidates.len(),
{
    if candidates.len() == 0 {
        None
    } else {
        match first_existing(candidates.drop_last(), existing) {
            Some(p) => Some(p),
            None => if existing.contains(candidates.last()) {
                Some(candidates.last())
            } else {
                None
            },
        }
    }
}

/// The places where a worktree for `branch` is looked for.
pub fn worktree_search_paths(branch: &str, worktree_base: &str, workspace_root: &str) -> (r: Vec<
    String,
>)
    ensures
        text::views(r@) == worktree_candidates(branch@, worktree_base@, workspace_root@),
{
    let sane = sanitize_slashes(branch);
    let local = crate::paths::join_path(workspace_root, ".worktrees");
    let mut r: Vec<String> = Vec::new();
    r.push(crate::paths::join_path(worktree_base, sane.as_str()));
    r.push(crate::paths::join_path(worktree_base, branch));
    r.push(crate::paths::join_path(local.as_str(), sane.as_str()));
    r.push(crate::paths::join_path(local.as_str(), branch));
    proof {
        assert(text::views(r@) =~= worktree_candidates(branch@, worktree_base@, workspace_root@));
    }
    r
}

/// Find a code worktree corresponding to a KB workspace branch.
///
/// Search order:
/// 1. `<worktree_base>/<branch>/` - meta git worktrees
/// 2. `<workspace_root>/.worktrees/<branch>/` - local git worktrees
///
/// `existing` lists the searched paths that exist. Returns `None` if no
/// worktree exists for this branch.
pub fn find_worktree_for_branch(
    branch: &str,
    worktree_base: &str,
    workspace_root: &str,
    existing: &Vec<String>,
) -> (r: Option<String>)
    ensures
        strmap::opt_view(r) == first_existing(
            worktree_candidates(branch@, worktree_base@, workspace_root@),
            text::views(existing@),
        ),
{
    let candidates = worktree_search_paths(branch, worktree_base, workspace_root);
    let ghost all = text::views(candidates@);
    let ghost there = text::views(existing@);
    let mut found: Option<String> = None;
    let mut i: usize = 0;
    while i < candidates.len()
        invariant
            i <= candidates.len(),
            all == text::views(candidates@),
            there == text::views(existing@),
            strmap::opt_view(found) == first_existing(all.take(i as int), there),
        decreases candidates.len() - i,
    {
        proof {
            assert(all.take(i + 1).drop_last() =~= all.take(i as int));
            assert(all.take(i + 1).last() == candidates@[i as int]@);
        }
        if found.is_none() && list_contains(existing, candidates[i].as_str()) {
            found = Some(candidates[i].clone());
        }
        i += 1;
    }
    proof {
        assert(all.take(i as int) =~= all);
    }
    found
}

/// A document slug that no workspace is searched for.
pub open spec fn bad_document_slug(slug: Seq<char>) -> bool {
    slug.len() == 0 || crate::paths::unsafe_slug(slug)
}

/// What the search for a document has seen.
pub struct WorkspaceScan {
    pub in_main: bool,
    pub entries: Vec<WorkspaceEntry>,
    pub current_branch: Option<String>,
}

/// Where a document lives and where the agent should work.
pub open spec fn document_workspace(
    scan: WorkspaceScan,
    base: Seq<char>,
    root: Seq<char>,
    existing: Seq<Seq<char>>,
) -> Option<(Seq<char>, Seq<char>)> {
    let matches = matching_workspaces(scan.in_main, scan.entries@);
    if matches.len() == 0 {
        None
    } else {
        let chosen = chosen_workspace(matches, strmap::opt_view(scan.current_branch));
        if chosen == "main"@ {
            Some((root, "main"@))
        } else {
            match first_existing(worktree_candidates(chosen, base, root), existing) {
                Some(p) => Some((p, chosen)),
                None => Some((root, chosen)),
            }
        }
    }
}

/// The workspace that the search settles on before a worktree is looked for,
/// or nothing where the document is in none.
pub fn selected_workspace(scan: &WorkspaceScan) -> (r: Option<String>)
    ensures
        strmap::opt_view(r) == if matching_workspaces(scan.in_main, scan.entries@).len() == 0 {
            None
        } else {
            Some(
                chosen_workspace(
                    matching_workspaces(scan.in_main, scan.entries@),
                    strmap::opt_view(scan.current_branch),
                ),
            )
        },
{
    let matches = collect_matches(scan.in_main, &scan.entries);
    proof {
        assert(text::views(matches@).len() == matches@.len());
    }
    if matches.len() == 0 {
        None
    } else {
        Some(choose_workspace(&matches, &scan.current_branch))
    }
}

/// Resolve where a document lives and where the agent should work.
///
/// The current branch wins if the document is checked out there, then a branch
/// other than main, then main. A branch without a code worktree leaves the
/// agent in the workspace root. `Ok(None)` if no workspace holds the document;
/// an error for a slug that must not become part of a path.
pub fn resolve_document_workspace(
    slug: &str,
    scan: &WorkspaceScan,
    worktree_base: &str,
    workspace_root: &str,
    existing: &Vec<String>,
) -> (r: Result<Option<DocumentWorkspace>, String>)
    ensures
        r is Err <==> bad_document_slug(slug@),
        r matches Err(m) ==> m@ == "invalid document slug for workspace resolution: "@ + slug@,
        r matches Ok(w) ==> match document_workspace(
            *scan,
            worktree_base@,
            workspace_root@,
            text::views(existing@),
        ) {
            Some((cwd, branch)) => w is Some && w->0.cwd@ == cwd && w->0.workspace_branch@
                == branch,
            None => w is None,
        },
{
    if slug.is_empty() || crate::paths::is_unsafe_slug(slug) {
        return Err(concat("invalid document slug for workspace resolution: ", slug));
    }
    match selected_workspace(scan) {
        None => Ok(None),
        Some(chosen) => {
            if same(chosen.as_str(), "main") {
                Ok(
                    Some(
                        DocumentWorkspace {
                            cwd: workspace_root.to_owned(),
                            workspace_branch: "main".to_owned(),
                        },
                    ),
                )
            } else {
                let cwd = match find_worktree_for_branch(
                    chosen.as_str(),
                    worktree_base,
                    workspace_root,
                    existing,
                ) {
                    Some(p) => p,
                    None => workspace_root.to_owned(),
                };
                Ok(Some(DocumentWorkspace { cwd, workspace_branch: chosen }))
            }
        },
    }
}

/// A document in the workspace of the current branch is found there, whatever
/// other workspaces hold it too.
pub proof fn current_branch_wins(matches: Seq<Seq<char>>, current: Seq<char>)
    requires
        matches.contains(current) || matches.contains(sanitized(current)),
    ensures
        chosen_workspace(matches, Some(current)) == current || chosen_workspace(
            matches,
            Some(current),
        ) == sanitized(current),
    decreases matches.len(),
{
    if matches.len() > 0 {
        let rest = matches.drop_last();
        if current_match(rest, current) is Some {
            current_match_names_branch(rest, current);
        } else if matches.last() != current && matches.last() != sanitized(current) {
            let want = if matches.contains(current) {
                current
            } else {
                sanitized(current)
            };
            let i = choose|i: int| 0 <= i < matches.len() && matches[i] == want;
            assert(rest[i] == want);
            current_branch_wins(rest, current);
            missing_current_match(rest, current);
        }
    }
}

proof fn current_match_names_branch(matches: Seq<Seq<char>>, c: Seq<char>)
    requires
        current_match(matches, c) is Some,
    ensures
        current_match(matches, c)->0 == c || current_match(matches, c)->0 == sanitized(c),
    decreases matches.len(),
{
    if matches.len() > 0 && current_match(matches.drop_last(), c) is Some {
        current_match_names_branch(matches.drop_last(), c);
    }
}

proof fn missing_current_match(matches: Seq<Seq<char>>, c: Seq<char>)
    requires
        current_match(matches, c) is None,
    ensures
        !matches.contains(c),
        !matches.contains(sanitized(c)),
    decreases matches.len(),
{
    if matches.len() > 0 {
        missing_current_match(matches.drop_last(), c);
        if matches.contains(c) {
            let i = choose|i: int| 0 <= i < matches.len() && matches[i] == c;
            assert(matches.drop_last()[i] == c);
        }
        if matches.contains(sanitized(c)) {
            let i = choose|i: int| 0 <= i < matches.len() && matches[i] == sanitized(c);
            assert(matches.drop_last()[i] == sanitized(c));
        }
    }
}

/// Parameters for worktree creation/reuse.
pub struct WorktreeOpts {
    pub worktree_base: String,
    /// Target repo path(s). Empty = no meta worktree, single = one repository,
    /// multiple = multi-repo worktree set.
    pub repos: Vec<String>,
    pub branch: String,
    pub meta_workspace_root: String,
    /// Root path for KB operations. Passed as GITKB_ROOT to meta worktree commands.
    pub kb_root: String,
    pub force: bool,
}

/// Result of worktree creation/reuse, carrying metadata needed for safe rollback.
pub struct WorktreeResult {
    /// The filesystem path of the worktree.
    pub path: String,
    /// Whether this worktree was newly created by this call (vs reused).
    pub created: bool,
    /// Whether the worktree was created via `meta` (true) or plain `git` (false).
    pub is_meta: bool,
}

/// `<base>/<sanitized branch>` and, if there is one, the primary repository.
pub open spec fn worktree_place(
    base: Seq<char>,
    branch: Seq<char>,
    primary: Option<Seq<char>>,
) -> Seq<char> {
    let dir = crate::paths::joined_path(base, sanitized(branch));
    match primary {
        Some(repo) => crate::paths::joined_path(dir, repo),
        None => dir,
    }
}

pub fn worktree_path(base: &str, branch: &str, primary: Option<&str>) -> (r: String)
    ensures
        r@ == worktree_place(
            base@,
            branch@,
            match primary {
                Some(p) => Some(p@),
                None => None,
            },
        ),
{
    let dir = crate::paths::join_path(base, sanitize_slashes(branch).as_str());
    match primary {
        Some(repo) => crate::paths::join_path(dir.as_str(), repo),
        None => dir,
    }
}

/// Reading `git worktree list --porcelain` from line `i` on: the worktree that
/// has `branch` checked out. `current` is the worktree being described.
pub open spec fn listed_worktree(
    lines: Seq<Seq<char>>,
    i: int,
    current: Option<Seq<char>>,
    branch: Seq<char>,
) -> Option<Seq<char>>
    decreases lines.len() - i,
{
    if i < 0 || i >= lines.len() {
        None
    } else {
        let line = lines[i];
        if text::starts(line, "worktree "@) {
            listed_worktree(lines, i + 1, Some(line.skip("worktree "@.len() as int)), branch)
        } else if text::starts(line, "branch refs/heads/"@) {
            if line.skip("branch refs/heads/"@.len() as int) == branch && current is Some {
                current
            } else {
                listed_worktree(lines, i + 1, current, branch)
            }
        } else if line.len() == 0 {
            listed_worktree(lines, i + 1, None, branch)
        } else {
            listed_worktree(lines, i + 1, current, branch)
        }
    }
}

/// The existing worktree of a branch, from `git worktree list --porcelain`.
pub fn find_listed_worktree(porcelain: &str, branch: &str) -> (r: Option<String>)
    ensures
        strmap::opt_view(r) == listed_worktree(text::lines_of(porcelain@), 0, None, branch@),
{
    let lines = text::lines(porcelain);
    let ghost all = text::lines_of(porcelain@);
    let mut current: Option<String> = None;
    let mut i: usize = 0;
    proof {
        assert(all.len() == lines@.len());
    }
    while i < lines.len()
        invariant
            i <= lines.len(),
            all == text::views(lines@),
            all == text::lines_of(porcelain@),
            all.len() == lines@.len(),
            listed_worktree(all, i as int, strmap::opt_view(current), branch@) == listed_worktree(
                all,
                0,
                None,
                branch@,
            ),
        decreases lines.len() - i,
    {
        let line = lines[i].as_str();
        proof {
            assert(all[i as int] == line@);
        }
        match text::strip_prefix(line, "worktree ") {
            Some(path) => {
                current = Some(path);
            },
            None => match text::strip_prefix(line, "branch refs/heads/") {
                Some(b) => {
                    if same(b.as_str(), branch) && current.is_some() {
                        return current;
                    }
                },
                None => {
                    if line.is_empty() {
                        current = None;
                    }
                },
            },
        }
        i += 1;
    }
    None
}

/// How a worktree comes about.
pub enum WorktreePlan {
    /// It is there: use it, after checking who runs on it if its path is not
    /// the expected one.
    Reuse { path: String, recheck: bool },
    /// Let `meta` create it.
    CreateMeta,
    /// Let `git` create it.
    CreateGit,
}

/// Decides how to get a worktree, given what `git worktree list --porcelain`
/// printed (nothing where it failed).
pub fn plan_worktree(opts: &WorktreeOpts, porcelain: Option<&str>) -> (r: WorktreePlan)
    ensures
        ({
            let listed = match porcelain {
                Some(p) => listed_worktree(text::lines_of(p@), 0, None, opts.branch@),
                None => None,
            };
            let place = worktree_place(
                opts.worktree_base@,
                opts.branch@,
                if opts.repos@.len() > 0 {
                    Some(opts.repos@[0]@)
                } else {
                    None
                },
            );
            match listed {
                Some(p) => r matches WorktreePlan::Reuse { path, recheck } && path@ == p && recheck
                    == !crate::paths::same_way(p, place),
                None => if opts.repos@.len() > 0 {
                    r is CreateMeta
                } else {
                    r is CreateGit
                },
            }
        }),
{
    let listed = match porcelain {
        Some(p) => find_listed_worktree(p, opts.branch.as_str()),
        None => None,
    };
    match listed {
        Some(path) => {
            let place = if opts.repos.len() > 0 {
                worktree_path(
                    opts.worktree_base.as_str(),
                    opts.branch.as_str(),
                    Some(opts.repos[0].as_str()),
                )
            } else {
                worktree_path(opts.worktree_base.as_str(), opts.branch.as_str(), None)
            };
            let recheck = !crate::paths::is_same_way(path.as_str(), place.as_str());
            WorktreePlan::Reuse { path, recheck }
        },
        None => if opts.repos.len() > 0 {
            WorktreePlan::CreateMeta
        } else {
            WorktreePlan::CreateGit
        },
    }
}

/// The error for a worktree that could not be made.
pub open spec fn creation_error(is_meta: bool, answer: ToolAnswer) -> Seq<char> {
    (if is_meta {
        "meta git worktree create failed (exit "@
    } else {
        "git worktree add failed (exit "@
    }) + exit_text(answer.code) + "):\n"@ + answer.stderr@
}

/// The worktree, once the plan was carried out. `answer` is what the program that
/// creates it answered; it does not matter where one is reused.
pub fn ensure_worktree(opts: &WorktreeOpts, plan: WorktreePlan, answer: &ToolAnswer) -> (r: Result<
    WorktreeResult,
    String,
>)
    ensures
        ({
            let is_meta = opts.repos@.len() > 0;
            match plan {
                WorktreePlan::Reuse { path, recheck } => r matches Ok(w) && w.path@ == path@
                    && !w.created && w.is_meta == is_meta,
                _ => if answer.success {
                    r matches Ok(w) && w.created && w.is_meta == is_meta && w.path@
                        == worktree_place(
                        opts.worktree_base@,
                        opts.branch@,
                        if is_meta {
                            Some(opts.repos@[0]@)
                        } else {
                            None
                        },
                    )
                } else {
                    r matches Err(e) && e@ == creation_error(is_meta, *answer)
                },
            }
        }),
{
    let is_meta = opts.repos.len() > 0;
    if let WorktreePlan::Reuse { path, recheck: _ } = plan {
        return Ok(WorktreeResult { path, created: false, is_meta });
    }
    if !answer.success {
        let head = if is_meta {
            "meta git worktree create failed (exit "
        } else {
            "git worktree add failed (exit "
        };
        let mut e = concat(head, write_exit(answer.code).as_str());
        push_str(&mut e, "):\n");
        push_str(&mut e, answer.stderr.as_str());
        return Err(e);
    }
    let path = if is_meta {
        worktree_path(
            opts.worktree_base.as_str(),
            opts.branch.as_str(),
            Some(opts.repos[0].as_str()),
        )
    } else {
        worktree_path(opts.worktree_base.as_str(), opts.branch.as_str(), None)
    };
    Ok(WorktreeResult { path, created: true, is_meta })
}

/// `--repo <repo>` for each repository.
pub open spec fn repo_flags(repos: Seq<Seq<char>>) -> Seq<Seq<char>>
    decreases repos.len(),
{
    if repos.len() == 0 {
        Seq::empty()
    } else {
        repo_flags(repos.drop_last()) + seq!["--repo"@, repos.last()]
    }
}

/// Build the argument list for `meta git worktree create`.
///
/// Always passes `--recursive` so nested `.meta.yaml` `depends_on` entries
/// are resolved transitively.
pub fn build_meta_worktree_args(
    sanitized_branch: &str,
    repos: &Vec<String>,
    branch: &str,
) -> (r: Vec<String>)
    ensures
        text::views(r@) == seq![
            "git"@,
            "worktree"@,
            "create"@,
            sanitized_branch@,
            "--recursive"@,
        ] + repo_flags(text::views(repos@)) + seq!["--branch"@, branch@],
{
    let mut args: Vec<String> = Vec::new();
    args.push("git".to_owned());
    args.push("worktree".to_owned());
    args.push("create".to_owned());
    args.push(sanitized_branch.to_owned());
    args.push("--recursive".to_owned());
    let ghost head = seq!["git"@, "worktree"@, "create"@, sanitized_branch@, "--recursive"@];
    let ghost all = text::views(repos@);
    proof {
        assert(all.take(0) =~= Seq::<Seq<char>>::empty());
        assert(text::views(args@) =~= head + repo_flags(all.take(0)));
    }
    let mut i: usize = 0;
    while i < repos.len()
        invariant
            i <= repos.len(),
            all == text::views(repos@),
            text::views(args@) == head + repo_flags(all.take(i as int)),
        decreases repos.len() - i,
    {
        proof {
            assert(all.take(i + 1).drop_last() =~= all.take(i as int));
            assert(all.take(i + 1).last() == repos@[i as int]@);
        }
        let ghost sofar = args@;
        args.push("--repo".to_owned());
        args.push(repos[i].clone());
        i += 1;
        proof {
            assert(text::views(args@) =~= text::views(sofar) + seq!["--repo"@, repos@[i - 1]@]);
            assert(text::views(args@) =~= head + repo_flags(all.take(i as int)));
        }
    }
    args.push("--branch".to_owned());
    args.push(branch.to_owned());
    proof {
        assert(all.take(i as int) =~= all);
        assert(text::views(args@) =~= head + repo_flags(all) + seq!["--branch"@, branch@]);
    }
    args
}

/// The argument list for `git worktree add`: a branch that does not exist yet
/// is created with `-b`.
pub fn build_git_worktree_args(path: &str, branch: &str, branch_exists: bool) -> (r: Vec<String>)
    ensures
        text::views(r@) == if branch_exists {
            seq!["worktree"@, "add"@, path@, branch@]
        } else {
            seq!["worktree"@, "add"@, path@, "-b"@, branch@]
        },
{
    let mut args: Vec<String> = Vec::new();
    args.push("worktree".to_owned());
    args.push("add".to_owned());
    args.push(path.to_owned());
    if !branch_exists {
        args.push("-b".to_owned());
    }
    args.push(branch.to_owned());
    proof {
        if branch_exists {
            assert(text::views(args@) =~= seq!["worktree"@, "add"@, path@, branch@]);
        } else {
            assert(text::views(args@) =~= seq!["worktree"@, "add"@, path@, "-b"@, branch@]);
        }
    }
    args
}

/// The first of the two environment tokens that is not blank, trimmed.
pub open spec fn env_token(gh: Option<Seq<char>>, github: Option<Seq<char>>) -> Option<Seq<char>> {
    if gh is Some && text::trimmed(gh->0).len() > 0 {
        Some(text::trimmed(gh->0))
    } else if github is Some && text::trimmed(github->0).len() > 0 {
        Some(text::trimmed(github->0))
    } else {
        None
    }
}

/// The token that `GH_TOKEN` or else `GITHUB_TOKEN` gives; where neither does,
/// `gh auth token` is asked.
pub fn token_from_env(gh: &Option<String>, github: &Option<String>) -> (r: Option<String>)
    ensures
        strmap::opt_view(r) == env_token(strmap::opt_view(*gh), strmap::opt_view(*github)),
{
    if let Some(t) = gh {
        let t = text::trim(t.as_str());
        if !t.as_str().is_empty() {
            return Some(t);
        }
    }
    if let Some(t) = github {
        let t = text::trim(t.as_str());
        if !t.as_str().is_empty() {
            return Some(t);
        }
    }
    None
}

/// Output of a command that must name something: trimmed, and not blank.
pub fn named_output(stdout: &str) -> (r: Option<String>)
    ensures
        r is None <==> text::trimmed(stdout@).len() == 0,
        r matches Some(t) ==> t@ == text::trimmed(stdout@),
{
    let t = text::trim(stdout);
    if t.as_str().is_empty() {
        None
    } else {
        Some(t)
    }
}

/// How a helper program ended, and what it printed.
pub struct ToolAnswer {
    pub success: bool,
    pub code: Option<i32>,
    pub stdout: String,
    pub stderr: String,
}

/// An exit code as it stands in messages.
pub open spec fn exit_text(code: Option<i32>) -> Seq<char> {
    match code {
        Some(c) => "Some("@ + text::decimal_int(c as int) + ")"@,
        None => "None"@,
    }
}

fn write_exit(code: Option<i32>) -> (r: String)
    ensures
        r@ == exit_text(code),
{
    match code {
        Some(c) => {
            let mut out = concat("Some(", write_i64(c as i64).as_str());
            push_str(&mut out, ")");
            out
        },
        None => "None".to_owned(),
    }
}

/// The token in the answer of `gh auth token`.
pub fn token_of_answer(answer: &ToolAnswer) -> (r: Result<String, String>)
    ensures
        if !answer.success {
            r matches Err(e) && e@ == "could not resolve GH_TOKEN: gh auth token failed (exit "@
                + exit_text(answer.code) + ")"@
        } else if text::trimmed(answer.stdout@).len() == 0 {
            r matches Err(e) && e@
                == "could not resolve GH_TOKEN: gh auth token returned an empty token"@
        } else {
            r matches Ok(t) && t@ == text::trimmed(answer.stdout@)
        },
{
    if !answer.success {
        let mut e = concat(
            "could not resolve GH_TOKEN: gh auth token failed (exit ",
            write_exit(answer.code).as_str(),
        );
        push_str(&mut e, ")");
        return Err(e);
    }
    match named_output(answer.stdout.as_str()) {
        Some(t) => Ok(t),
        None => Err(
            "could not resolve GH_TOKEN: gh auth token returned an empty token".to_owned(),
        ),
    }
}

/// The head branch of a pull request in the answer of `gh pr view`.
pub fn extract_pr_head_branch(pr_url: &str, answer: &ToolAnswer) -> (r: Result<String, String>)
    ensures
        if !answer.success {
            r matches Err(e) && e@ == "gh pr view --json headRefName failed (exit "@ + exit_text(
                answer.code,
            ) + "):\n"@ + answer.stderr@
        } else if text::trimmed(answer.stdout@).len() == 0 {
            r matches Err(e) && e@ == "gh pr view returned empty headRefName for "@ + pr_url@
        } else {
            r matches Ok(b) && b@ == text::trimmed(answer.stdout@)
        },
{
    if !answer.success {
        let mut e = concat(
            "gh pr view --json headRefName failed (exit ",
            write_exit(answer.code).as_str(),
        );
        push_str(&mut e, "):\n");
        push_str(&mut e, answer.stderr.as_str());
        return Err(e);
    }
    match named_output(answer.stdout.as_str()) {
        Some(b) => Ok(b),
        None => Err(concat("gh pr view returned empty headRefName for ", pr_url)),
    }
}

/// How deep projects can be nested: `serde_json` reads no text that nests objects
/// and arrays deeper than 127, and each level of projects takes one of both.
pub const NESTING: u32 = 64;

/// The pointer to an item of an array.
pub open spec fn item_pointer(at: Seq<char>, i: nat) -> Seq<char> {
    at + "/"@ + text::decimal(i)
}

/// Whether these are the projects that bytes list at a pointer, none where they
/// hold no array there.
pub open spec fn are_listed(
    projects: Option<Vec<Project>>,
    bytes: Seq<u8>,
    at: Seq<char>,
    depth: nat,
) -> bool
    decreases depth, 0nat,
{
    match json::json_count(bytes, at) {
        Some(n) => if depth == 0 {
            projects is None
        } else {
            &&& projects is Some
            &&& projects->0@.len() == n
            &&& forall|i: int|
                0 <= i < n ==> is_listed(
                    #[trigger] projects->0@[i],
                    bytes,
                    item_pointer(at, i as nat),
                    (depth - 1) as nat,
                )
        },
        None => projects is None,
    }
}

/// Whether this is the project that bytes describe at a pointer.
pub open spec fn is_listed(project: Project, bytes: Seq<u8>, at: Seq<char>, depth: nat) -> bool
    decreases depth, 1nat,
{
    &&& strmap::opt_view(project.path) == json::json_text(bytes, at + "/path"@)
    &&& strmap::opt_view(project.repo) == json::json_text(bytes, at + "/repo"@)
    &&& are_listed(project.projects, bytes, at + "/projects"@, depth)
}

fn read_project(bytes: &Vec<u8>, at: &str, depth: u32) -> (r: Project)
    ensures
        is_listed(r, bytes@, at@, depth as nat),
    decreases depth, 1nat,
{
    let path = text_at(bytes, concat(at, "/path").as_str());
    let repo = text_at(bytes, concat(at, "/repo").as_str());
    let projects = read_projects(bytes, concat(at, "/projects").as_str(), depth);
    Project { path, repo, projects }
}

fn read_projects(bytes: &Vec<u8>, at: &str, depth: u32) -> (r: Option<Vec<Project>>)
    ensures
        are_listed(r, bytes@, at@, depth as nat),
    decreases depth, 0nat,
{
    let n = match count_at(bytes, at) {
        Some(n) => n,
        None => {
            return None;
        },
    };
    if depth == 0 {
        return None;
    }
    let mut out: Vec<Project> = Vec::new();
    let mut i: usize = 0;
    while i < n
        invariant
            i <= n,
            out@.len() == i,
            depth > 0,
            forall|k: int|
                0 <= k < i ==> is_listed(
                    #[trigger] out@[k],
                    bytes@,
                    item_pointer(at@, k as nat),
                    (depth - 1) as nat,
                ),
        decreases n - i,
    {
        let mut item = concat(at, "/");
        push_str(&mut item, write_u64(i as u64).as_str());
        let project = read_project(bytes, item.as_str(), depth - 1);
        out.push(project);
        i += 1;
    }
    Some(out)
}

/// The place of a repository among listed projects.
pub open spec fn listed_repo(projects: Option<Vec<Project>>, target: Seq<char>) -> Option<
    Seq<char>,
> {
    match projects {
        Some(list) => repo_in(list@, ""@, target),
        None => None,
    }
}

/// Whether `r` is the outcome of the search for a repository in a listing.
pub open spec fn search_outcome(
    r: Result<Option<String>, String>,
    bytes: Seq<u8>,
    target: Seq<char>,
) -> bool {
    match json::json_fault(bytes) {
        Some(fault) => r matches Err(e) && e@ == fault,
        None => exists|projects: Option<Vec<Project>>| #[trigger]
            are_listed(projects, bytes, "/projects"@, NESTING as nat) && (r matches Ok(found)
                && strmap::opt_view(found) == listed_repo(projects, target)),
    }
}

/// The place of a pull request's repository in the workspace, given what
/// `meta project list --recursive --json` prints, if it succeeds.
pub fn resolve_pr_repo_path(pr_url: &str, listing: Option<&Vec<u8>>) -> (r: Result<
    Option<String>,
    String,
>)
    ensures
        exists|repo: Option<Seq<char>>| #[trigger]
            pr_repository(pr_url@, repo) && match repo {
                None => r matches Err(e) && e@ == "cannot extract org/repo from PR URL: "@ + pr_url@,
                Some(target) => match listing {
                    Some(bytes) => search_outcome(r, bytes@, target),
                    None => r matches Ok(None),
                },
            },
{
    let target = match repository_of_pr(pr_url) {
        Some(target) => target,
        None => {
            return Err(concat("cannot extract org/repo from PR URL: ", pr_url));
        },
    };
    let ghost repo = Some(target@);
    proof {
        assert(pr_repository(pr_url@, repo));
    }
    let bytes = match listing {
        Some(bytes) => bytes,
        None => {
            return Ok(None);
        },
    };
    if let Some(fault) = find_fault(bytes) {
        return Err(fault);
    }
    let projects = read_projects(bytes, "/projects", NESTING);
    let found = match &projects {
        Some(list) => find_repo(list, "", target.as_str()),
        None => None,
    };
    proof {
        assert(are_listed(projects, bytes@, "/projects"@, NESTING as nat));
    }
    Ok(found)
}

proof fn listed_items_agree(
    a: Seq<Project>,
    b: Seq<Project>,
    bytes: Seq<u8>,
    at: Seq<char>,
    depth: nat,
    from: int,
    prefix: Seq<char>,
    target: Seq<char>,
)
    requires
        0 <= from <= a.len(),
        a.len() == b.len(),
        forall|i: int|
            0 <= i < a.len() ==> is_listed(
                #[trigger] a[i],
                bytes,
                item_pointer(at, i as nat),
                depth,
            ),
        forall|i: int|
            0 <= i < b.len() ==> is_listed(
                #[trigger] b[i],
                bytes,
                item_pointer(at, i as nat),
                depth,
            ),
    ensures
        repo_in(a.subrange(from, a.len() as int), prefix, target) == repo_in(
            b.subrange(from, b.len() as int),
            prefix,
            target,
        ),
    decreases depth, 2nat, a.len() - from,
{
    let x = a.subrange(from, a.len() as int);
    let y = b.subrange(from, b.len() as int);
    if from < a.len() {
        assert(x[0] == a[from] && y[0] == b[from]);
        assert(x.subrange(1, x.len() as int) =~= a.subrange(from + 1, a.len() as int));
        assert(y.subrange(1, y.len() as int) =~= b.subrange(from + 1, b.len() as int));
        listed_project_agrees(
            a[from],
            b[from],
            bytes,
            item_pointer(at, from as nat),
            depth,
            prefix,
            target,
        );
        listed_items_agree(a, b, bytes, at, depth, from + 1, prefix, target);
    }
}

proof fn listed_project_agrees(
    a: Project,
    b: Project,
    bytes: Seq<u8>,
    at: Seq<char>,
    depth: nat,
    prefix: Seq<char>,
    target: Seq<char>,
)
    requires
        is_listed(a, bytes, at, depth),
        is_listed(b, bytes, at, depth),
    ensures
        repo_at(a, prefix, target) == repo_at(b, prefix, target),
    decreases depth, 1nat, 0int,
{
    if a.path is Some {
        let full = project_path(prefix, a.path->0@);
        let inner = at + "/projects"@;
        if a.projects is Some {
            let x = a.projects->0@;
            let y = b.projects->0@;
            listed_items_agree(x, y, bytes, inner, (depth - 1) as nat, 0, full, target);
            assert(x.subrange(0, x.len() as int) =~= x);
            assert(y.subrange(0, y.len() as int) =~= y);
        }
    }
}

/// A listing is read in one way only: whichever projects stand for it, a search
/// for a repository finds the same place.
pub proof fn listing_decides_the_place(
    a: Option<Vec<Project>>,
    b: Option<Vec<Project>>,
    bytes: Seq<u8>,
    at: Seq<char>,
    depth: nat,
    target: Seq<char>,
)
    requires
        are_listed(a, bytes, at, depth),
        are_listed(b, bytes, at, depth),
    ensures
        listed_repo(a, target) == listed_repo(b, target),
{
    if a is Some {
        let x = a->0@;
        let y = b->0@;
        listed_items_agree(x, y, bytes, at, (depth - 1) as nat, 0, ""@, target);
        assert(x.subrange(0, x.len() as int) =~= x);
        assert(y.subrange(0, y.len() as int) =~= y);
    }
}

/// The head line of a diagnostic file and, if it ran, what `gh auth status`
/// printed.
pub fn diag_content(gh_token_present: bool, status: Option<(i32, &str, &str)>) -> (r: String)
    ensures
        r@ == (if gh_token_present {
            "GH_TOKEN set: yes\n"@
        } else {
            "GH_TOKEN set: no\n"@
        }) + (match status {
            Some((code, out, err)) => "gh auth status (exit "@ + text::decimal_int(code as int)
                + "):\n"@ + out@ + "\n"@ + err@ + "\n"@,
            None => Seq::empty(),
        }),
{
    let mut content = if gh_token_present {
        "GH_TOKEN set: yes\n".to_owned()
    } else {
        "GH_TOKEN set: no\n".to_owned()
    };
    if let Some((code, out, err)) = status {
        let mut tail = concat("gh auth status (exit ", write_i64(code as i64).as_str());
        push_str(&mut tail, "):\n");
        push_str(&mut tail, out);
        push_str(&mut tail, "\n");
        push_str(&mut tail, err);
        push_str(&mut tail, "\n");
        push_str(&mut content, tail.as_str());
    } else {
        proof {
            assert(content@ + Seq::<char>::empty() =~= content@);
        }
    }
    content
}

/// A workspace is found exactly where it holds the document: the main one, or one whose
/// name cannot lead elsewhere.
pub proof fn workspaces_with_the_document_are_found(
    in_main: bool,
    entries: Seq<WorkspaceEntry>,
    name: Seq<char>,
)
    ensures
        matching_workspaces(in_main, entries).contains(name) <==> (in_main && name == "main"@) || (
        name != "main"@ && name != "."@ && name != ".."@ && !name.contains('/') && !name.contains(
            '\\',
        ) && exists|i: int|
            0 <= i < entries.len() && (#[trigger] entries[i]).name@ == name
                && entries[i].has_document),
    decreases entries.len(),
{
    let all = matching_workspaces(in_main, entries);
    if entries.len() == 0 {
        if in_main {
            assert(all[0] == "main"@);
        }
    } else {
        let front = entries.drop_last();
        let last = entries.last();
        workspaces_with_the_document_are_found(in_main, front, name);
        let before = matching_workspaces(in_main, front);
        if before.contains(name) {
            let k = choose|k: int| 0 <= k < before.len() && before[k] == name;
            assert(all[k] == name);
        }
        if all.contains(name) && !before.contains(name) {
            let k = choose|k: int| 0 <= k < all.len() && all[k] == name;
            if k < before.len() {
                assert(before[k] == name);
            }
            assert(entries[entries.len() - 1] == last);
        }
        if exists|i: int|
            0 <= i < entries.len() && (#[trigger] entries[i]).name@ == name
                && entries[i].has_document {
            let i = choose|i: int|
                0 <= i < entries.len() && (#[trigger] entries[i]).name@ == name
                    && entries[i].has_document;
            if i < front.len() {
                assert(front[i] == entries[i]);
            } else if !passed_over(name) {
                assert(all[all.len() - 1] == name);
            }
        }
        if exists|i: int|
            0 <= i < front.len() && (#[trigger] front[i]).name@ == name && front[i].has_document {
            let i = choose|i: int|
                0 <= i < front.len() && (#[trigger] front[i]).name@ == name
                    && front[i].has_document;
            assert(entries[i] == front[i]);
        }
    }
}

proof fn off_main_holds(matches: Seq<Seq<char>>, m: Seq<char>)
    ensures
        off_main(matches).contains(m) <==> matches.contains(m) && m != "main"@,
    decreases matches.len(),
{
    if matches.len() > 0 {
        let front = matches.drop_last();
        off_main_holds(front, m);
        let all = off_main(matches);
        let before = off_main(front);
        if before.contains(m) {
            let k = choose|k: int| 0 <= k < before.len() && before[k] == m;
            assert(all[k] == m);
        }
        if all.contains(m) && !before.contains(m) {
            let k = choose|k: int| 0 <= k < all.len() && all[k] == m;
            if k < before.len() {
                assert(before[k] == m);
            }
            assert(matches[matches.len() - 1] == m);
        }
        if front.contains(m) {
            let k = choose|k: int| 0 <= k < front.len() && front[k] == m;
            assert(matches[k] == m);
        }
        if matches.contains(m) && !front.contains(m) {
            let k = choose|k: int| 0 <= k < matches.len() && matches[k] == m;
            if k < front.len() {
                assert(front[k] == m);
            }
            if m != "main"@ {
                assert(all[all.len() - 1] == m);
            }
        }
    }
}

proof fn least_is_first(list: Seq<Seq<char>>, m: Seq<char>)
    requires
        list.len() > 0,
    ensures
        list.contains(text::least(list)),
        list.contains(m) ==> !text::before(m, text::least(list)),
    decreases list.len(),
{
    if list.len() == 1 {
        assert(list[0] == text::least(list));
        crate::order::before_not_both(m, m);
    } else {
        let front = list.drop_last();
        let x = text::least(front);
        least_is_first(front, m);
        let k = choose|k: int| 0 <= k < front.len() && front[k] == x;
        assert(list[k] == x);
        assert(list[list.len() - 1] == list.last());
        crate::order::before_not_both(m, m);
        if list.contains(m) {
            let i = choose|i: int| 0 <= i < list.len() && list[i] == m;
            if i < front.len() {
                assert(front[i] == m);
            }
            if text::before(list.last(), x) && text::before(m, list.last()) {
                crate::order::before_between(m, x, list.last());
                crate::order::before_not_both(list.last(), x);
            }
        }
    }
}

/// Where the document is not on the current branch, the first workspace besides the main
/// one that holds it is chosen, in the order of their names, and the main one only where
/// there is no other.
pub proof fn other_workspaces_come_before_main(
    matches: Seq<Seq<char>>,
    current: Option<Seq<char>>,
    m: Seq<char>,
)
    requires
        matches.len() > 0,
        current is Some ==> !matches.contains(current->0) && !matches.contains(
            sanitized(current->0),
        ),
    ensures
        ({
            let chosen = chosen_workspace(matches, current);
            &&& matches.contains(m) && m != "main"@ ==> matches.contains(chosen) && chosen
                != "main"@ && !text::before(m, chosen)
            &&& (forall|i: int| 0 <= i < matches.len() ==> #[trigger] matches[i] == "main"@)
                ==> chosen == "main"@
        }),
{
    if current is Some {
        if current_match(matches, current->0) is Some {
            current_match_is_a_match(matches, current->0);
        }
    }
    let others = off_main(matches);
    off_main_holds(matches, m);
    if others.len() > 0 {
        least_is_first(others, m);
        off_main_holds(matches, text::least(others));
        assert(others.contains(others[0]));
        off_main_holds(matches, others[0]);
        let k = choose|k: int| 0 <= k < matches.len() && matches[k] == others[0];
        assert(matches[k] != "main"@);
    }
}

proof fn current_match_is_a_match(matches: Seq<Seq<char>>, c: Seq<char>)
    requires
        current_match(matches, c) is Some,
    ensures
        matches.contains(current_match(matches, c)->0),
        current_match(matches, c)->0 == c || current_match(matches, c)->0 == sanitized(c),
    decreases matches.len(),
{
    if matches.len() > 0 {
        let front = matches.drop_last();
        if current_match(front, c) is Some {
            current_match_is_a_match(front, c);
            let k = choose|k: int| 0 <= k < front.len() && front[k] == current_match(front, c)->0;
            assert(matches[k] == front[k]);
        } else {
            assert(matches[matches.len() - 1] == matches.last());
        }
    }
}

/// Of several places the first that exists is taken, and none where none does.
pub proof fn first_existing_place_is_taken(
    candidates: Seq<Seq<char>>,
    existing: Seq<Seq<char>>,
)
    ensures
        match first_existing(candidates, existing) {
            Some(p) => exists|i: int|
                0 <= i < candidates.len() && #[trigger] candidates[i] == p && existing.contains(p)
                    && forall|j: int|
                    0 <= j < i ==> !existing.contains(#[trigger] candidates[j]),
            None => forall|j: int|
                0 <= j < candidates.len() ==> !existing.contains(#[trigger] candidates[j]),
        },
    decreases candidates.len(),
{
    if candidates.len() > 0 {
        let front = candidates.drop_last();
        first_existing_place_is_taken(front, existing);
        match first_existing(front, existing) {
            Some(p) => {
                let i = choose|i: int|
                    0 <= i < front.len() && #[trigger] front[i] == p && existing.contains(p)
                        && forall|j: int| 0 <= j < i ==> !existing.contains(#[trigger] front[j]);
                assert(candidates[i] == p);
                assert forall|j: int| 0 <= j < i implies !existing.contains(
                    #[trigger] candidates[j],
                ) by {
                    assert(front[j] == candidates[j]);
                }
            },
            None => {
                assert forall|j: int| 0 <= j < front.len() implies !existing.contains(
                    #[trigger] candidates[j],
                ) by {
                    assert(front[j] == candidates[j]);
                }
                let n = candidates.len() - 1;
                assert(candidates[n] == candidates.last());
            },
        }
    }
}

/// A document is missing exactly where no workspace holds it. Else the agent works on the
/// workspace that is chosen: at the root for the main one, and for any other in its
/// worktree, below the base or below the root, or at the root where it has none.
pub proof fn documents_are_worked_on_where_they_are(
    scan: WorkspaceScan,
    base: Seq<char>,
    root: Seq<char>,
    existing: Seq<Seq<char>>,
)
    ensures
        ({
            let matches = matching_workspaces(scan.in_main, scan.entries@);
            let local = crate::paths::joined_path(root, ".worktrees"@);
            match document_workspace(scan, base, root, existing) {
                None => matches.len() == 0,
                Some((cwd, branch)) => {
                    &&& matches.len() > 0
                    &&& branch == chosen_workspace(
                        matches,
                        match scan.current_branch {
                            Some(b) => Some(b@),
                            None => None,
                        },
                    )
                    &&& branch == "main"@ ==> cwd == root
                    &&& branch != "main"@ ==> {
                        let a = crate::paths::joined_path(base, sanitized(branch));
                        let b = crate::paths::joined_path(base, branch);
                        let c = crate::paths::joined_path(local, sanitized(branch));
                        let d = crate::paths::joined_path(local, branch);
                        cwd == if existing.contains(a) {
                            a
                        } else if existing.contains(b) {
                            b
                        } else if existing.contains(c) {
                            c
                        } else if existing.contains(d) {
                            d
                        } else {
                            root
                        }
                    }
                },
            }
        }),
{
    let matches = matching_workspaces(scan.in_main, scan.entries@);
    let chosen = chosen_workspace(matches, strmap::opt_view(scan.current_branch));
    let all = worktree_candidates(chosen, base, root);
    first_existing_place_is_taken(all, existing);
    assert(all.len() == 4);
    assert(existing.contains(all[0]) || !existing.contains(all[0]));
    assert(existing.contains(all[1]) || !existing.contains(all[1]));
    assert(existing.contains(all[2]) || !existing.contains(all[2]));
    assert(existing.contains(all[3]) || !existing.contains(all[3]));
}

/// Line `j` says that the worktree of line `i` has the branch checked out: no other
/// worktree begins in between, and this one does not end.
pub open spec fn has_checked_out(
    lines: Seq<Seq<char>>,
    i: int,
    j: int,
    path: Seq<char>,
    branch: Seq<char>,
) -> bool {
    &&& 0 <= i < j < lines.len()
    &&& lines[i] == "worktree "@ + path
    &&& lines[j] == "branch refs/heads/"@ + branch
    &&& forall|k: int|
        i < k < j ==> (#[trigger] lines[k]).len() > 0 && !text::starts(lines[k], "worktree "@)
}

proof fn prefix_is(line: Seq<char>, p: Seq<char>)
    requires
        text::starts(line, p),
    ensures
        line == p + line.skip(p.len() as int),
{
    assert(line =~= p + line.skip(p.len() as int));
}

proof fn prefixed_starts(p: Seq<char>, rest: Seq<char>)
    ensures
        text::starts(p + rest, p),
        (p + rest).skip(p.len() as int) == rest,
{
    assert((p + rest).subrange(0, p.len() as int) =~= p);
    assert((p + rest).skip(p.len() as int) =~= rest);
}

proof fn branch_is_no_worktree(line: Seq<char>)
    requires
        text::starts(line, "branch refs/heads/"@),
    ensures
        !text::starts(line, "worktree "@),
        line.len() > 0,
{
    reveal_strlit("worktree ");
    reveal_strlit("branch refs/heads/");
    assert(line.subrange(0, "branch refs/heads/"@.len() as int)[0] == 'b');
    assert(line[0] == 'b');
    if text::starts(line, "worktree "@) {
        assert(line.subrange(0, "worktree "@.len() as int)[0] == 'w');
    }
}

/// The worktree of a branch is found in the list exactly where one is listed that has the
/// branch checked out, and it is one of these.
pub proof fn listed_worktrees_are_found(
    lines: Seq<Seq<char>>,
    from: int,
    current: Option<Seq<char>>,
    at: int,
    branch: Seq<char>,
)
    requires
        0 <= from <= lines.len(),
        current is Some ==> 0 <= at < from && lines[at] == "worktree "@ + current->0 && forall|
            k: int,
        |
            at < k < from ==> (#[trigger] lines[k]).len() > 0 && !text::starts(
                lines[k],
                "worktree "@,
            ),
    ensures
        listed_worktree(lines, from, current, branch) matches Some(p) ==> exists|i: int, j: int|
            from <= j && #[trigger] has_checked_out(lines, i, j, p, branch),
        listed_worktree(lines, from, current, branch) is None ==> forall|
            i: int,
            j: int,
            p: Seq<char>,
        |
            (from <= i || (current is Some && i == at)) && from <= j ==> !#[trigger]
                has_checked_out(lines, i, j, p, branch),
    decreases lines.len() - from,
{
    if from < lines.len() {
        let line = lines[from];
        if text::starts(line, "worktree "@) {
            let path = line.skip("worktree "@.len() as int);
            prefix_is(line, "worktree "@);
            listed_worktrees_are_found(lines, from + 1, Some(path), from, branch);
            if listed_worktree(lines, from, current, branch) is None {
                assert forall|i: int, j: int, p: Seq<char>|
                    (from <= i || (current is Some && i == at)) && from
                        <= j implies !#[trigger] has_checked_out(lines, i, j, p, branch) by {
                    if has_checked_out(lines, i, j, p, branch) {
                        if i < from {
                            if j > from {
                                assert(!text::starts(lines[from], "worktree "@));
                            } else {
                                prefixed_starts("branch refs/heads/"@, branch);
                                branch_is_no_worktree(lines[j]);
                            }
                        } else if i == from {
                            assert(from + 1 <= j);
                        }
                    }
                }
            }
        } else if text::starts(line, "branch refs/heads/"@) {
            branch_is_no_worktree(line);
            prefix_is(line, "branch refs/heads/"@);
            let b = line.skip("branch refs/heads/"@.len() as int);
            if b == branch && current is Some {
                assert(has_checked_out(lines, at, from, current->0, branch));
            } else {
                listed_worktrees_are_found(lines, from + 1, current, at, branch);
                if listed_worktree(lines, from, current, branch) is None {
                    assert forall|i: int, j: int, p: Seq<char>|
                        (from <= i || (current is Some && i == at)) && from
                            <= j implies !#[trigger] has_checked_out(lines, i, j, p, branch) by {
                        if has_checked_out(lines, i, j, p, branch) {
                            if i == from {
                                prefixed_starts("worktree "@, p);
                            }
                            if j == from {
                                prefixed_starts("branch refs/heads/"@, branch);
                            }
                        }
                    }
                }
            }
        } else {
            let then = if line.len() == 0 {
                None
            } else {
                current
            };
            listed_worktrees_are_found(lines, from + 1, then, at, branch);
            if listed_worktree(lines, from, current, branch) is None {
                assert forall|i: int, j: int, p: Seq<char>|
                    (from <= i || (current is Some && i == at)) && from
                        <= j implies !#[trigger] has_checked_out(lines, i, j, p, branch) by {
                    if has_checked_out(lines, i, j, p, branch) {
                        if i == from {
                            prefixed_starts("worktree "@, p);
                        }
                        if j == from {
                            prefixed_starts("branch refs/heads/"@, branch);
                        }
                        if i < from && from < j && line.len() == 0 {
                            assert(lines[from].len() > 0);
                        }
                    }
                }
            }
        }
    }
}

/// `GH_TOKEN` comes before `GITHUB_TOKEN`, blank ones do not count, and a token is given
/// without the space around it.
pub proof fn tokens_come_in_order(gh: Option<Seq<char>>, github: Option<Seq<char>>)
    ensures
        ({
            let filled = |t: Option<Seq<char>>| t is Some && text::trimmed(t->0).len() > 0;
            &&& filled(gh) ==> env_token(gh, github) == Some(text::trimmed(gh->0))
            &&& !filled(gh) && filled(github) ==> env_token(gh, github) == Some(
                text::trimmed(github->0),
            )
            &&& !filled(gh) && !filled(github) ==> env_token(gh, github) is None
        }),
{
}

/// The primary project of a workspace is the first that provides something, or else the
/// first that is not the workspace itself; there is none exactly where there is no
/// project.
pub proof fn primary_projects_come_first(entries: Seq<(Seq<char>, Option<Seq<char>>, bool)>)
    ensures
        match first_providing(entries) {
            Some(name) => exists|i: int|
                0 <= i < entries.len() && (#[trigger] entries[i]).2 && entries[i].0 == name
                    && forall|j: int| 0 <= j < i ==> !(#[trigger] entries[j]).2,
            None => forall|j: int| 0 <= j < entries.len() ==> !(#[trigger] entries[j]).2,
        },
        match first_named(entries) {
            Some(name) => name != "."@ && exists|i: int|
                0 <= i < entries.len() && (#[trigger] entries[i]).0 == name && forall|j: int|
                    0 <= j < i ==> (#[trigger] entries[j]).0 == "."@,
            None => forall|j: int| 0 <= j < entries.len() ==> (#[trigger] entries[j]).0 == "."@,
        },
        first_providing(entries) is Some ==> primary_entry(entries) == first_providing(entries),
        first_providing(entries) is None ==> primary_entry(entries) == first_named(entries),
    decreases entries.len(),
{
    if entries.len() > 0 {
        let front = entries.drop_last();
        let n = entries.len() - 1;
        primary_projects_come_first(front);
        assert(entries[n] == entries.last());
        assert forall|j: int| 0 <= j < n implies front[j] == #[trigger] entries[j] by {}
        match first_providing(front) {
            Some(name) => {
                let i = choose|i: int|
                    0 <= i < front.len() && (#[trigger] front[i]).2 && front[i].0 == name
                        && forall|j: int| 0 <= j < i ==> !(#[trigger] front[j]).2;
                assert(entries[i].2);
                assert forall|j: int| 0 <= j < i implies !(#[trigger] entries[j]).2 by {
                    assert(!front[j].2);
                }
            },
            None => {
                assert forall|j: int| 0 <= j < n implies !(#[trigger] entries[j]).2 by {
                    assert(!front[j].2);
                }
            },
        }
        match first_named(front) {
            Some(name) => {
                let i = choose|i: int|
                    0 <= i < front.len() && (#[trigger] front[i]).0 == name && forall|j: int|
                        0 <= j < i ==> (#[trigger] front[j]).0 == "."@;
                assert(entries[i].0 == name);
                assert forall|j: int| 0 <= j < i implies (#[trigger] entries[j]).0 == "."@ by {
                    assert(front[j].0 == "."@);
                }
            },
            None => {
                assert forall|j: int| 0 <= j < n implies (#[trigger] entries[j]).0 == "."@ by {
                    assert(front[j].0 == "."@);
                }
            },
        }
    }
}

proof fn words_hold_no_digits(word: Seq<char>)
    requires
        forall|i: int| 0 <= i < word.len() ==> !('0' <= #[trigger] word[i] <= '9'),
    ensures
        digits_of(word) == Seq::<char>::empty(),
    decreases word.len(),
{
    reveal(Seq::filter);
    if word.len() > 0 {
        let front = word.drop_last();
        assert forall|i: int| 0 <= i < front.len() implies !('0' <= #[trigger] front[i] <= '9') by {
            assert(front[i] == word[i]);
        }
        words_hold_no_digits(front);
        assert(word.last() == word[word.len() - 1]);
    }
}

proof fn numbers_are_all_digits(number: Seq<char>)
    requires
        forall|i: int| 0 <= i < number.len() ==> '0' <= #[trigger] number[i] <= '9',
    ensures
        digits_of(number) == number,
    decreases number.len(),
{
    reveal(Seq::filter);
    if number.len() > 0 {
        let front = number.drop_last();
        assert forall|i: int| 0 <= i < front.len() implies '0' <= #[trigger] front[i] <= '9' by {
            assert(front[i] == number[i]);
        }
        numbers_are_all_digits(front);
        assert(number.last() == number[number.len() - 1]);
        assert(front.push(number.last()) =~= number);
    } else {
        assert(digits_of(number) =~= number);
    }
}

proof fn digits_behind_words(word: Seq<char>, number: Seq<char>)
    requires
        forall|i: int| 0 <= i < word.len() ==> !('0' <= #[trigger] word[i] <= '9'),
        forall|i: int| 0 <= i < number.len() ==> '0' <= #[trigger] number[i] <= '9',
    ensures
        digits_of(word + number) == number,
{
    words_hold_no_digits(word);
    numbers_are_all_digits(number);
    Seq::filter_distributes_over_add(word, number, |c: char| '0' <= c <= '9');
    assert(Seq::<char>::empty() + number =~= number);
}

proof fn fragments_are_found(
    base: Seq<char>,
    mark: Seq<char>,
    word: Seq<char>,
    number: Seq<char>,
    kind: Seq<char>,
)
    requires
        !base.contains('#'),
        mark == seq!['#'] + word,
        forall|i: int| 0 <= i < word.len() ==> !('0' <= #[trigger] word[i] <= '9') && word[i] != '#',
        text::is_number(number),
    ensures
        comment_kind(word + number) == Some(kind) ==> comment_of(base + mark + number) == Some(
            (number, kind),
        ),
        comment_kind(word + number) is None ==> comment_of(base + mark + number) is None,
{
    let f = word + number;
    assert(!f.contains('#')) by {
        if f.contains('#') {
            let i = choose|i: int| 0 <= i < f.len() && f[i] == '#';
            if i < word.len() {
                assert(word[i] == '#');
            } else {
                assert(number[i - word.len()] == '#');
            }
        }
    }
    assert(base + mark + number =~= base.push('#') + f);
    text::pieces_end_at_separators(base, '#', f);
    text::pieces_end_at_separators(f, '#', Seq::empty());
    assert(seq![base] + seq![f] =~= seq![base, f]);
    digits_behind_words(word, number);
    let parts = text::split_on(base + mark + number, '#');
    assert(parts.len() == 2 && parts[1] == f);
}

proof fn words_begin_their_fragments(word: Seq<char>, number: Seq<char>)
    ensures
        text::starts(word + number, word),
{
    assert((word + number).subrange(0, word.len() as int) =~= word);
}

proof fn other_words_do_not(word: Seq<char>, number: Seq<char>, other: Seq<char>)
    requires
        word.len() > 0 && other.len() > 0,
        word[0] != other[0],
    ensures
        !text::starts(word + number, other),
{
    let f = word + number;
    if text::starts(f, other) {
        assert(f.subrange(0, other.len() as int)[0] == other[0]);
        assert(f[0] == word[0]);
    }
}

/// The fragment of an address tells the comment it leads to: its number, and whether
/// it stands under the issue, at a line of a review, or over a review. Without a
/// fragment there is no comment.
pub proof fn comments_are_told_by_their_fragment(base: Seq<char>, number: Seq<char>)
    requires
        !base.contains('#'),
        text::is_number(number),
    ensures
        comment_of(base) is None,
        comment_of(base + "#issuecomment-"@ + number) == Some((number, "issue"@)),
        comment_of(base + "#discussion_r"@ + number) == Some((number, "review_comment"@)),
        comment_of(base + "#pullrequestreview-"@ + number) == Some((number, "review"@)),
        comment_of(base + "#"@ + number) is None,
{
    text::pieces_end_at_separators(base, '#', Seq::empty());
    issue_comments_are_told(base, number);
    review_comments_are_told(base, number);
    reviews_are_told(base, number);
    numbers_alone_tell_nothing(base, number);
}

proof fn issue_comments_are_told(base: Seq<char>, number: Seq<char>)
    requires
        !base.contains('#'),
        text::is_number(number),
    ensures
        comment_of(base + "#issuecomment-"@ + number) == Some((number, "issue"@)),
{
    let word = "issuecomment-"@;
    assert(word.len() > 0 && "#issuecomment-"@ =~= seq!['#'] + word) by {
        reveal_strlit("#issuecomment-");
        reveal_strlit("issuecomment-");
    }
    assert forall|i: int| 0 <= i < word.len() implies !('0' <= #[trigger] word[i] <= '9') && word[i]
        != '#' by {
        reveal_strlit("issuecomment-");
    }
    words_begin_their_fragments(word, number);
    fragments_are_found(base, "#issuecomment-"@, word, number, "issue"@);
}

proof fn review_comments_are_told(base: Seq<char>, number: Seq<char>)
    requires
        !base.contains('#'),
        text::is_number(number),
    ensures
        comment_of(base + "#discussion_r"@ + number) == Some((number, "review_comment"@)),
{
    let word = "discussion_r"@;
    assert(word.len() > 0 && "#discussion_r"@ =~= seq!['#'] + word) by {
        reveal_strlit("#discussion_r");
        reveal_strlit("discussion_r");
    }
    assert forall|i: int| 0 <= i < word.len() implies !('0' <= #[trigger] word[i] <= '9') && word[i]
        != '#' by {
        reveal_strlit("discussion_r");
    }
    words_begin_their_fragments(word, number);
    assert("issuecomment-"@.len() > 0 && word[0] != "issuecomment-"@[0]) by {
        reveal_strlit("discussion_r");
        reveal_strlit("issuecomment-");
    }
    other_words_do_not(word, number, "issuecomment-"@);
    fragments_are_found(base, "#discussion_r"@, word, number, "review_comment"@);
}

proof fn reviews_are_told(base: Seq<char>, number: Seq<char>)
    requires
        !base.contains('#'),
        text::is_number(number),
    ensures
        comment_of(base + "#pullrequestreview-"@ + number) == Some((number, "review"@)),
{
    let word = "pullrequestreview-"@;
    assert(word.len() > 0 && "#pullrequestreview-"@ =~= seq!['#'] + word) by {
        reveal_strlit("#pullrequestreview-");
        reveal_strlit("pullrequestreview-");
    }
    assert forall|i: int| 0 <= i < word.len() implies !('0' <= #[trigger] word[i] <= '9') && word[i]
        != '#' by {
        reveal_strlit("pullrequestreview-");
    }
    words_begin_their_fragments(word, number);
    assert("issuecomment-"@.len() > 0 && word[0] != "issuecomment-"@[0]) by {
        reveal_strlit("pullrequestreview-");
        reveal_strlit("issuecomment-");
    }
    other_words_do_not(word, number, "issuecomment-"@);
    assert("discussion_r"@.len() > 0 && word[0] != "discussion_r"@[0]) by {
        reveal_strlit("pullrequestreview-");
        reveal_strlit("discussion_r");
    }
    other_words_do_not(word, number, "discussion_r"@);
    fragments_are_found(base, "#pullrequestreview-"@, word, number, "review"@);
}

proof fn numbers_alone_tell_nothing(base: Seq<char>, number: Seq<char>)
    requires
        !base.contains('#'),
        text::is_number(number),
    ensures
        comment_of(base + "#"@ + number) is None,
{
    reveal_strlit("#");
    reveal_strlit("issuecomment-");
    reveal_strlit("discussion_r");
    reveal_strlit("pullrequestreview-");
    let none = Seq::<char>::empty();
    assert(none + number =~= number);
    assert('0' <= number[0] <= '9');
    assert(number + none =~= number);
    other_words_do_not(number, none, "issuecomment-"@);
    other_words_do_not(number, none, "discussion_r"@);
    other_words_do_not(number, none, "pullrequestreview-"@);
    assert("#"@ =~= seq!['#'] + none);
    fragments_are_found(base, "#"@, none, number, none);
}

/// A remote is known by its owner and its name, whichever way it is reached and
/// however its address ends.
pub proof fn remotes_are_known_by_their_name(name: Seq<char>)
    requires
        !text::starts(name, "git@github.com:"@),
        !text::starts(name, "https://github.com/"@),
        !text::ends(name, ".git"@),
    ensures
        normalized_remote(name) == name,
        normalized_remote("git@github.com:"@ + name) == name,
        normalized_remote("git@github.com:"@ + name + ".git"@) == name,
        normalized_remote("https://github.com/"@ + name) == name,
        normalized_remote("https://github.com/"@ + name + ".git"@) == name,
{
    reveal_strlit("git@github.com:");
    reveal_strlit("https://github.com/");
    reveal_strlit(".git");
    let ssh = "git@github.com:"@;
    let web = "https://github.com/"@;
    let git = ".git"@;
    let long = name + git;
    assert(long.subrange(name.len() as int, long.len() as int) =~= git);
    assert(long.take(long.len() - git.len()) =~= name);
    assert(without_suffixes(name, git) == name);
    assert(without_suffixes(long, git) == name);
    assert(!text::starts(long, ssh) && !text::starts(long, web)) by {
        if text::starts(long, ssh) {
            if name.len() >= ssh.len() {
                assert(name.subrange(0, ssh.len() as int) =~= long.subrange(0, ssh.len() as int));
            } else {
                let n = name.len() as int;
                assert(long.subrange(0, ssh.len() as int)[n] == ssh[n]);
                assert(long[n] == '.');
                assert(long.subrange(0, ssh.len() as int)[n + 1] == ssh[n + 1]);
                assert(long[n + 1] == 'g');
            }
        }
        if text::starts(long, web) {
            if name.len() >= web.len() {
                assert(name.subrange(0, web.len() as int) =~= long.subrange(0, web.len() as int));
            } else {
                let n = name.len() as int;
                assert(long.subrange(0, web.len() as int)[n] == web[n]);
                assert(long[n] == '.');
                assert(long.subrange(0, web.len() as int)[n + 1] == web[n + 1]);
                assert(long[n + 1] == 'g');
            }
        }
    }
    remote_loses_its_host(name);
    remote_loses_its_host(long);
    assert(ssh + name + git =~= ssh + long);
    assert(web + name + git =~= web + long);
}

proof fn remote_loses_its_host(rest: Seq<char>)
    requires
        !text::starts(rest, "git@github.com:"@),
        !text::starts(rest, "https://github.com/"@),
    ensures
        ({
            let ssh = "git@github.com:"@;
            let web = "https://github.com/"@;
            &&& without_prefixes(without_prefixes(rest, ssh), web) == rest
            &&& without_prefixes(without_prefixes(ssh + rest, ssh), web) == rest
            &&& without_prefixes(without_prefixes(web + rest, ssh), web) == rest
        }),
{
    reveal_strlit("git@github.com:");
    reveal_strlit("https://github.com/");
    let ssh = "git@github.com:"@;
    let web = "https://github.com/"@;
    assert(without_prefixes(rest, ssh) == rest);
    assert(without_prefixes(rest, web) == rest);
    let a = ssh + rest;
    assert(a.subrange(0, ssh.len() as int) =~= ssh);
    assert(a.skip(ssh.len() as int) =~= rest);
    assert(without_prefixes(a, ssh) == rest);
    let b = web + rest;
    assert(!text::starts(b, ssh)) by {
        if text::starts(b, ssh) {
            assert(b.subrange(0, ssh.len() as int)[0] == ssh[0]);
            assert(b[0] == web[0]);
        }
    }
    assert(without_prefixes(b, ssh) == b);
    assert(b.subrange(0, web.len() as int) =~= web);
    assert(b.skip(web.len() as int) =~= rest);
    assert(without_prefixes(b, web) == rest);
}

/// Projects are searched one after the other, each before what it nests. One that
/// has no path, or a path that leads elsewhere, is passed over with all it nests.
pub proof fn projects_are_searched_in_order(
    project: Project,
    others: Seq<Project>,
    prefix: Seq<char>,
    target: Seq<char>,
)
    ensures
        repo_in(Seq::empty(), prefix, target) is None,
        repo_at(project, prefix, target) is Some ==> repo_in(
            seq![project] + others,
            prefix,
            target,
        ) == repo_at(project, prefix, target),
        repo_at(project, prefix, target) is None ==> repo_in(
            seq![project] + others,
            prefix,
            target,
        ) == repo_in(others, prefix, target),
        project.path is None ==> repo_at(project, prefix, target) is None,
        project.path matches Some(path) ==> {
            let at = if prefix.len() == 0 || prefix == "."@ {
                path@
            } else {
                prefix + "/"@ + path@
            };
            let leads_elsewhere = crate::paths::absolute(path@) || crate::paths::climbs(path@)
                || crate::paths::starts_here(path@);
            let named = project.repo matches Some(repo) && normalized_remote(repo@) == target;
            &&& leads_elsewhere ==> repo_at(project, prefix, target) is None
            &&& !leads_elsewhere && named ==> repo_at(project, prefix, target) == Some(at)
            &&& !leads_elsewhere && !named && project.projects is None ==> repo_at(
                project,
                prefix,
                target,
            ) is None
            &&& !leads_elsewhere && !named && project.projects is Some ==> repo_at(
                project,
                prefix,
                target,
            ) == repo_in(project.projects->0@, at, target)
        },
{
    let all = seq![project] + others;
    assert(all[0] == project);
    assert(all.subrange(1, all.len() as int) =~= others);
}

/// Each repository is handed on behind a flag of its own.
pub proof fn each_repository_has_its_flag(repos: Seq<Seq<char>>, i: int)
    requires
        0 <= i < repos.len(),
    ensures
        repo_flags(repos).len() == 2 * repos.len(),
        repo_flags(repos)[2 * i] == "--repo"@,
        repo_flags(repos)[2 * i + 1] == repos[i],
    decreases repos.len(),
{
    let front = repos.drop_last();
    if front.len() == 0 {
        assert(repo_flags(front).len() == 0);
    } else if i < front.len() {
        each_repository_has_its_flag(front, i);
        assert(front[i] == repos[i]);
    } else {
        each_repository_has_its_flag(front, 0);
    }
}

/// A meta workspace is discovered where it has a primary repository. Its root is the
/// path under its own name, or else where it was asked for.
pub proof fn workspaces_are_discovered(
    entries: Seq<(Seq<char>, Option<Seq<char>>, bool)>,
    last: (Seq<char>, Option<Seq<char>>, bool),
    cwd: Seq<char>,
)
    ensures
        discovered(entries, cwd) is Some <==> primary_entry(entries) is Some,
        discovered(entries, cwd) matches Some((repo, root)) ==> {
            &&& primary_entry(entries) == Some(repo)
            &&& root_entry_path(entries) is Some ==> root_entry_path(entries) == Some(root)
            &&& root_entry_path(entries) is None ==> root == cwd
        },
        root_entry_path(Seq::empty()) is None,
        last.0 == "."@ ==> root_entry_path(entries.push(last)) == last.1,
        last.0 != "."@ ==> root_entry_path(entries.push(last)) == root_entry_path(entries),
{
    assert(entries.push(last).drop_last() =~= entries);
}

} // verus!
