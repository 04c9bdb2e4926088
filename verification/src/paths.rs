//! Slash-separated paths as text.

use vstd::prelude::*;
use crate::text::{self, concat, contains_char, same, split};

verus! {

pub open spec fn absolute(p: Seq<char>) -> bool {
    p.len() > 0 && p[0] == '/'
}

pub fn is_absolute(p: &str) -> (r: bool)
    ensures
        r == absolute(p@),
{
    !p.is_empty() && p.get_char(0) == '/'
}

/// `b` seen from `a`: an absolute `b` stands for itself.
pub open spec fn joined_path(a: Seq<char>, b: Seq<char>) -> Seq<char> {
    if absolute(b) {
        b
    } else if a.len() == 0 || a.last() == '/' {
        a + b
    } else {
        a + seq!['/'] + b
    }
}

pub fn join_path(a: &str, b: &str) -> (r: String)
    ensures
        r@ == joined_path(a@, b@),
{
    if is_absolute(b) {
        return b.to_owned();
    }
    let n = a.unicode_len();
    if n == 0 || a.get_char(n - 1) == '/' {
        concat(a, b)
    } else {
        let mut base = a.to_owned();
        base.push('/');
        proof {
            assert(base@ =~= a@ + seq!['/']);
        }
        concat(base.as_str(), b)
    }
}

/// One of the parts between slashes is `..`.
pub open spec fn climbs(p: Seq<char>) -> bool {
    exists|i: int| 0 <= i < text::split_on(p, '/').len() && #[trigger] text::split_on(p, '/')[i] == ".."@
}

/// The part before the first slash is `.`.
pub open spec fn starts_here(p: Seq<char>) -> bool {
    text::split_on(p, '/')[0] == "."@
}

pub fn has_parent_part(p: &str) -> (r: bool)
    ensures
        r == climbs(p@),
{
    let parts = split(p, '/');
    let mut i: usize = 0;
    while i < parts.len()
        invariant
            i <= parts.len(),
            text::views(parts@) == text::split_on(p@, '/'),
            forall|j: int| 0 <= j < i ==> #[trigger] text::split_on(p@, '/')[j] != ".."@,
        decreases parts.len() - i,
    {
        proof {
            assert(text::views(parts@)[i as int] == parts@[i as int]@);
        }
        if same(parts[i].as_str(), "..") {
            return true;
        }
        i += 1;
    }
    proof {
        assert(text::views(parts@).len() == parts@.len());
    }
    false
}

pub fn has_leading_current_part(p: &str) -> (r: bool)
    ensures
        r == starts_here(p@),
{
    let parts = split(p, '/');
    proof {
        assert(text::views(parts@)[0] == parts@[0]@);
    }
    same(parts[0].as_str(), ".")
}

/// A relative path that names nothing above the place it is joined to.
pub open spec fn stays_below(p: Seq<char>) -> bool {
    !absolute(p) && !climbs(p)
}

pub fn is_below(p: &str) -> (r: bool)
    ensures
        r == stays_below(p@),
{
    !is_absolute(p) && !has_parent_part(p)
}

/// A document slug that must not be joined to a directory.
pub open spec fn unsafe_slug(s: Seq<char>) -> bool {
    absolute(s) || s.contains('\\') || s.contains('\0') || climbs(s) || starts_here(s)
}

pub fn is_unsafe_slug(s: &str) -> (r: bool)
    ensures
        r == unsafe_slug(s@),
{
    is_absolute(s) || contains_char(s, '\\') || contains_char(s, '\0') || has_parent_part(s)
        || has_leading_current_part(s)
}

/// A path that stays below, joined to a directory, begins with that directory.
pub proof fn joined_path_begins_with_base(base: Seq<char>, p: Seq<char>)
    requires
        stays_below(p),
    ensures
        text::starts(joined_path(base, p), base),
{
    assert(joined_path(base, p).subrange(0, base.len() as int) =~= base);
}

/// A slug that is not unsafe stays below the directory it is joined to.
pub proof fn safe_slug_stays_below(base: Seq<char>, s: Seq<char>)
    requires
        !unsafe_slug(s),
    ensures
        stays_below(s),
        text::starts(joined_path(base, s), base),
{
    joined_path_begins_with_base(base, s);
}

/// The last part of a path that is neither empty nor `.`, unless it is `..`:
/// counting parts from the left, `n` of them.
pub open spec fn last_name(parts: Seq<Seq<char>>, n: int) -> Option<Seq<char>>
    decreases n,
{
    if n <= 0 {
        None
    } else {
        let part = parts[n - 1];
        if part.len() == 0 || (part == "."@ && n > 1) {
            last_name(parts, n - 1)
        } else if part == "."@ || part == ".."@ {
            None
        } else {
            Some(part)
        }
    }
}

/// The final name in a path.
pub open spec fn file_name_of(p: Seq<char>) -> Option<Seq<char>> {
    let parts = text::split_on(p, '/');
    last_name(parts, parts.len() as int)
}

pub fn file_name(p: &str) -> (r: Option<String>)
    ensures
        crate::strmap::opt_view(r) == file_name_of(p@),
{
    let parts = split(p, '/');
    let mut n: usize = parts.len();
    let ghost all = text::split_on(p@, '/');
    proof {
        assert(all.len() == parts@.len());
    }
    while n > 0
        invariant
            n <= parts.len(),
            all == text::views(parts@),
            all == text::split_on(p@, '/'),
            last_name(all, n as int) == file_name_of(p@),
        decreases n,
    {
        let part = &parts[n - 1];
        proof {
            assert(all[n - 1] == part@);
        }
        if part.as_str().is_empty() || (same(part.as_str(), ".") && n > 1) {
            n -= 1;
        } else if same(part.as_str(), ".") || same(part.as_str(), "..") {
            return None;
        } else {
            return Some(part.clone());
        }
    }
    None
}

/// A file name never holds a slash and is never `.` or `..`, so joining it to a
/// directory stays in that directory.
pub proof fn file_name_is_plain(p: Seq<char>)
    requires
        file_name_of(p) is Some,
    ensures
        !file_name_of(p)->0.contains('/'),
        file_name_of(p)->0.len() > 0,
        file_name_of(p)->0 != "."@,
        file_name_of(p)->0 != ".."@,
{
    let parts = text::split_on(p, '/');
    text::split_pieces_lack_separator(p, '/');
    last_name_is_part(parts, parts.len() as int);
}

proof fn last_name_is_part(parts: Seq<Seq<char>>, n: int)
    requires
        n <= parts.len(),
        last_name(parts, n) is Some,
    ensures
        exists|i: int| 0 <= i < parts.len() && #[trigger] parts[i] == last_name(parts, n)->0,
        last_name(parts, n)->0.len() > 0,
        last_name(parts, n)->0 != "."@,
        last_name(parts, n)->0 != ".."@,
    decreases n,
{
    if n > 0 {
        let part = parts[n - 1];
        if part.len() == 0 || (part == "."@ && n > 1) {
            last_name_is_part(parts, n - 1);
        } else {
            assert(parts[n - 1] == last_name(parts, n)->0);
        }
    }
}

/// The names that lead through a path, of the first `n` parts: empty parts and
/// `.` count only where the path begins with `.`.
pub open spec fn names_of(parts: Seq<Seq<char>>, n: int) -> Seq<Seq<char>>
    decreases n,
{
    if n <= 0 {
        Seq::empty()
    } else {
        let part = parts[n - 1];
        if part.len() == 0 || (part == "."@ && n > 1) {
            names_of(parts, n - 1)
        } else {
            names_of(parts, n - 1).push(part)
        }
    }
}

/// The names that lead through a path.
pub open spec fn path_names(p: Seq<char>) -> Seq<Seq<char>> {
    let parts = text::split_on(p, '/');
    names_of(parts, parts.len() as int)
}

pub fn split_path(p: &str) -> (r: Vec<String>)
    ensures
        text::views(r@) == path_names(p@),
{
    let parts = split(p, '/');
    let ghost all = text::split_on(p@, '/');
    let mut out: Vec<String> = Vec::new();
    let mut i: usize = 0;
    proof {
        assert(all.len() == parts@.len());
        assert(text::views(out@) =~= names_of(all, 0));
    }
    while i < parts.len()
        invariant
            i <= parts.len(),
            all == text::views(parts@),
            text::views(out@) == names_of(all, i as int),
        decreases parts.len() - i,
    {
        let part = &parts[i];
        proof {
            assert(all[i as int] == part@);
        }
        if !(part.as_str().is_empty() || (same(part.as_str(), ".") && i > 0)) {
            let name = part.clone();
            proof {
                text::views_push(out@, name);
            }
            out.push(name);
        }
        i += 1;
    }
    out
}

/// Two paths that lead the same way.
pub open spec fn same_way(p: Seq<char>, q: Seq<char>) -> bool {
    absolute(p) == absolute(q) && path_names(p) == path_names(q)
}

/// `p` leads to `base` or to something below it.
pub open spec fn leads_through(p: Seq<char>, base: Seq<char>) -> bool {
    &&& path_names(base).is_prefix_of(path_names(p))
    &&& absolute(p) == absolute(base) || (!absolute(base) && path_names(base).len() == 0)
}

fn is_name_prefix(above: &Vec<String>, names: &Vec<String>) -> (r: bool)
    ensures
        r == text::views(above@).is_prefix_of(text::views(names@)),
{
    let ghost na = text::views(above@);
    let ghost nn = text::views(names@);
    proof {
        assert(na.len() == above@.len());
        assert(nn.len() == names@.len());
    }
    if above.len() > names.len() {
        return false;
    }
    let mut i: usize = 0;
    while i < above.len()
        invariant
            i <= above.len(),
            above.len() <= names.len(),
            na == text::views(above@),
            nn == text::views(names@),
            forall|j: int| 0 <= j < i ==> #[trigger] na[j] == nn[j],
        decreases above.len() - i,
    {
        proof {
            assert(na[i as int] == above@[i as int]@);
            assert(nn[i as int] == names@[i as int]@);
        }
        if !same(above[i].as_str(), names[i].as_str()) {
            proof {
                assert(nn.subrange(0, na.len() as int)[i as int] != na[i as int]);
            }
            return false;
        }
        i += 1;
    }
    proof {
        assert(na =~= nn.subrange(0, na.len() as int));
    }
    true
}

pub fn is_same_way(p: &str, q: &str) -> (r: bool)
    ensures
        r == same_way(p@, q@),
{
    let a = split_path(p);
    let b = split_path(q);
    proof {
        let va = text::views(a@);
        let vb = text::views(b@);
        assert(va.len() == a@.len() && vb.len() == b@.len());
        if va.is_prefix_of(vb) && va.len() == vb.len() {
            assert(va =~= vb);
        }
    }
    is_absolute(p) == is_absolute(q) && a.len() == b.len() && is_name_prefix(&a, &b)
}

pub fn goes_through(p: &str, base: &str) -> (r: bool)
    ensures
        r == leads_through(p@, base@),
{
    let names = split_path(p);
    let above = split_path(base);
    proof {
        assert(text::views(above@).len() == above@.len());
    }
    is_name_prefix(&above, &names) && (is_absolute(p) == is_absolute(base) || (!is_absolute(base)
        && above.len() == 0))
}

/// Leading the same way is leading through one another.
pub proof fn same_way_is_both_ways(p: Seq<char>, q: Seq<char>)
    ensures
        same_way(p, q) ==> leads_through(p, q) && leads_through(q, p),
        leads_through(p, q) && leads_through(q, p) ==> same_way(p, q),
{
    let a = path_names(p);
    let b = path_names(q);
    if same_way(p, q) {
        assert(a =~= b.subrange(0, a.len() as int));
    }
    if leads_through(p, q) && leads_through(q, p) {
        assert(a =~= b);
    }
}

/// Leading through is transitive.
pub proof fn ways_go_on(p: Seq<char>, q: Seq<char>, base: Seq<char>)
    requires
        leads_through(p, q),
        leads_through(q, base),
    ensures
        leads_through(p, base),
{
    let a = path_names(p);
    let b = path_names(q);
    let c = path_names(base);
    assert(c =~= a.subrange(0, c.len() as int)) by {
        assert forall|i: int| 0 <= i < c.len() implies c[i] == a[i] by {
            assert(c[i] == b.subrange(0, c.len() as int)[i]);
            assert(b[i] == a.subrange(0, b.len() as int)[i]);
        }
    }
}

/// The directory that holds `p` lies inside `base`, and is not `base` itself.
pub open spec fn parent_inside(p: Seq<char>, base: Seq<char>) -> bool {
    &&& absolute(p) == absolute(base)
    &&& path_names(p).len() > path_names(base).len() + 1
    &&& path_names(base).is_prefix_of(path_names(p))
}

pub fn is_parent_inside(p: &str, base: &str) -> (r: bool)
    ensures
        r == parent_inside(p@, base@),
{
    let names = split_path(p);
    let above = split_path(base);
    proof {
        assert(text::views(names@).len() == names@.len());
        assert(text::views(above@).len() == above@.len());
    }
    is_absolute(p) == is_absolute(base) && names.len() > above.len() && names.len() - above.len() > 1
        && is_name_prefix(&above, &names)
}

proof fn pieces_of_a_longer_path(p: Seq<char>, name: Seq<char>)
    requires
        !name.contains('/'),
    ensures
        text::split_on(p.push('/') + name, '/') == text::split_on(p, '/').push(name),
        text::split_on(p, '/').len() > 0,
    decreases name.len(),
{
    let s = p.push('/') + name;
    text::join_undoes_split(p, '/');
    if name.len() == 0 {
        assert(name =~= Seq::empty());
        assert(s.drop_last() =~= p);
        assert(s.last() == '/');
    } else {
        let front = name.drop_last();
        assert forall|i: int| 0 <= i < front.len() implies front[i] != '/' by {
            assert(name.contains(name[i]));
        }
        pieces_of_a_longer_path(p, front);
        assert(s.drop_last() =~= p.push('/') + front);
        assert(s.last() == name.last());
        assert(name.contains(name.last()));
        let x = text::split_on(p, '/').push(front);
        assert(x.drop_last() =~= text::split_on(p, '/'));
        assert(front.push(name.last()) =~= name);
    }
}

proof fn names_of_a_longer_path(p: Seq<char>, name: Seq<char>)
    requires
        !name.contains('/'),
        name.len() > 0,
        name != "."@,
    ensures
        path_names(p.push('/') + name) == path_names(p).push(name),
        name != ".."@ ==> file_name_of(p.push('/') + name) == Some(name),
{
    pieces_of_a_longer_path(p, name);
    let parts = text::split_on(p, '/');
    let more = parts.push(name);
    names_do_not_look_ahead(parts, more, parts.len() as int);
}

proof fn names_do_not_look_ahead(a: Seq<Seq<char>>, b: Seq<Seq<char>>, n: int)
    requires
        0 <= n <= a.len(),
        n <= b.len(),
        forall|i: int| 0 <= i < n ==> a[i] == b[i],
    ensures
        names_of(a, n) == names_of(b, n),
    decreases n,
{
    if n > 0 {
        names_do_not_look_ahead(a, b, n - 1);
    }
}

/// The last name of a path is the name of its file, whatever leads there; it is none
/// where it only points at a directory.
pub proof fn files_have_the_last_name(dir: Seq<char>, name: Seq<char>)
    requires
        !name.contains('/'),
        name.len() > 0,
        name != "."@,
    ensures
        name != ".."@ ==> file_name_of(dir + "/"@ + name) == Some(name) && file_name_of(name)
            == Some(name),
        name == ".."@ ==> file_name_of(dir + "/"@ + name) is None && file_name_of(name) is None,
{
    reveal_strlit("/");
    assert(dir + "/"@ + name =~= dir.push('/') + name);
    pieces_of_a_longer_path(dir, name);
    text::pieces_end_at_separators(name, '/', Seq::empty());
    let parts = text::split_on(name, '/');
    assert(parts.len() == 1 && parts[0] == name);
    reveal_strlit(".");
    reveal_strlit("..");
}

/// A path that is seen from a directory leads through it and then on; an absolute one
/// leads its own way.
pub proof fn joined_paths_lead_through(base: Seq<char>, name: Seq<char>)
    requires
        !name.contains('/'),
        name.len() > 0,
        name != "."@,
        base.len() > 0,
        base.last() != '/',
    ensures
        joined_path(base, "/"@ + name) == "/"@ + name,
        joined_path(base, name) == base + "/"@ + name,
        leads_through(joined_path(base, name), base),
        path_names(joined_path(base, name)) == path_names(base).push(name),
{
    reveal_strlit("/");
    assert(name.contains(name[0]));
    assert(base + seq!['/'] + name =~= base + "/"@ + name);
    assert(base + "/"@ + name =~= base.push('/') + name);
    names_of_a_longer_path(base, name);
    assert(path_names(base).push(name).subrange(0, path_names(base).len() as int) =~= path_names(
        base,
    ));
    assert((base.push('/') + name)[0] == base[0]);
}

/// What lies two steps below a directory has a parent inside it; what lies right in it,
/// or is it, has not.
pub proof fn parents_inside_are_below(base: Seq<char>, a: Seq<char>, b: Seq<char>)
    requires
        base.len() > 0,
        !a.contains('/') && a.len() > 0 && a != "."@,
        !b.contains('/') && b.len() > 0 && b != "."@,
    ensures
        parent_inside(base + "/"@ + a + "/"@ + b, base),
        !parent_inside(base + "/"@ + a, base),
        !parent_inside(base, base),
{
    reveal_strlit("/");
    let p = base.push('/') + a;
    let q = p.push('/') + b;
    assert(base + "/"@ + a =~= p);
    assert(base + "/"@ + a + "/"@ + b =~= q);
    names_of_a_longer_path(base, a);
    names_of_a_longer_path(p, b);
    assert(p[0] == base[0] && q[0] == base[0]);
    let n = path_names(base).len() as int;
    assert(path_names(q).subrange(0, n) =~= path_names(base));
}

} // verus!
