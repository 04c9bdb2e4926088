//! Text as sequences of characters: the operations the rest of the library is
//! written with, each with its meaning stated over `Seq<char>`.

use vstd::prelude::*;

verus! {

/// `String::push` appends one character.
pub assume_specification[ String::push ](s: &mut String, ch: char)
    ensures
        final(s)@ == old(s)@.push(ch),
;

/// The characters of a string, in order.
pub fn chars_of(s: &str) -> (v: Vec<char>)
    ensures
        v@ == s@,
{
    let mut v: Vec<char> = Vec::new();
    for c in it: s.chars()
        invariant
            v@ == s@.take(it.index() as int),
            it.seq() == s@,
    {
        v.push(c);
    }
    proof {
        assert(s@.take(s@.len() as int) =~= s@);
    }
    v
}

/// Whether two strings hold the same characters.
pub fn same(a: &str, b: &str) -> (r: bool)
    ensures
        r == (a@ == b@),
{
    let x = chars_of(a);
    let y = chars_of(b);
    if x.len() != y.len() {
        return false;
    }
    let mut i: usize = 0;
    while i < x.len()
        invariant
            i <= x.len(),
            x.len() == y.len(),
            x@ == a@,
            y@ == b@,
            forall|j: int| 0 <= j < i ==> x@[j] == y@[j],
        decreases x.len() - i,
    {
        if x[i] != y[i] {
            return false;
        }
        i += 1;
    }
    proof {
        assert(a@ =~= b@);
    }
    true
}

/// `p` occurs in `s` at position `i`.
pub open spec fn occurs_at(s: Seq<char>, i: int, p: Seq<char>) -> bool {
    0 <= i && i + p.len() <= s.len() && s.subrange(i, i + p.len()) == p
}

/// `p` occurs somewhere in `s`.
pub open spec fn occurs(s: Seq<char>, p: Seq<char>) -> bool {
    exists|i: int| occurs_at(s, i, p)
}

pub open spec fn starts(s: Seq<char>, p: Seq<char>) -> bool {
    occurs_at(s, 0, p)
}

pub open spec fn ends(s: Seq<char>, p: Seq<char>) -> bool {
    p.len() <= s.len() && occurs_at(s, s.len() - p.len(), p)
}

/// Whether `p` occurs in `s` at position `i`.
pub fn matches_at(s: &Vec<char>, i: usize, p: &Vec<char>) -> (r: bool)
    requires
        i <= s.len(),
    ensures
        r == occurs_at(s@, i as int, p@),
{
    if s.len() - i < p.len() {
        return false;
    }
    let mut j: usize = 0;
    while j < p.len()
        invariant
            j <= p.len(),
            i + p.len() <= s.len(),
            forall|k: int| 0 <= k < j ==> s@[i + k] == p@[k],
        decreases p.len() - j,
    {
        if s[i + j] != p[j] {
            proof {
                assert(s@.subrange(i as int, i + p@.len())[j as int] == s@[i + j]);
            }
            return false;
        }
        j += 1;
    }
    proof {
        assert(s@.subrange(i as int, i + p@.len()) =~= p@);
    }
    true
}

/// The first position at or after `from` where `p` occurs.
pub fn find_from(s: &Vec<char>, from: usize, p: &Vec<char>) -> (r: Option<usize>)
    requires
        from <= s.len(),
    ensures
        match r {
            Some(i) => from <= i && occurs_at(s@, i as int, p@) && forall|j: int|
                from <= j < i ==> !occurs_at(s@, j, p@),
            None => forall|j: int| from <= j ==> !occurs_at(s@, j, p@),
        },
{
    let mut i: usize = from;
    while i < s.len()
        invariant
            from <= i <= s.len(),
            forall|j: int| from <= j < i ==> !occurs_at(s@, j, p@),
        decreases s.len() - i,
    {
        if matches_at(s, i, p) {
            return Some(i);
        }
        i += 1;
    }
    if matches_at(s, i, p) {
        return Some(i);
    }
    None
}

/// Whether `p` occurs in `s`.
pub fn contains(s: &str, p: &str) -> (r: bool)
    ensures
        r == occurs(s@, p@),
{
    let sv = chars_of(s);
    let pv = chars_of(p);
    let found = find_from(&sv, 0, &pv);
    match found {
        Some(i) => {
            proof {
                assert(occurs_at(s@, i as int, p@));
            }
            true
        },
        None => false,
    }
}

/// Whether the character `c` occurs in `s`.
pub fn contains_char(s: &str, c: char) -> (r: bool)
    ensures
        r == s@.contains(c),
{
    let v = chars_of(s);
    let mut i: usize = 0;
    while i < v.len()
        invariant
            i <= v.len(),
            v@ == s@,
            forall|j: int| 0 <= j < i ==> v@[j] != c,
        decreases v.len() - i,
    {
        if v[i] == c {
            proof {
                assert(s@[i as int] == c);
            }
            return true;
        }
        i += 1;
    }
    false
}

pub fn starts_with(s: &str, p: &str) -> (r: bool)
    ensures
        r == starts(s@, p@),
{
    matches_at(&chars_of(s), 0, &chars_of(p))
}

pub fn ends_with(s: &str, p: &str) -> (r: bool)
    ensures
        r == ends(s@, p@),
{
    let sv = chars_of(s);
    let pv = chars_of(p);
    if sv.len() < pv.len() {
        return false;
    }
    matches_at(&sv, sv.len() - pv.len(), &pv)
}

/// The characters of `v` from `from` up to but not including `to`.
pub fn slice_chars(v: &Vec<char>, from: usize, to: usize) -> (s: String)
    requires
        from <= to <= v.len(),
    ensures
        s@ == v@.subrange(from as int, to as int),
{
    let mut s = String::new();
    let mut i: usize = from;
    while i < to
        invariant
            from <= i <= to,
            to <= v.len(),
            s@ == v@.subrange(from as int, i as int),
        decreases to - i,
    {
        s.push(v[i]);
        proof {
            assert(v@.subrange(from as int, i + 1) =~= v@.subrange(from as int, i as int).push(
                v@[i as int],
            ));
        }
        i += 1;
    }
    s
}

/// What follows the prefix `p` in `s`, if `s` starts with it.
pub fn strip_prefix(s: &str, p: &str) -> (r: Option<String>)
    ensures
        match r {
            Some(t) => starts(s@, p@) && t@ == s@.skip(p@.len() as int),
            None => !starts(s@, p@),
        },
{
    let sv = chars_of(s);
    let pv = chars_of(p);
    if matches_at(&sv, 0, &pv) {
        Some(slice_chars(&sv, pv.len(), sv.len()))
    } else {
        None
    }
}

/// What precedes the suffix `p` in `s`, if `s` ends with it.
pub fn strip_suffix(s: &str, p: &str) -> (r: Option<String>)
    ensures
        match r {
            Some(t) => ends(s@, p@) && t@ == s@.take(s@.len() - p@.len()),
            None => !ends(s@, p@),
        },
{
    if ends_with(s, p) {
        let sv = chars_of(s);
        let pv = chars_of(p);
        Some(slice_chars(&sv, 0, sv.len() - pv.len()))
    } else {
        None
    }
}

/// `a` followed by `b`.
pub fn concat(a: &str, b: &str) -> (r: String)
    ensures
        r@ == a@ + b@,
{
    let mut r = a.to_owned();
    push_str(&mut r, b);
    r
}

/// Appends `b` to `a`.
pub fn push_str(a: &mut String, b: &str)
    ensures
        final(a)@ == old(a)@ + b@,
{
    let v = chars_of(b);
    let mut i: usize = 0;
    while i < v.len()
        invariant
            i <= v.len(),
            v@ == b@,
            a@ == old(a)@ + v@.take(i as int),
        decreases v.len() - i,
    {
        a.push(v[i]);
        proof {
            assert((old(a)@ + v@.take(i as int)).push(v@[i as int]) =~= old(a)@ + v@.take(i + 1));
        }
        i += 1;
    }
    proof {
        assert(v@.take(v@.len() as int) =~= v@);
    }
}

/// `s` from position `i` on, with each occurrence of `pat`, taken from the left
/// and not overlapping, replaced by `rep`.
pub open spec fn replaced_from(s: Seq<char>, i: int, pat: Seq<char>, rep: Seq<char>) -> Seq<char>
    decreases s.len() - i,
{
    if i < 0 || i >= s.len() {
        Seq::empty()
    } else if pat.len() > 0 && occurs_at(s, i, pat) {
        rep + replaced_from(s, i + pat.len(), pat, rep)
    } else {
        seq![s[i]] + replaced_from(s, i + 1, pat, rep)
    }
}

pub open spec fn replaced(s: Seq<char>, pat: Seq<char>, rep: Seq<char>) -> Seq<char> {
    replaced_from(s, 0, pat, rep)
}

/// Replaces each occurrence of `pat`, taken from the left, by `rep`. An empty
/// `pat` replaces nothing.
pub fn replace(s: &str, pat: &str, rep: &str) -> (r: String)
    ensures
        r@ == replaced(s@, pat@, rep@),
{
    let sv = chars_of(s);
    let pv = chars_of(pat);
    let mut out = String::new();
    let mut i: usize = 0;
    while i < sv.len()
        invariant
            i <= sv.len(),
            sv@ == s@,
            pv@ == pat@,
            out@ + replaced_from(s@, i as int, pat@, rep@) == replaced(s@, pat@, rep@),
        decreases sv.len() - i,
    {
        let ghost rest = replaced_from(s@, i as int, pat@, rep@);
        if pv.len() > 0 && matches_at(&sv, i, &pv) {
            push_str(&mut out, rep);
            i += pv.len();
        } else {
            out.push(sv[i]);
            i += 1;
        }
        proof {
            assert(out@ + replaced_from(s@, i as int, pat@, rep@) =~= replaced(s@, pat@, rep@));
        }
    }
    proof {
        assert(out@ + Seq::<char>::empty() =~= out@);
    }
    out
}

/// Where `pat` does not occur, replacing it changes nothing.
pub proof fn replaced_without_occurrence(s: Seq<char>, i: int, pat: Seq<char>, rep: Seq<char>)
    requires
        0 <= i <= s.len(),
        !occurs(s, pat) || pat.len() == 0,
    ensures
        replaced_from(s, i, pat, rep) == s.skip(i),
    decreases s.len() - i,
{
    if i < s.len() {
        replaced_without_occurrence(s, i + 1, pat, rep);
        assert(seq![s[i]] + s.skip(i + 1) =~= s.skip(i));
    } else {
        assert(s.skip(i) =~= Seq::<char>::empty());
    }
}

/// White space as Unicode defines it (the property `White_Space`).
pub open spec fn is_space(c: char) -> bool {
    ('\u{9}' <= c <= '\u{d}') || c == ' ' || c == '\u{85}' || c == '\u{a0}' || c == '\u{1680}' || (
    '\u{2000}' <= c <= '\u{200a}') || c == '\u{2028}' || c == '\u{2029}' || c == '\u{202f}' || c
        == '\u{205f}' || c == '\u{3000}'
}

pub fn space(c: char) -> (r: bool)
    ensures
        r == is_space(c),
{
    ('\u{9}' <= c && c <= '\u{d}') || c == ' ' || c == '\u{85}' || c == '\u{a0}' || c == '\u{1680}'
        || ('\u{2000}' <= c && c <= '\u{200a}') || c == '\u{2028}' || c == '\u{2029}' || c
        == '\u{202f}' || c == '\u{205f}' || c == '\u{3000}'
}

/// `s` without its leading white space.
pub open spec fn trimmed_start(s: Seq<char>) -> Seq<char>
    decreases s.len(),
{
    if s.len() > 0 && is_space(s[0]) {
        trimmed_start(s.skip(1))
    } else {
        s
    }
}

/// `s` without its trailing white space.
pub open spec fn trimmed_end(s: Seq<char>) -> Seq<char>
    decreases s.len(),
{
    if s.len() > 0 && is_space(s.last()) {
        trimmed_end(s.drop_last())
    } else {
        s
    }
}

pub open spec fn trimmed(s: Seq<char>) -> Seq<char> {
    trimmed_end(trimmed_start(s))
}

fn trim_end_chars(v: &Vec<char>, from: usize) -> (r: String)
    requires
        from <= v.len(),
    ensures
        r@ == trimmed_end(v@.skip(from as int)),
{
    let mut to: usize = v.len();
    proof {
        assert(v@.subrange(from as int, to as int) =~= v@.skip(from as int));
    }
    while to > from && space(v[to - 1])
        invariant
            from <= to <= v.len(),
            trimmed_end(v@.subrange(from as int, to as int)) == trimmed_end(v@.skip(from as int)),
        decreases to,
    {
        proof {
            let cur = v@.subrange(from as int, to as int);
            assert(cur.drop_last() =~= v@.subrange(from as int, to - 1));
            assert(cur.last() == v@[to - 1]);
        }
        to -= 1;
    }
    proof {
        let cur = v@.subrange(from as int, to as int);
        if to > from {
            assert(cur.last() == v@[to - 1]);
        }
    }
    slice_chars(v, from, to)
}

/// `s` without leading and trailing white space.
pub fn trim(s: &str) -> (r: String)
    ensures
        r@ == trimmed(s@),
{
    let v = chars_of(s);
    let mut from: usize = 0;
    proof {
        assert(v@.skip(0) =~= v@);
    }
    while from < v.len() && space(v[from])
        invariant
            from <= v.len(),
            v@ == s@,
            trimmed_start(v@.skip(from as int)) == trimmed_start(s@),
        decreases v.len() - from,
    {
        proof {
            assert(v@.skip(from as int)[0] == v@[from as int]);
            assert(v@.skip(from as int).skip(1) =~= v@.skip(from + 1));
        }
        from += 1;
    }
    proof {
        if from < v.len() {
            assert(v@.skip(from as int)[0] == v@[from as int]);
        }
    }
    trim_end_chars(&v, from)
}

/// `s` without trailing white space.
pub fn trim_end(s: &str) -> (r: String)
    ensures
        r@ == trimmed_end(s@),
{
    let v = chars_of(s);
    proof {
        assert(v@.skip(0) =~= v@);
    }
    trim_end_chars(&v, 0)
}

/// The pieces of `s` between occurrences of `c`.
pub open spec fn split_on(s: Seq<char>, c: char) -> Seq<Seq<char>>
    decreases s.len(),
{
    if s.len() == 0 {
        seq![Seq::empty()]
    } else {
        let before = split_on(s.drop_last(), c);
        if s.last() == c {
            before.push(Seq::empty())
        } else {
            before.drop_last().push(before.last().push(s.last()))
        }
    }
}

/// The views of a list of strings.
pub open spec fn views(v: Seq<String>) -> Seq<Seq<char>> {
    v.map_values(|s: String| s@)
}

pub proof fn views_push(v: Seq<String>, s: String)
    ensures
        views(v.push(s)) == views(v).push(s@),
{
    assert(views(v.push(s)) =~= views(v).push(s@));
}

/// Splits `s` at each occurrence of `c`.
pub fn split(s: &str, c: char) -> (r: Vec<String>)
    ensures
        views(r@) == split_on(s@, c),
        r.len() >= 1,
{
    let v = chars_of(s);
    let mut parts: Vec<String> = Vec::new();
    let mut cur = String::new();
    let mut i: usize = 0;
    proof {
        assert(views(parts@).push(cur@) =~= seq![Seq::<char>::empty()]);
        assert(v@.take(0) =~= Seq::<char>::empty());
    }
    while i < v.len()
        invariant
            i <= v.len(),
            v@ == s@,
            views(parts@).push(cur@) == split_on(v@.take(i as int), c),
        decreases v.len() - i,
    {
        proof {
            let before = split_on(v@.take(i as int), c);
            assert(v@.take(i + 1).drop_last() =~= v@.take(i as int));
            assert(v@.take(i + 1).last() == v@[i as int]);
            assert(before.last() == cur@);
            assert(before.drop_last() =~= views(parts@));
        }
        if v[i] == c {
            proof {
                views_push(parts@, cur);
            }
            parts.push(cur);
            cur = String::new();
        } else {
            cur.push(v[i]);
        }
        i += 1;
    }
    proof {
        assert(v@.take(v@.len() as int) =~= s@);
        views_push(parts@, cur);
    }
    parts.push(cur);
    parts
}

/// The pieces put together with `sep` between each two.
pub open spec fn joined(parts: Seq<Seq<char>>, sep: Seq<char>) -> Seq<char>
    decreases parts.len(),
{
    if parts.len() == 0 {
        Seq::empty()
    } else if parts.len() == 1 {
        parts[0]
    } else {
        joined(parts.drop_last(), sep) + sep + parts.last()
    }
}

/// Puts the pieces together with `sep` between each two.
pub fn join(parts: &Vec<String>, sep: &str) -> (r: String)
    ensures
        r@ == joined(views(parts@), sep@),
{
    let mut out = String::new();
    let mut i: usize = 0;
    while i < parts.len()
        invariant
            i <= parts.len(),
            out@ == joined(views(parts@).take(i as int), sep@),
        decreases parts.len() - i,
    {
        if i > 0 {
            push_str(&mut out, sep);
        }
        push_str(&mut out, parts[i].as_str());
        proof {
            let all = views(parts@);
            assert(all.take(i + 1).drop_last() =~= all.take(i as int));
            assert(all.take(i + 1).last() == parts@[i as int]@);
            if i == 0 {
                assert(all.take(0) =~= Seq::<Seq<char>>::empty());
                assert(out@ =~= parts@[0]@);
            }
        }
        i += 1;
    }
    proof {
        assert(views(parts@).take(parts@.len() as int) =~= views(parts@));
    }
    out
}

/// No piece of a split holds the separator.
pub proof fn split_pieces_lack_separator(s: Seq<char>, c: char)
    ensures
        split_on(s, c).len() >= 1,
        forall|i: int| 0 <= i < split_on(s, c).len() ==> !(#[trigger] split_on(s, c)[i]).contains(c),
    decreases s.len(),
{
    if s.len() > 0 {
        split_pieces_lack_separator(s.drop_last(), c);
        let before = split_on(s.drop_last(), c);
        let all = split_on(s, c);
        assert forall|i: int| 0 <= i < all.len() implies !(#[trigger] all[i]).contains(c) by {
            if i < before.len() - 1 {
                assert(all[i] == before[i]);
            } else if s.last() == c && i == before.len() - 1 {
                assert(all[i] == before[i]);
            } else if s.last() != c {
                let p = before.last().push(s.last());
                assert(all[i] == p);
                if p.contains(c) {
                    let k = choose|k: int| 0 <= k < p.len() && p[k] == c;
                    assert(before.last()[k] == c);
                    assert(before[before.len() - 1].contains(c));
                }
            }
        }
    }
}

/// Joining what was split gives the text back.
pub proof fn join_undoes_split(s: Seq<char>, c: char)
    ensures
        joined(split_on(s, c), seq![c]) == s,
    decreases s.len(),
{
    if s.len() > 0 {
        join_undoes_split(s.drop_last(), c);
        split_pieces_lack_separator(s.drop_last(), c);
        let before = split_on(s.drop_last(), c);
        let all = split_on(s, c);
        if s.last() == c {
            assert(all.drop_last() =~= before);
            assert(joined(all, seq![c]) =~= s);
        } else {
            assert(all.drop_last() =~= before.drop_last());
            if before.len() == 1 {
                assert(all[0] =~= s);
            } else {
                assert(joined(all, seq![c]) =~= joined(before, seq![c]).push(s.last()));
            }
            assert(joined(all, seq![c]) =~= s);
        }
    }
}

/// Splits `s` at the first occurrence of `c`.
pub fn split_once(s: &str, c: char) -> (r: Option<(String, String)>)
    ensures
        match r {
            Some(p) => p.0@ + seq![c] + p.1@ == s@ && !p.0@.contains(c),
            None => !s@.contains(c),
        },
{
    let v = chars_of(s);
    let mut i: usize = 0;
    while i < v.len()
        invariant
            i <= v.len(),
            v@ == s@,
            forall|j: int| 0 <= j < i ==> v@[j] != c,
        decreases v.len() - i,
    {
        if v[i] == c {
            let head = slice_chars(&v, 0, i);
            let tail = slice_chars(&v, i + 1, v.len());
            proof {
                assert(head@ + seq![c] + tail@ =~= s@);
                assert(forall|j: int| 0 <= j < head@.len() ==> head@[j] == v@[j]);
            }
            return Some((head, tail));
        }
        i += 1;
    }
    None
}

pub open spec fn lower_char(c: char) -> char {
    if 'A' <= c <= 'Z' {
        (c as u8 + 32) as char
    } else {
        c
    }
}

/// `s` with the letters `A` to `Z` in lower case and everything else kept.
pub open spec fn lowered(s: Seq<char>) -> Seq<char> {
    s.map_values(|c: char| lower_char(c))
}

pub fn to_lower_char(c: char) -> (r: char)
    ensures
        r == lower_char(c),
{
    if 'A' <= c && c <= 'Z' {
        (c as u8 + 32) as char
    } else {
        c
    }
}

pub fn to_lower(s: &str) -> (r: String)
    ensures
        r@ == lowered(s@),
{
    let v = chars_of(s);
    let mut out = String::new();
    let mut i: usize = 0;
    while i < v.len()
        invariant
            i <= v.len(),
            v@ == s@,
            out@ == lowered(s@.take(i as int)),
        decreases v.len() - i,
    {
        out.push(to_lower_char(v[i]));
        i += 1;
        proof {
            assert(out@ =~= lowered(s@.take(i as int)));
        }
    }
    proof {
        assert(s@.take(s@.len() as int) =~= s@);
    }
    out
}

/// The digit with value `d`: `0` to `9`, then `a` to `f`.
pub open spec fn digit(d: int) -> char {
    if d < 10 {
        (48 + d) as char
    } else {
        (87 + d) as char
    }
}

fn digit_char(d: u8) -> (c: char)
    requires
        d < 16,
    ensures
        c == digit(d as int),
{
    if d < 10 {
        (48u8 + d) as char
    } else {
        (87u8 + d) as char
    }
}

/// `n` written in the given base, without leading zeros.
pub open spec fn numeral(n: nat, base: nat) -> Seq<char>
    decreases n,
{
    if base < 2 || n < base {
        seq![digit(n as int)]
    } else {
        proof {
            assert(n / base < n) by (nonlinear_arith)
                requires
                    n >= base >= 2,
            ;
        }
        numeral(n / base, base).push(digit((n % base) as int))
    }
}

pub open spec fn decimal(n: nat) -> Seq<char> {
    numeral(n, 10)
}

/// An integer in base ten, with `-` in front of a negative one.
pub open spec fn decimal_int(n: int) -> Seq<char> {
    if n < 0 {
        seq!['-'] + decimal((-n) as nat)
    } else {
        decimal(n as nat)
    }
}

proof fn decimal_holds_digits(n: nat, i: int)
    requires
        0 <= i < decimal(n).len(),
    ensures
        decimal(n)[i] != '-',
    decreases n,
{
    if n >= 10 && i < decimal(n).len() - 1 {
        decimal_holds_digits(n / 10, i);
        assert(decimal(n)[i] == decimal(n / 10)[i]);
    }
}

/// Different numbers are written differently.
pub proof fn decimals_are_distinct(a: nat, b: nat)
    requires
        a != b,
    ensures
        decimal(a) != decimal(b),
    decreases a + b,
{
    let x = decimal(a);
    let y = decimal(b);
    if a >= 10 && b >= 10 {
        assert(x.drop_last() =~= decimal(a / 10));
        assert(y.drop_last() =~= decimal(b / 10));
        assert(x.last() == digit((a % 10) as int));
        assert(y.last() == digit((b % 10) as int));
        if a / 10 != b / 10 {
            decimals_are_distinct(a / 10, b / 10);
        }
    } else if a >= 10 {
        assert(decimal(a / 10).len() >= 1);
        assert(x.len() >= 2);
        assert(y.len() == 1);
    } else if b >= 10 {
        assert(decimal(b / 10).len() >= 1);
        assert(y.len() >= 2);
        assert(x.len() == 1);
    } else {
        assert(x[0] != y[0]);
    }
}

/// Different integers are written differently.
pub proof fn integers_are_distinct(a: int, b: int)
    requires
        a != b,
    ensures
        decimal_int(a) != decimal_int(b),
{
    if a < 0 && b < 0 {
        decimals_are_distinct((-a) as nat, (-b) as nat);
        assert(decimal_int(a).skip(1) =~= decimal((-a) as nat));
        assert(decimal_int(b).skip(1) =~= decimal((-b) as nat));
    } else if a < 0 {
        decimal_holds_digits(b as nat, 0);
        assert(decimal_int(a)[0] == '-');
    } else if b < 0 {
        decimal_holds_digits(a as nat, 0);
        assert(decimal_int(b)[0] == '-');
    } else {
        decimals_are_distinct(a as nat, b as nat);
    }
}

/// Texts that end in a dash and a number differ where the numbers do, whatever stands
/// in front; where the numbers are the same they differ where the fronts do.
pub proof fn last_numbers_tell_apart(x: Seq<char>, a: nat, y: Seq<char>, b: nat)
    requires
        a != b || x != y,
    ensures
        x + "-"@ + decimal(a) != y + "-"@ + decimal(b),
{
    reveal_strlit("-");
    let p = x + "-"@ + decimal(a);
    let q = y + "-"@ + decimal(b);
    let m = decimal(a).len() as int;
    let n = decimal(b).len() as int;
    if p == q {
        if m < n {
            assert(p[p.len() - m - 1] == '-');
            assert(q[q.len() - m - 1] == decimal(b)[n - m - 1]);
            decimal_holds_digits(b, n - m - 1);
        } else if n < m {
            assert(q[q.len() - n - 1] == '-');
            assert(p[p.len() - n - 1] == decimal(a)[m - n - 1]);
            decimal_holds_digits(a, m - n - 1);
        } else {
            assert(p.skip(p.len() - m) =~= decimal(a));
            assert(q.skip(q.len() - n) =~= decimal(b));
            assert(p.take(p.len() - m - 1) =~= x);
            assert(q.take(q.len() - n - 1) =~= y);
            if a != b {
                decimals_are_distinct(a, b);
            }
        }
    }
}

fn write_numeral(n: u64, base: u64) -> (r: String)
    requires
        2 <= base <= 16,
    ensures
        r@ == numeral(n as nat, base as nat),
    decreases n,
{
    if n < base {
        let mut s = String::new();
        s.push(digit_char(n as u8));
        proof {
            assert(s@ =~= seq![digit(n as int)]);
        }
        s
    } else {
        proof {
            assert(n / base < n) by (nonlinear_arith)
                requires
                    n >= base >= 2,
            ;
            assert(n % base < base) by (nonlinear_arith)
                requires
                    base >= 2,
            ;
        }
        let mut s = write_numeral(n / base, base);
        s.push(digit_char((n % base) as u8));
        s
    }
}

pub fn write_u64(n: u64) -> (r: String)
    ensures
        r@ == decimal(n as nat),
{
    write_numeral(n, 10)
}

pub fn write_i64(n: i64) -> (r: String)
    ensures
        r@ == decimal_int(n as int),
{
    if n < 0 {
        let m: u64 = if n == i64::MIN {
            9_223_372_036_854_775_808u64
        } else {
            (-n) as u64
        };
        proof {
            reveal_strlit("-");
            assert("-"@ =~= seq!['-']);
        }
        concat("-", write_u64(m).as_str())
    } else {
        write_u64(n as u64)
    }
}

/// `s` with `fill` put in front until it has `width` characters.
pub open spec fn padded_left(s: Seq<char>, fill: char, width: nat) -> Seq<char> {
    if s.len() >= width {
        s
    } else {
        Seq::new((width - s.len()) as nat, |i: int| fill) + s
    }
}

/// `s` with `fill` put behind until it has `width` characters.
pub open spec fn padded_right(s: Seq<char>, fill: char, width: nat) -> Seq<char> {
    if s.len() >= width {
        s
    } else {
        s + Seq::new((width - s.len()) as nat, |i: int| fill)
    }
}

/// The character `c`, `n` times.
pub fn repeat_char(c: char, n: usize) -> (r: String)
    ensures
        r@ == Seq::new(n as nat, |i: int| c),
{
    let mut s = String::new();
    let mut i: usize = 0;
    while i < n
        invariant
            i <= n,
            s@ == Seq::new(i as nat, |k: int| c),
        decreases n - i,
    {
        s.push(c);
        i += 1;
        proof {
            assert(s@ =~= Seq::new(i as nat, |k: int| c));
        }
    }
    s
}

pub fn pad_left(s: &str, fill: char, width: usize) -> (r: String)
    ensures
        r@ == padded_left(s@, fill, width as nat),
{
    let n = s.unicode_len();
    if n >= width {
        s.to_owned()
    } else {
        concat(repeat_char(fill, width - n).as_str(), s)
    }
}

pub fn pad_right(s: &str, fill: char, width: usize) -> (r: String)
    ensures
        r@ == padded_right(s@, fill, width as nat),
{
    let n = s.unicode_len();
    if n >= width {
        s.to_owned()
    } else {
        concat(s, repeat_char(fill, width - n).as_str())
    }
}

/// `n` in base sixteen with at least `width` digits.
pub fn write_hex(n: u64, width: usize) -> (r: String)
    ensures
        r@ == padded_left(numeral(n as nat, 16), '0', width as nat),
{
    let s = write_numeral(n, 16);
    pad_left(s.as_str(), '0', width)
}

/// `a` comes before `b` in the order of strings (by code point).
pub open spec fn before(a: Seq<char>, b: Seq<char>) -> bool
    decreases a.len(),
{
    if b.len() == 0 {
        false
    } else if a.len() == 0 {
        true
    } else {
        a[0] < b[0] || (a[0] == b[0] && before(a.skip(1), b.skip(1)))
    }
}

/// Whether `a` comes before `b` in the order of strings.
pub fn comes_before(a: &str, b: &str) -> (r: bool)
    ensures
        r == before(a@, b@),
{
    let x = chars_of(a);
    let y = chars_of(b);
    let mut i: usize = 0;
    proof {
        assert(x@.skip(0) =~= a@);
        assert(y@.skip(0) =~= b@);
    }
    while i < x.len() && i < y.len() && x[i] == y[i]
        invariant
            i <= x.len(),
            i <= y.len(),
            before(x@.skip(i as int), y@.skip(i as int)) == before(a@, b@),
        decreases x.len() - i,
    {
        proof {
            assert(x@.skip(i as int).skip(1) =~= x@.skip(i + 1));
            assert(y@.skip(i as int).skip(1) =~= y@.skip(i + 1));
        }
        i += 1;
    }
    proof {
        if i < x.len() && i < y.len() {
            assert(x@.skip(i as int)[0] == x@[i as int]);
            assert(y@.skip(i as int)[0] == y@[i as int]);
        }
    }
    if i >= y.len() {
        false
    } else if i >= x.len() {
        true
    } else {
        x[i] < y[i]
    }
}

/// The first `n` characters of `s`, or all of it.
pub open spec fn first_chars(s: Seq<char>, n: nat) -> Seq<char> {
    if s.len() <= n {
        s
    } else {
        s.take(n as int)
    }
}

pub fn take_chars(s: &str, n: usize) -> (r: String)
    ensures
        r@ == first_chars(s@, n as nat),
{
    let v = chars_of(s);
    if v.len() <= n {
        s.to_owned()
    } else {
        slice_chars(&v, 0, n)
    }
}

/// `line` without one carriage return at its end.
pub open spec fn without_return(line: Seq<char>) -> Seq<char> {
    if line.len() > 0 && line.last() == '\r' {
        line.drop_last()
    } else {
        line
    }
}

/// The lines of a text: line ends are `\n` or `\r\n`, and the last one may be
/// missing.
pub open spec fn lines_of(s: Seq<char>) -> Seq<Seq<char>> {
    let parts = split_on(s, '\n');
    let n = if parts.last().len() == 0 {
        (parts.len() - 1) as nat
    } else {
        parts.len()
    };
    Seq::new(
        n,
        |i: int|
            if i < parts.len() - 1 {
                without_return(parts[i])
            } else {
                parts[i]
            },
    )
}

pub fn lines(s: &str) -> (r: Vec<String>)
    ensures
        views(r@) == lines_of(s@),
{
    let parts = split(s, '\n');
    let ghost all = split_on(s@, '\n');
    proof {
        assert(all.len() == parts@.len());
        assert(all.last() == parts@[parts@.len() - 1]@);
    }
    let n: usize = if parts[parts.len() - 1].as_str().is_empty() {
        parts.len() - 1
    } else {
        parts.len()
    };
    let mut out: Vec<String> = Vec::new();
    let mut i: usize = 0;
    while i < n
        invariant
            i <= n <= parts.len(),
            n == lines_of(s@).len(),
            all == views(parts@),
            all == split_on(s@, '\n'),
            views(out@) == lines_of(s@).take(i as int),
        decreases n - i,
    {
        let part = &parts[i];
        proof {
            assert(all[i as int] == part@);
        }
        let line = if i < parts.len() - 1 {
            let len = part.as_str().unicode_len();
            if len > 0 && part.as_str().get_char(len - 1) == '\r' {
                take_chars(part.as_str(), len - 1)
            } else {
                part.clone()
            }
        } else {
            part.clone()
        };
        proof {
            if part@.len() > 0 {
                assert(part@.take(part@.len() - 1) =~= part@.drop_last());
            }
            views_push(out@, line);
            assert(lines_of(s@).take(i + 1) =~= lines_of(s@).take(i as int).push(line@));
        }
        out.push(line);
        i += 1;
    }
    proof {
        assert(lines_of(s@).take(n as int) =~= lines_of(s@));
    }
    out
}

/// The least of a list of texts.
pub open spec fn least(list: Seq<Seq<char>>) -> Seq<char>
    decreases list.len(),
{
    if list.len() <= 1 {
        list[0]
    } else {
        let m = least(list.drop_last());
        if before(list.last(), m) {
            list.last()
        } else {
            m
        }
    }
}

/// The first position at or after `i` where `p` occurs.
pub open spec fn first_occurrence(s: Seq<char>, p: Seq<char>, i: int) -> Option<int>
    decreases s.len() + 1 - i,
{
    if i < 0 || i + p.len() > s.len() {
        None
    } else if occurs_at(s, i, p) {
        Some(i)
    } else {
        first_occurrence(s, p, i + 1)
    }
}

proof fn first_occurrence_found(s: Seq<char>, p: Seq<char>, i: int, k: int)
    requires
        0 <= i <= k,
        occurs_at(s, k, p),
        forall|j: int| i <= j < k ==> !occurs_at(s, j, p),
    ensures
        first_occurrence(s, p, i) == Some(k),
    decreases k - i,
{
    if i < k {
        first_occurrence_found(s, p, i + 1, k);
    }
}

proof fn first_occurrence_missing(s: Seq<char>, p: Seq<char>, i: int)
    requires
        0 <= i,
        forall|j: int| i <= j ==> !occurs_at(s, j, p),
    ensures
        first_occurrence(s, p, i) is None,
    decreases s.len() + 1 - i,
{
    if i + p.len() <= s.len() {
        assert(!occurs_at(s, i, p));
        first_occurrence_missing(s, p, i + 1);
    }
}

/// The first position at or after `from` where `p` occurs.
pub fn find_first(s: &Vec<char>, from: usize, p: &Vec<char>) -> (r: Option<usize>)
    requires
        from <= s.len(),
    ensures
        match r {
            Some(i) => first_occurrence(s@, p@, from as int) == Some(i as int) && i + p@.len()
                <= s@.len() && from <= i,
            None => first_occurrence(s@, p@, from as int) is None,
        },
{
    let r = find_from(s, from, p);
    proof {
        match r {
            Some(i) => first_occurrence_found(s@, p@, from as int, i as int),
            None => first_occurrence_missing(s@, p@, from as int),
        }
    }
    r
}

/// Replacing changes the length by the same amount for each occurrence, so
/// where the replacement is not longer the text does not grow, and it shrinks
/// if there was an occurrence and the replacement is shorter.
pub proof fn replaced_len(s: Seq<char>, i: int, pat: Seq<char>, rep: Seq<char>)
    requires
        0 <= i <= s.len(),
        rep.len() <= pat.len(),
    ensures
        replaced_from(s, i, pat, rep).len() <= s.len() - i,
        rep.len() < pat.len() && (exists|j: int| i <= j && occurs_at(s, j, pat)) ==> replaced_from(
            s,
            i,
            pat,
            rep,
        ).len() < s.len() - i,
    decreases s.len() - i,
{
    if i < s.len() {
        if pat.len() > 0 && occurs_at(s, i, pat) {
            replaced_len(s, i + pat.len(), pat, rep);
        } else {
            replaced_len(s, i + 1, pat, rep);
            if rep.len() < pat.len() && (exists|j: int| i <= j && occurs_at(s, j, pat)) {
                let j = choose|j: int| i <= j && occurs_at(s, j, pat);
                assert(i + 1 <= j);
            }
        }
    }
}

/// How many characters stand before the first `c`, or in all.
pub open spec fn head_len(s: Seq<char>, c: char) -> int
    decreases s.len(),
{
    if s.len() == 0 || s[0] == c {
        0
    } else {
        1 + head_len(s.skip(1), c)
    }
}

/// Where the first `c` stands.
pub proof fn head_len_is(s: Seq<char>, c: char, n: int)
    requires
        0 <= n <= s.len(),
        forall|i: int| 0 <= i < n ==> s[i] != c,
        n == s.len() || s[n] == c,
    ensures
        head_len(s, c) == n,
    decreases s.len(),
{
    if n > 0 {
        assert(s[0] != c);
        assert forall|i: int| 0 <= i < n - 1 implies s.skip(1)[i] != c by {
            assert(s[i + 1] != c);
        }
        head_len_is(s.skip(1), c, n - 1);
    }
}

/// What stands before the first `c`.
pub open spec fn head(s: Seq<char>, c: char) -> Seq<char> {
    s.take(head_len(s, c))
}

/// What stands behind the first `c`, if there is one.
pub open spec fn rest(s: Seq<char>, c: char) -> Option<Seq<char>> {
    if head_len(s, c) < s.len() {
        Some(s.skip(head_len(s, c) + 1))
    } else {
        None
    }
}

/// Cuts a text at the first `c`.
pub fn cut(s: &str, c: char) -> (r: (String, Option<String>))
    ensures
        r.0@ == head(s@, c),
        match rest(s@, c) {
            Some(t) => r.1 matches Some(u) && u@ == t,
            None => r.1 is None,
        },
{
    match split_once(s, c) {
        Some((a, b)) => {
            proof {
                let n = a@.len() as int;
                assert(s@[n] == c);
                assert forall|i: int| 0 <= i < n implies s@[i] != c by {
                    assert(s@[i] == a@[i]);
                    assert(a@.contains(a@[i]));
                }
                head_len_is(s@, c, n);
                assert(s@.take(n) =~= a@);
                assert(s@.skip(n + 1) =~= b@);
            }
            (a, Some(b))
        },
        None => {
            proof {
                assert forall|i: int| 0 <= i < s@.len() implies s@[i] != c by {
                    assert(s@.contains(s@[i]));
                }
                head_len_is(s@, c, s@.len() as int);
                assert(s@.take(s@.len() as int) =~= s@);
            }
            (s.to_owned(), None)
        },
    }
}

/// The pieces are what was cut.
pub proof fn cut_loses_nothing(s: Seq<char>, c: char)
    ensures
        match rest(s, c) {
            Some(t) => head(s, c) + seq![c] + t == s,
            None => head(s, c) == s,
        },
        !head(s, c).contains(c),
        0 <= head_len(s, c) <= s.len(),
    decreases s.len(),
{
    if s.len() == 0 || s[0] == c {
        if s.len() > 0 {
            assert(head(s, c) + seq![c] + s.skip(1) =~= s);
        } else {
            assert(head(s, c) =~= s);
        }
    } else {
        let t = s.skip(1);
        cut_loses_nothing(t, c);
        let n = head_len(t, c);
        assert(0 <= n <= t.len());
        assert(head(s, c) =~= seq![s[0]] + head(t, c));
        match rest(t, c) {
            Some(u) => {
                assert(t.len() == n + 1 + u.len());
                assert(s.skip(n + 2) =~= u);
                assert(head(s, c) + seq![c] + u =~= seq![s[0]] + (head(t, c) + seq![c] + u));
                assert(seq![s[0]] + t =~= s);
            },
            None => {
                assert(seq![s[0]] + t =~= s);
            },
        }
        assert forall|i: int| 0 <= i < head(s, c).len() implies head(s, c)[i] != c by {
            if i > 0 {
                assert(head(t, c).contains(head(t, c)[i - 1]));
            }
        }
    }
}

/// The text is a number in decimal digits.
pub open spec fn is_number(s: Seq<char>) -> bool {
    s.len() > 0 && forall|i: int| 0 <= i < s.len() ==> '0' <= #[trigger] s[i] <= '9'
}

/// The number that decimal digits stand for.
pub open spec fn number(s: Seq<char>) -> nat
    decreases s.len(),
{
    if s.len() == 0 {
        0
    } else {
        number(s.drop_last()) * 10 + (s.last() as nat - '0' as nat) as nat
    }
}

proof fn number_grows(s: Seq<char>, n: int)
    requires
        0 <= n <= s.len(),
    ensures
        number(s.take(n)) <= number(s),
    decreases s.len() - n,
{
    if n < s.len() {
        number_grows(s, n + 1);
        assert(s.take(n + 1).drop_last() =~= s.take(n));
    } else {
        assert(s.take(n) =~= s);
    }
}

/// The number that a text from position `from` on stands for, if it is one
/// and not over `max`.
fn parse_digits(v: &Vec<char>, from: usize, max: u64) -> (r: Option<u64>)
    requires
        from <= v@.len(),
        max <= 0x1_0000_0000,
    ensures
        r == if is_number(v@.skip(from as int)) && number(v@.skip(from as int)) <= max {
            Some(number(v@.skip(from as int)) as u64)
        } else {
            None
        },
{
    let ghost s = v@.skip(from as int);
    if from == v.len() {
        return None;
    }
    let mut value: u64 = 0;
    let mut i: usize = from;
    proof {
        assert(s.take(0) =~= Seq::empty());
    }
    while i < v.len()
        invariant
            from <= i <= v.len(),
            s == v@.skip(from as int),
            max <= 0x1_0000_0000,
            value <= max,
            value == number(s.take(i - from)),
            forall|j: int| 0 <= j < i - from ==> '0' <= #[trigger] s[j] <= '9',
        decreases v.len() - i,
    {
        let c = v[i];
        proof {
            assert(s[i - from] == c);
        }
        if !('0' <= c && c <= '9') {
            return None;
        }
        let code: u32 = c as u32;
        let d: u64 = (code - 48) as u64;
        let next: u64 = value * 10 + d;
        proof {
            assert(s.take(i - from + 1).drop_last() =~= s.take(i - from));
            assert(next == number(s.take(i - from + 1)));
            number_grows(s, i - from + 1);
        }
        if next > max {
            return None;
        }
        value = next;
        i += 1;
    }
    proof {
        assert(s.take(i - from) =~= s);
    }
    Some(value)
}

/// What a text stands for as an unsigned number of 32 bits: digits, with a plus
/// sign before them if need be.
pub open spec fn as_u32(s: Seq<char>) -> Option<u32> {
    let digits = if s.len() > 0 && s[0] == '+' {
        s.skip(1)
    } else {
        s
    };
    if is_number(digits) && number(digits) <= u32::MAX {
        Some(number(digits) as u32)
    } else {
        None
    }
}

pub fn parse_u32(s: &str) -> (r: Option<u32>)
    ensures
        r == as_u32(s@),
{
    let v = chars_of(s);
    let from: usize = if v.len() > 0 && v[0] == '+' {
        1
    } else {
        0
    };
    proof {
        assert(v@.skip(0) =~= v@);
    }
    match parse_digits(&v, from, 4_294_967_295) {
        Some(n) => Some(n as u32),
        None => None,
    }
}

/// What a text stands for as a signed number of 32 bits: digits, with a sign
/// before them if need be.
pub open spec fn as_i32(s: Seq<char>) -> Option<i32> {
    if s.len() > 0 && s[0] == '-' {
        if is_number(s.skip(1)) && number(s.skip(1)) <= 0x8000_0000 {
            Some((-(number(s.skip(1)) as int)) as i32)
        } else {
            None
        }
    } else {
        let digits = if s.len() > 0 && s[0] == '+' {
            s.skip(1)
        } else {
            s
        };
        if is_number(digits) && number(digits) <= i32::MAX {
            Some(number(digits) as i32)
        } else {
            None
        }
    }
}

pub fn parse_i32(s: &str) -> (r: Option<i32>)
    ensures
        r == as_i32(s@),
{
    let v = chars_of(s);
    proof {
        assert(v@.skip(0) =~= v@);
    }
    if v.len() > 0 && v[0] == '-' {
        return match parse_digits(&v, 1, 0x8000_0000) {
            Some(n) => {
                let m: i64 = -(n as i64);
                Some(m as i32)
            },
            None => None,
        };
    }
    let from: usize = if v.len() > 0 && v[0] == '+' {
        1
    } else {
        0
    };
    match parse_digits(&v, from, 0x7fff_ffff) {
        Some(n) => Some(n as i32),
        None => None,
    }
}

/// The bytes that a character takes in UTF-8.
pub open spec fn char_bytes(c: char) -> nat {
    let n = c as u32;
    if n < 0x80 {
        1
    } else if n < 0x800 {
        2
    } else if n < 0x1_0000 {
        3
    } else {
        4
    }
}

/// The bytes that a text takes in UTF-8.
pub open spec fn bytes(s: Seq<char>) -> nat
    decreases s.len(),
{
    if s.len() == 0 {
        0
    } else {
        bytes(s.drop_last()) + char_bytes(s.last())
    }
}

/// The beginning of a text that takes exactly `n` bytes, or all of a text that
/// takes no more. There is none where the cut would go through a character.
pub open spec fn byte_prefix(s: Seq<char>, n: nat, p: Seq<char>) -> bool {
    if bytes(s) <= n {
        p == s
    } else {
        bytes(p) == n && p.len() <= s.len() && p == s.take(p.len() as int)
    }
}

proof fn bytes_grow(s: Seq<char>, i: int, j: int)
    requires
        0 <= i < j <= s.len(),
    ensures
        bytes(s.take(i)) < bytes(s.take(j)),
    decreases j - i,
{
    assert(s.take(j).drop_last() =~= s.take(j - 1));
    if i < j - 1 {
        bytes_grow(s, i, j - 1);
    }
}

fn width_of(c: char) -> (r: usize)
    ensures
        r == char_bytes(c),
{
    let n: u32 = c as u32;
    if n < 0x80 {
        1
    } else if n < 0x800 {
        2
    } else if n < 0x1_0000 {
        3
    } else {
        4
    }
}

pub fn cut_bytes(s: &str, n: usize) -> (r: Option<String>)
    ensures
        match r {
            Some(p) => byte_prefix(s@, n as nat, p@),
            None => !exists|p: Seq<char>| byte_prefix(s@, n as nat, p),
        },
{
    let v = chars_of(s);
    let mut used: usize = 0;
    let mut i: usize = 0;
    proof {
        assert(v@.take(0) =~= Seq::empty());
    }
    while i < v.len()
        invariant
            i <= v.len(),
            v@ == s@,
            used <= n,
            used == bytes(v@.take(i as int)),
        decreases v.len() - i,
    {
        let w: usize = width_of(v[i]);
        proof {
            assert(v@.take(i + 1).drop_last() =~= v@.take(i as int));
            assert(v@.take(v@.len() as int) =~= v@);
            bytes_grow(v@, i as int, i + 1);
            if i + 1 < v@.len() {
                bytes_grow(v@, i + 1, v@.len() as int);
            }
        }
        if w > n - used {
            if used == n {
                let p = slice_chars(&v, 0, i);
                proof {
                    assert(p@ =~= s@.take(p@.len() as int));
                    assert(p@ =~= v@.take(i as int));
                }
                return Some(p);
            }
            proof {
                assert forall|p: Seq<char>| !byte_prefix(s@, n as nat, p) by {
                    if byte_prefix(s@, n as nat, p) {
                        let k = p.len() as int;
                        assert(p == v@.take(k));
                        if k < i {
                            bytes_grow(v@, k, i as int);
                        } else if k > i + 1 {
                            bytes_grow(v@, i + 1, k);
                        }
                    }
                }
            }
            return None;
        }
        used += w;
        i += 1;
    }
    proof {
        assert(v@.take(i as int) =~= v@);
    }
    Some(s.to_owned())
}

/// Each of the pieces is found in what they are joined to.
pub proof fn joined_holds_its_pieces(parts: Seq<Seq<char>>, sep: Seq<char>, i: int)
    requires
        0 <= i < parts.len(),
    ensures
        occurs(joined(parts, sep), parts[i]),
    decreases parts.len(),
{
    let all = joined(parts, sep);
    if parts.len() == 1 {
        assert(all.subrange(0, all.len() as int) =~= parts[i]);
        assert(occurs_at(all, 0, parts[i]));
    } else if i == parts.len() - 1 {
        let at = all.len() - parts[i].len();
        assert(all.subrange(at, at + parts[i].len()) =~= parts[i]);
        assert(occurs_at(all, at, parts[i]));
    } else {
        let front = parts.drop_last();
        joined_holds_its_pieces(front, sep, i);
        let before = joined(front, sep);
        let k = choose|k: int| occurs_at(before, k, front[i]);
        assert(all.subrange(k, k + parts[i].len()) =~= before.subrange(k, k + parts[i].len()));
        assert(occurs_at(all, k, parts[i]));
    }
}

/// What occurs in a text occurs in it in whatever case.
pub proof fn occurrences_survive_lowering(s: Seq<char>, p: Seq<char>)
    requires
        occurs(s, p),
    ensures
        occurs(lowered(s), lowered(p)),
{
    let k = choose|k: int| occurs_at(s, k, p);
    assert(lowered(s).subrange(k, k + p.len()) =~= lowered(p)) by {
        assert forall|j: int| 0 <= j < p.len() implies lowered(s).subrange(k, k + p.len())[j]
            == lowered(p)[j] by {
            assert(s.subrange(k, k + p.len())[j] == p[j]);
        }
    }
    assert(occurs_at(lowered(s), k, lowered(p)));
}

proof fn leading_space_goes(s: Seq<char>) -> (n: int)
    ensures
        0 <= n <= s.len(),
        trimmed_start(s) == s.skip(n),
        forall|i: int| 0 <= i < n ==> is_space(#[trigger] s[i]),
        n < s.len() ==> !is_space(s[n]),
    decreases s.len(),
{
    if s.len() > 0 && is_space(s[0]) {
        let m = leading_space_goes(s.skip(1));
        assert(s.skip(1).skip(m) =~= s.skip(m + 1));
        assert forall|i: int| 0 <= i < m + 1 implies is_space(#[trigger] s[i]) by {
            if i > 0 {
                assert(s.skip(1)[i - 1] == s[i]);
            }
        }
        m + 1
    } else {
        assert(s.skip(0) =~= s);
        0
    }
}

proof fn trailing_space_goes(s: Seq<char>) -> (n: int)
    ensures
        0 <= n <= s.len(),
        trimmed_end(s) == s.take(n),
        forall|i: int| n <= i < s.len() ==> is_space(#[trigger] s[i]),
        n > 0 ==> !is_space(s[n - 1]),
    decreases s.len(),
{
    if s.len() > 0 && is_space(s.last()) {
        let n = trailing_space_goes(s.drop_last());
        assert(s.drop_last().take(n) =~= s.take(n));
        assert forall|i: int| n <= i < s.len() implies is_space(#[trigger] s[i]) by {
            if i < s.len() - 1 {
                assert(s.drop_last()[i] == s[i]);
            }
        }
        n
    } else {
        assert(s.take(s.len() as int) =~= s);
        s.len() as int
    }
}

/// Trimming takes white space off both ends, all of it and nothing else; trimming
/// the end leaves the beginning as it is.
pub proof fn trimming_takes_space_off(before: Seq<char>, s: Seq<char>, after: Seq<char>)
    requires
        forall|i: int| 0 <= i < before.len() ==> is_space(#[trigger] before[i]),
        forall|i: int| 0 <= i < after.len() ==> is_space(#[trigger] after[i]),
        s.len() > 0 ==> !is_space(s[0]) && !is_space(s.last()),
    ensures
        trimmed(before + s + after) == s,
        trimmed_end(s + after) == s,
        trimmed_start(before + s) == s,
{
    let all = before + s + after;
    let n = leading_space_goes(all);
    if s.len() > 0 {
        assert(all[before.len() as int] == s[0]);
        assert forall|i: int| 0 <= i < before.len() implies is_space(#[trigger] all[i]) by {
            assert(all[i] == before[i]);
        }
        assert(n == before.len());
    } else {
        assert forall|i: int| 0 <= i < all.len() implies is_space(#[trigger] all[i]) by {
            if i < before.len() {
                assert(all[i] == before[i]);
            } else {
                assert(all[i] == after[i - before.len()]);
            }
        }
        assert(n == all.len());
    }
    let rest = all.skip(n);
    let m = trailing_space_goes(rest);
    if s.len() > 0 {
        assert(rest =~= s + after);
        assert(rest[s.len() - 1] == s.last());
        assert forall|i: int| s.len() <= i < rest.len() implies is_space(#[trigger] rest[i]) by {
            assert(rest[i] == after[i - s.len()]);
        }
        assert(m == s.len());
    } else {
        assert(rest.len() == 0);
    }
    assert(rest.take(m) =~= s);
    let k = trailing_space_goes(s + after);
    assert forall|i: int| s.len() <= i < (s + after).len() implies is_space(
        #[trigger] (s + after)[i],
    ) by {
        assert((s + after)[i] == after[i - s.len()]);
    }
    if s.len() > 0 {
        assert((s + after)[s.len() - 1] == s.last());
    }
    assert(k == s.len());
    assert((s + after).take(k) =~= s);
    let j = leading_space_goes(before + s);
    assert forall|i: int| 0 <= i < before.len() implies is_space(#[trigger] (before + s)[i]) by {
        assert((before + s)[i] == before[i]);
    }
    if s.len() > 0 {
        assert((before + s)[before.len() as int] == s[0]);
    }
    assert(j == before.len());
    assert((before + s).skip(j) =~= s);
}

/// A padded text is the text, as wide as is asked for at least, with nothing but
/// the filling on the one side.
pub proof fn padding_fills_up(s: Seq<char>, fill: char, width: nat)
    ensures
        s.len() >= width ==> padded_left(s, fill, width) == s && padded_right(s, fill, width) == s,
        s.len() < width ==> padded_left(s, fill, width).len() == width && padded_right(
            s,
            fill,
            width,
        ).len() == width,
        ends(padded_left(s, fill, width), s),
        starts(padded_right(s, fill, width), s),
        forall|i: int|
            0 <= i < width - s.len() ==> #[trigger] padded_left(s, fill, width)[i] == fill,
        forall|i: int|
            s.len() <= i < width ==> #[trigger] padded_right(s, fill, width)[i] == fill,
{
    let l = padded_left(s, fill, width);
    let r = padded_right(s, fill, width);
    assert(l.subrange(l.len() - s.len(), l.len() as int) =~= s);
    assert(r.subrange(0, s.len() as int) =~= s);
}

proof fn replacing_looks_ahead(s: Seq<char>, i: int, pat: Seq<char>, rep: Seq<char>)
    requires
        0 <= i <= s.len(),
    ensures
        replaced_from(s, i, pat, rep) == replaced(s.skip(i), pat, rep),
{
    replacing_shifts(s, i, 0, pat, rep);
}

proof fn replacing_shifts(s: Seq<char>, k: int, i: int, pat: Seq<char>, rep: Seq<char>)
    requires
        0 <= k <= s.len(),
        0 <= i,
    ensures
        replaced_from(s, k + i, pat, rep) == replaced_from(s.skip(k), i, pat, rep),
    decreases s.len() - k - i,
{
    let t = s.skip(k);
    if i < t.len() {
        if i + pat.len() <= t.len() {
            assert(t.subrange(i, i + pat.len()) =~= s.subrange(k + i, k + i + pat.len()));
        }
        assert(occurs_at(s, k + i, pat) == occurs_at(t, i, pat));
        if pat.len() > 0 && occurs_at(t, i, pat) {
            replacing_shifts(s, k, i + pat.len(), pat, rep);
            assert(k + i + pat.len() == k + (i + pat.len()));
        } else {
            replacing_shifts(s, k, i + 1, pat, rep);
            assert(k + i + 1 == k + (i + 1));
        }
    }
}

proof fn kept_until_found(s: Seq<char>, i: int, k: int, pat: Seq<char>, rep: Seq<char>)
    requires
        0 <= i <= k,
        pat.len() > 0,
        occurs_at(s, k, pat),
        forall|j: int| i <= j < k ==> !occurs_at(s, j, pat),
    ensures
        replaced_from(s, i, pat, rep) == s.subrange(i, k) + rep + replaced(
            s.skip(k + pat.len()),
            pat,
            rep,
        ),
    decreases k - i,
{
    let rest = replaced(s.skip(k + pat.len()), pat, rep);
    if i < k {
        kept_until_found(s, i + 1, k, pat, rep);
        assert(seq![s[i]] + (s.subrange(i + 1, k) + rep + rest) =~= s.subrange(i, k) + rep + rest);
    } else {
        replacing_looks_ahead(s, k + pat.len(), pat, rep);
        assert(s.subrange(i, k) + rep + rest =~= rep + rest);
    }
}

/// Replacing keeps what stands before the first occurrence, puts the replacement
/// in the place of the occurrence, and goes on behind it.
pub proof fn first_occurrences_are_replaced(
    before: Seq<char>,
    pat: Seq<char>,
    after: Seq<char>,
    rep: Seq<char>,
)
    requires
        pat.len() > 0,
        forall|j: int| 0 <= j < before.len() ==> !occurs_at(before + pat + after, j, pat),
    ensures
        replaced(before + pat + after, pat, rep) == before + rep + replaced(after, pat, rep),
{
    let s = before + pat + after;
    let k = before.len() as int;
    assert(s.subrange(k, k + pat.len()) =~= pat);
    kept_until_found(s, 0, k, pat, rep);
    assert(s.subrange(0, k) =~= before);
    assert(s.skip(k + pat.len()) =~= after);
}

/// The first place where a text occurs is the one that is found.
pub proof fn first_is_found(s: Seq<char>, p: Seq<char>, i: int, k: int)
    requires
        0 <= i <= k,
        occurs_at(s, k, p),
        forall|j: int| i <= j < k ==> !occurs_at(s, j, p),
    ensures
        first_occurrence(s, p, i) == Some(k),
{
    first_occurrence_found(s, p, i, k);
}

/// What does not occur is not found.
pub proof fn missing_is_not_found(s: Seq<char>, p: Seq<char>, i: int)
    requires
        0 <= i,
        !occurs(s, p),
    ensures
        first_occurrence(s, p, i) is None,
{
    first_occurrence_missing(s, p, i);
}

proof fn splitting_gives_pieces(s: Seq<char>, c: char)
    ensures
        split_on(s, c).len() > 0,
        !s.contains(c) ==> split_on(s, c) =~= seq![s],
    decreases s.len(),
{
    if s.len() > 0 {
        let t = s.drop_last();
        splitting_gives_pieces(t, c);
        if !s.contains(c) {
            assert forall|i: int| 0 <= i < t.len() implies t[i] != c by {
                assert(s.contains(s[i]));
            }
            assert(s.contains(s.last()));
            assert(t.push(s.last()) =~= s);
        }
    } else {
        assert(s =~= Seq::empty());
    }
}

/// A text is split at its separators: what stands before the first one is the first
/// piece, and the pieces of the rest follow. Without a separator it is one piece.
pub proof fn pieces_end_at_separators(a: Seq<char>, c: char, b: Seq<char>)
    requires
        !a.contains(c),
    ensures
        split_on(a, c) == seq![a],
        split_on(a.push(c) + b, c) == seq![a] + split_on(b, c),
    decreases b.len(),
{
    splitting_gives_pieces(a, c);
    let s = a.push(c) + b;
    if b.len() == 0 {
        assert(s.drop_last() =~= a);
        assert(s.last() == c);
        assert(seq![a].push(Seq::empty()) =~= seq![a] + split_on(b, c));
    } else {
        let rest = b.drop_last();
        pieces_end_at_separators(a, c, rest);
        splitting_gives_pieces(rest, c);
        assert(s.drop_last() =~= a.push(c) + rest);
        assert(s.last() == b.last());
        let x = split_on(rest, c);
        assert((seq![a] + x).last() == x.last());
        assert((seq![a] + x).drop_last() =~= seq![a] + x.drop_last());
        if b.last() == c {
            assert((seq![a] + x).push(Seq::empty()) =~= seq![a] + x.push(Seq::empty()));
        } else {
            let z = x.last().push(b.last());
            assert((seq![a] + x.drop_last()).push(z) =~= seq![a] + x.drop_last().push(z));
        }
    }
}

proof fn decimals_are_numbers(n: nat)
    ensures
        is_number(decimal(n)),
        number(decimal(n)) == n,
    decreases n,
{
    let s = decimal(n);
    if n < 10 {
        assert(s =~= seq![digit(n as int)]);
        assert(s.drop_last() =~= Seq::empty());
        assert(number(s.drop_last()) == 0);
    } else {
        decimals_are_numbers(n / 10);
        assert(s.drop_last() =~= decimal(n / 10));
        assert forall|i: int| 0 <= i < s.len() implies '0' <= #[trigger] s[i] <= '9' by {
            if i < s.len() - 1 {
                assert(s[i] == decimal(n / 10)[i]);
            }
        }
    }
}

/// A number that is written down is read back as it was, with or without a plus
/// sign, unless it is too large.
pub proof fn numbers_are_read_back(n: nat, z: int)
    ensures
        number(decimal(n)) == n,
        n <= u32::MAX ==> as_u32(decimal(n)) == Some(n as u32) && as_u32(seq!['+'] + decimal(n))
            == Some(n as u32),
        n > u32::MAX ==> as_u32(decimal(n)) is None,
        i32::MIN <= z <= i32::MAX ==> as_i32(decimal_int(z)) == Some(z as i32),
        z < i32::MIN || z > i32::MAX ==> as_i32(decimal_int(z)) is None,
        as_u32(Seq::empty()) is None,
        as_i32(Seq::empty()) is None,
{
    decimals_are_numbers(n);
    assert('0' <= decimal(n)[0] <= '9');
    assert((seq!['+'] + decimal(n)).skip(1) =~= decimal(n));
    if z < 0 {
        decimals_are_numbers((-z) as nat);
        assert(decimal_int(z).skip(1) =~= decimal((-z) as nat));
        assert(decimal_int(z)[0] == '-');
    } else {
        decimals_are_numbers(z as nat);
        assert('0' <= decimal(z as nat)[0] <= '9');
    }
}

/// A number in decimal digits has no space at either end.
pub proof fn decimal_is_plain(n: nat)
    ensures
        decimal(n).len() > 0,
        !is_space(decimal(n)[0]),
        !is_space(decimal(n).last()),
{
    decimals_are_numbers(n);
    let s = decimal(n);
    assert('0' <= s[0] <= '9');
    assert('0' <= s[s.len() - 1] <= '9');
}

/// Letters are lowered one for one, and nothing else is changed.
pub proof fn letters_are_lowered(s: Seq<char>, i: int)
    requires
        0 <= i < s.len(),
    ensures
        lowered(s).len() == s.len(),
        'A' <= s[i] <= 'Z' ==> 'a' <= lowered(s)[i] <= 'z' && lowered(s)[i] as int - 'a' as int
            == s[i] as int - 'A' as int,
        !('A' <= s[i] <= 'Z') ==> lowered(s)[i] == s[i],
{
}

/// A text is read line by line: what stands before a line break is a line, without the
/// carriage return before the break, and the lines of the rest follow. What stands
/// behind the last break is a line unless it is empty.
pub proof fn lines_end_at_breaks(line: Seq<char>, rest: Seq<char>)
    requires
        !line.contains('\n'),
    ensures
        line.len() > 0 ==> lines_of(line) == seq![line],
        lines_of(Seq::empty()) == Seq::<Seq<char>>::empty(),
        line.len() == 0 || line.last() != '\r' ==> lines_of(line.push('\n') + rest) == seq![line]
            + lines_of(rest),
        lines_of(line.push('\r').push('\n') + rest) == seq![line] + lines_of(rest),
{
    pieces_end_at_separators(line, '\n', rest);
    assert(lines_of(Seq::empty()) =~= Seq::<Seq<char>>::empty());
    assert(line.len() > 0 ==> lines_of(line) =~= seq![line]);
    splitting_gives_pieces(rest, '\n');
    let parts = split_on(rest, '\n');
    let all = seq![line] + parts;
    assert(all.last() == parts.last());
    if line.len() == 0 || line.last() != '\r' {
        assert(lines_of(line.push('\n') + rest) =~= seq![line] + lines_of(rest));
    }
    let long = line.push('\r');
    assert(!long.contains('\n')) by {
        if long.contains('\n') {
            let i = choose|i: int| 0 <= i < long.len() && long[i] == '\n';
            assert(line.contains(line[i]));
        }
    }
    pieces_end_at_separators(long, '\n', rest);
    assert((seq![long] + parts).last() == parts.last());
    assert(long.drop_last() =~= line);
    assert(lines_of(long.push('\n') + rest) =~= seq![line] + lines_of(rest));
}

/// A number is written in decimal digits alone, and read back from them.
pub proof fn decimal_is_number(n: nat)
    ensures
        is_number(decimal(n)),
        number(decimal(n)) == n,
{
    decimals_are_numbers(n);
}

/// What occurs in one of two texts occurs in the one followed by the other.
pub proof fn sums_hold_what_is_in_them(a: Seq<char>, b: Seq<char>, p: Seq<char>)
    ensures
        occurs(a, p) ==> occurs(a + b, p),
        occurs(b, p) ==> occurs(a + b, p),
{
    if occurs(a, p) {
        let k = choose|k: int| occurs_at(a, k, p);
        assert((a + b).subrange(k, k + p.len()) =~= a.subrange(k, k + p.len()));
        assert(occurs_at(a + b, k, p));
    }
    if occurs(b, p) {
        let k = choose|k: int| occurs_at(b, k, p);
        let n = a.len() as int;
        assert((a + b).subrange(n + k, n + k + p.len()) =~= b.subrange(k, k + p.len()));
        assert(occurs_at(a + b, n + k, p));
    }
}

} // verus!
