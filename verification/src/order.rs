//! Stable sorting by key.

use vstd::prelude::*;
use crate::text::{self, comes_before};
use crate::types::Timestamp;

verus! {

/// Keys that can be ranked. Neither of two keys may come before the other.
pub trait Rank: Sized {
    spec fn precedes(self, other: Self) -> bool;

    proof fn not_both(a: Self, b: Self)
        ensures
            !(a.precedes(b) && b.precedes(a)),
    ;

    proof fn between(a: Self, b: Self, c: Self)
        requires
            a.precedes(c),
        ensures
            a.precedes(b) || b.precedes(c),
    ;

    fn is_before(&self, other: &Self) -> (r: bool)
        ensures
            r == self.precedes(*other),
    ;
}

/// `a` is placed in front of `b`: by rank, and by position where the rank does
/// not decide.
pub open spec fn in_front<K: Rank>(keys: Seq<K>, a: int, b: int) -> bool {
    keys[a].precedes(keys[b]) || (!keys[b].precedes(keys[a]) && a < b)
}

/// `p` lists the first `n` positions, each once, in the order of their keys.
pub open spec fn is_order<K: Rank>(keys: Seq<K>, p: Seq<usize>, n: int) -> bool {
    &&& p.len() == n
    &&& forall|i: int| 0 <= i < n ==> 0 <= #[trigger] p[i] < n
    &&& forall|i: int, j: int| 0 <= i < j < n ==> #[trigger] p[i] != #[trigger] p[j]
    &&& forall|i: int, j: int|
        0 <= i < j < n ==> in_front(keys, #[trigger] p[i] as int, #[trigger] p[j] as int)
}

/// The positions of the keys in order; keys of one rank keep their order.
pub fn sort_positions<K: Rank>(keys: &Vec<K>) -> (p: Vec<usize>)
    ensures
        is_order(keys@, p@, keys@.len() as int),
{
    let mut p: Vec<usize> = Vec::new();
    let mut n: usize = 0;
    while n < keys.len()
        invariant
            n <= keys.len(),
            is_order(keys@, p@, n as int),
        decreases keys.len() - n,
    {
        let mut at: usize = p.len();
        while at > 0 && keys[n].is_before(&keys[p[at - 1]])
            invariant
                at <= p.len(),
                n < keys.len(),
                is_order(keys@, p@, n as int),
                forall|i: int| at <= i < n ==> keys@[n as int].precedes(keys@[#[trigger] p@[i] as int]),
            decreases at,
        {
            at -= 1;
        }
        let ghost before = p@;
        p.insert(at, n);
        proof {
            let after = p@;
            let k = keys@;
            assert(after =~= before.insert(at as int, n));
            assert forall|i: int| 0 <= i < n + 1 implies 0 <= #[trigger] after[i] < n + 1 by {
                if i < at {
                    assert(after[i] == before[i]);
                } else if i > at {
                    assert(after[i] == before[i - 1]);
                }
            }
            assert forall|i: int, j: int| 0 <= i < j < n + 1 implies #[trigger] after[i]
                != #[trigger] after[j] && in_front(k, after[i] as int, after[j] as int) by {
                if i < at {
                    assert(after[i] == before[i]);
                } else if i > at {
                    assert(after[i] == before[i - 1]);
                }
                if j < at {
                    assert(after[j] == before[j]);
                } else if j > at {
                    assert(after[j] == before[j - 1]);
                }
                if j == at {
                    // Everything left of the new position stays in front.
                    let e = before[i] as int;
                    if k[n as int].precedes(k[e]) {
                        let f = before[at - 1] as int;
                        if i < at - 1 {
                            K::between(k[n as int], k[f], k[e]);
                            K::not_both(k[e], k[f]);
                            assert(in_front(k, before[i] as int, before[at - 1] as int));
                        }
                        assert(false);
                    }
                }
            }
        }
        n += 1;
    }
    p
}

/// An order misses no position.
pub proof fn order_is_complete<K: Rank>(keys: Seq<K>, p: Seq<usize>, n: int, v: usize)
    requires
        is_order(keys, p, n),
        v < n,
    ensures
        p.contains(v),
{
    let q = p.map_values(|x: usize| x as int);
    let range = vstd::set_lib::set_int_range(0, n);
    vstd::set_lib::lemma_int_range(0, n);
    assert(q.no_duplicates()) by {
        assert forall|i: int, j: int| 0 <= i < q.len() && 0 <= j < q.len() && i != j implies q[i]
            != q[j] by {
            if i < j {
                assert(p[i] != p[j]);
            } else {
                assert(p[j] != p[i]);
            }
        }
    }
    q.unique_seq_to_set();
    assert(q.to_set().subset_of(range)) by {
        assert forall|x: int| q.to_set().contains(x) implies range.contains(x) by {
            let i = choose|i: int| 0 <= i < q.len() && q[i] == x;
            assert(0 <= p[i] < n);
        }
    }
    vstd::set_lib::lemma_subset_equality(q.to_set(), range);
    assert(range.contains(v as int));
    assert(q.to_set().contains(v as int));
    let i = choose|i: int| 0 <= i < q.len() && q[i] == v as int;
    assert(p[i] == v);
}

/// Two orders of the same keys are the same.
pub proof fn order_is_unique<K: Rank>(keys: Seq<K>, p: Seq<usize>, q: Seq<usize>, n: int)
    requires
        is_order(keys, p, n),
        is_order(keys, q, n),
    ensures
        p == q,
{
    if n >= 0 {
        orders_agree_from(keys, p, q, n, 0);
    }
    assert(p =~= q);
}

proof fn orders_agree_from<K: Rank>(keys: Seq<K>, p: Seq<usize>, q: Seq<usize>, n: int, i: int)
    requires
        is_order(keys, p, n),
        is_order(keys, q, n),
        0 <= i <= n,
        forall|j: int| 0 <= j < i ==> p[j] == q[j],
    ensures
        forall|j: int| 0 <= j < n ==> p[j] == q[j],
    decreases n - i,
{
    if i < n {
        if p[i] != q[i] {
            // Each of the two heads would stand behind the other.
            order_is_complete(keys, p, n, q[i]);
            order_is_complete(keys, q, n, p[i]);
            let a = choose|a: int| 0 <= a < n && p[a] == q[i];
            let b = choose|b: int| 0 <= b < n && q[b] == p[i];
            assert(a > i) by {
                if a < i {
                    assert(q[a] == q[i]);
                }
            }
            assert(b > i) by {
                if b < i {
                    assert(p[b] == p[i]);
                }
            }
            assert(in_front(keys, p[i] as int, p[a] as int));
            assert(in_front(keys, q[i] as int, q[b] as int));
            K::not_both(keys[p[i] as int], keys[q[i] as int]);
        }
        orders_agree_from(keys, p, q, n, i + 1);
    }
}

/// Later times first.
#[derive(Clone, Copy)]
pub struct Newest(pub Timestamp);

impl Rank for Newest {
    open spec fn precedes(self, other: Self) -> bool {
        other.0.earlier(self.0)
    }

    proof fn not_both(a: Self, b: Self) {
    }

    proof fn between(a: Self, b: Self, c: Self) {
    }

    fn is_before(&self, other: &Self) -> (r: bool) {
        other.0.is_before(self.0)
    }
}

/// Earlier times first.
#[derive(Clone, Copy)]
pub struct Oldest(pub Timestamp);

impl Rank for Oldest {
    open spec fn precedes(self, other: Self) -> bool {
        self.0.earlier(other.0)
    }

    proof fn not_both(a: Self, b: Self) {
    }

    proof fn between(a: Self, b: Self, c: Self) {
    }

    fn is_before(&self, other: &Self) -> (r: bool) {
        self.0.is_before(other.0)
    }
}

pub proof fn before_not_both(a: Seq<char>, b: Seq<char>)
    ensures
        !(text::before(a, b) && text::before(b, a)),
    decreases a.len(),
{
    if a.len() > 0 && b.len() > 0 {
        before_not_both(a.skip(1), b.skip(1));
    }
}

pub proof fn before_between(a: Seq<char>, b: Seq<char>, c: Seq<char>)
    requires
        text::before(a, c),
    ensures
        text::before(a, b) || text::before(b, c),
    decreases a.len(),
{
    if a.len() > 0 && b.len() > 0 && a[0] == c[0] && a[0] == b[0] {
        before_between(a.skip(1), b.skip(1), c.skip(1));
    }
}

pub proof fn before_decides(a: Seq<char>, b: Seq<char>)
    requires
        a != b,
    ensures
        text::before(a, b) || text::before(b, a),
    decreases a.len(),
{
    if a.len() == 0 || b.len() == 0 {
        if a.len() == 0 && b.len() == 0 {
            assert(a =~= b);
        }
    } else if a[0] == b[0] {
        if a.skip(1) == b.skip(1) {
            assert(a =~= seq![a[0]] + a.skip(1));
            assert(b =~= seq![b[0]] + b.skip(1));
        }
        before_decides(a.skip(1), b.skip(1));
    }
}

/// Names in alphabetical order.
pub struct Name(pub String);

impl Rank for Name {
    open spec fn precedes(self, other: Self) -> bool {
        text::before(self.0@, other.0@)
    }

    proof fn not_both(a: Self, b: Self) {
        before_not_both(a.0@, b.0@);
    }

    proof fn between(a: Self, b: Self, c: Self) {
        before_between(a.0@, b.0@, c.0@);
    }

    fn is_before(&self, other: &Self) -> (r: bool) {
        comes_before(self.0.as_str(), other.0.as_str())
    }
}

/// Latest update first, then latest dispatch, then by name.
pub struct Recent {
    pub updated_at: Timestamp,
    pub dispatched_at: Timestamp,
    pub id: String,
}

impl Rank for Recent {
    open spec fn precedes(self, other: Self) -> bool {
        other.updated_at.earlier(self.updated_at) || (self.updated_at == other.updated_at && (
        other.dispatched_at.earlier(self.dispatched_at) || (self.dispatched_at
            == other.dispatched_at && text::before(self.id@, other.id@))))
    }

    proof fn not_both(a: Self, b: Self) {
        before_not_both(a.id@, b.id@);
    }

    proof fn between(a: Self, b: Self, c: Self) {
        if text::before(a.id@, c.id@) {
            before_between(a.id@, b.id@, c.id@);
        }
    }

    fn is_before(&self, other: &Self) -> (r: bool) {
        other.updated_at.is_before(self.updated_at) || (self.updated_at == other.updated_at && (
        other.dispatched_at.is_before(self.dispatched_at) || (self.dispatched_at
            == other.dispatched_at && comes_before(self.id.as_str(), other.id.as_str()))))
    }
}

/// The names in alphabetical order.
pub fn sort_names(names: Vec<String>) -> (r: Vec<String>)
    ensures
        exists|p: Seq<usize>|
            #![auto]
            is_order(named(names@), p, names@.len() as int) && r@.len() == names@.len()
                && forall|i: int| 0 <= i < p.len() ==> r@[i]@ == names@[p[i] as int]@,
        forall|i: int, j: int|
            0 <= i < j < r@.len() ==> !text::before(#[trigger] r@[j]@, #[trigger] r@[i]@),
{
    let mut keys: Vec<Name> = Vec::new();
    let mut i: usize = 0;
    while i < names.len()
        invariant
            i <= names.len(),
            keys@ == named(names@).take(i as int),
        decreases names.len() - i,
    {
        keys.push(Name(names[i].clone()));
        i += 1;
        proof {
            assert(keys@ =~= named(names@).take(i as int));
        }
    }
    proof {
        assert(named(names@).take(i as int) =~= named(names@));
    }
    let p = sort_positions(&keys);
    let mut out: Vec<String> = Vec::new();
    let mut j: usize = 0;
    while j < p.len()
        invariant
            j <= p.len(),
            is_order(named(names@), p@, names@.len() as int),
            out@.len() == j,
            forall|k: int| 0 <= k < j ==> #[trigger] out@[k]@ == names@[p@[k] as int]@,
        decreases p.len() - j,
    {
        out.push(names[p[j]].clone());
        j += 1;
    }
    proof {
        assert forall|a: int, b: int| 0 <= a < b < out@.len() implies !text::before(
            #[trigger] out@[b]@,
            #[trigger] out@[a]@,
        ) by {
            assert(in_front(named(names@), p@[a] as int, p@[b] as int));
            before_not_both(out@[a]@, out@[b]@);
        }
        assert(is_order(named(names@), p@, names@.len() as int));
    }
    out
}

/// The items from last to first.
pub fn reversed<T>(items: Vec<T>) -> (r: Vec<T>)
    ensures
        r@ == items@.reverse(),
{
    let ghost all = items@;
    let mut items = items;
    let mut out: Vec<T> = Vec::new();
    while items.len() > 0
        invariant
            items@.len() <= all.len(),
            items@ == all.take(items@.len() as int),
            out@ == all.reverse().take(all.len() - items@.len()),
        decreases items.len(),
    {
        let ghost n = items@.len() as int;
        match items.pop() {
            Some(item) => {
                out.push(item);
                proof {
                    assert(items@ =~= all.take(n - 1));
                    assert(out@ =~= all.reverse().take(all.len() - (n - 1)));
                }
            },
            None => {},
        }
    }
    proof {
        assert(all.reverse().take(all.len() as int) =~= all.reverse());
    }
    out
}

/// The items in the order `p`.
pub open spec fn arranged<T>(items: Seq<T>, p: Seq<usize>) -> Seq<T> {
    p.map_values(|i: usize| items[i as int])
}

/// Arranging items in an order keeps them all, and adds none.
pub proof fn arranging_keeps_items<T, K: Rank>(keys: Seq<K>, items: Seq<T>, p: Seq<usize>)
    requires
        is_order(keys, p, items.len() as int),
        items.len() <= usize::MAX,
    ensures
        arranged(items, p).to_multiset() == items.to_multiset(),
    decreases items.len(),
{
    if items.len() == 0 {
        assert(arranged(items, p) =~= items);
    } else {
        let n = items.len() - 1;
        let last = n as usize;
        order_is_complete(keys, p, items.len() as int, last);
        let at = choose|at: int| 0 <= at < p.len() && p[at] == last;
        let q = p.remove(at);
        assert forall|i: int| 0 <= i < n implies 0 <= #[trigger] q[i] < n by {
            let k = if i < at {
                i
            } else {
                i + 1
            };
            assert(q[i] == p[k]);
            assert(0 <= p[k] < items.len());
            if k < at {
                assert(p[k] != p[at]);
            } else {
                assert(p[at] != p[k]);
            }
        }
        assert forall|i: int, j: int| 0 <= i < j < n implies #[trigger] q[i] != #[trigger] q[j]
            && in_front(keys, q[i] as int, q[j] as int) by {
            let k = if i < at {
                i
            } else {
                i + 1
            };
            let l = if j < at {
                j
            } else {
                j + 1
            };
            assert(q[i] == p[k]);
            assert(q[j] == p[l]);
        }
        let rest = items.drop_last();
        assert(is_order(keys, q, rest.len() as int));
        arranging_keeps_items(keys, rest, q);
        let all = arranged(items, p);
        assert(all.remove(at) =~= arranged(rest, q));
        assert(all[at] == items[n]);
        broadcast use vstd::seq_lib::group_to_multiset_ensures;

        assert(all.remove(at).to_multiset() == all.to_multiset().remove(all[at]));
        assert(rest.push(items[n]) =~= items);
        assert(items.to_multiset() == rest.to_multiset().insert(items[n]));
        assert(all.contains(all[at]));
        assert(all.to_multiset() =~= items.to_multiset());
    }
}

/// Puts the items in the order of their keys; items whose keys have one rank
/// keep their order.
pub fn sort_by_keys<T, K: Rank>(items: Vec<T>, keys: &Vec<K>) -> (r: Vec<T>)
    requires
        items@.len() == keys@.len(),
    ensures
        exists|p: Seq<usize>|
            #![trigger arranged(items@, p)]
            is_order(keys@, p, keys@.len() as int) && r@ == arranged(items@, p),
{
    let p = sort_positions(keys);
    let ghost all = items@;
    let mut rest = reversed(items);
    let mut slots: Vec<Option<T>> = Vec::new();
    while rest.len() > 0
        invariant
            rest@.len() <= all.len(),
            rest@ == all.reverse().take(rest@.len() as int),
            slots@.len() == all.len() - rest@.len(),
            forall|k: int| 0 <= k < slots@.len() ==> #[trigger] slots@[k] == Some(all[k]),
        decreases rest.len(),
    {
        let ghost n = rest@.len() as int;
        let item = rest.pop();
        slots.push(item);
        proof {
            assert(rest@ =~= all.reverse().take(n - 1));
        }
    }
    let mut out: Vec<T> = Vec::new();
    let mut j: usize = 0;
    while j < p.len()
        invariant
            j <= p.len(),
            p@.len() == all.len(),
            slots@.len() == all.len(),
            is_order(keys@, p@, all.len() as int),
            forall|k: int|
                j <= k < p@.len() ==> slots@[#[trigger] p@[k] as int] == Some(all[p@[k] as int]),
            out@ == arranged(all, p@.take(j as int)),
        decreases p.len() - j,
    {
        let ghost before = slots@;
        let at: usize = p[j];
        let mut slot: Option<T> = None;
        proof {
            assert(0 <= p@[j as int] < all.len());
        }
        slots.set_and_swap(at, &mut slot);
        match slot {
            Some(item) => {
                out.push(item);
            },
            None => {},
        }
        proof {
            assert(p@.take(j + 1) =~= p@.take(j as int).push(at));
            assert(out@ =~= arranged(all, p@.take(j + 1)));
            assert forall|k: int| j + 1 <= k < p@.len() implies slots@[#[trigger] p@[k] as int]
                == Some(all[p@[k] as int]) by {
                assert(p@[j as int] != p@[k]);
                assert(0 <= p@[k] < all.len());
            }
        }
        j += 1;
    }
    proof {
        assert(p@.take(j as int) =~= p@);
    }
    out
}

pub open spec fn named(names: Seq<String>) -> Seq<Name> {
    names.map_values(|s: String| Name(s))
}

} // verus!
