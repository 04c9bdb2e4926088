//! Maps from strings to strings: dispatch parameters and process environments.

use vstd::prelude::*;
use crate::text::same;

verus! {

/// Name and value pairs; a later pair overrides an earlier one of the same name.
pub struct StrMap {
    pub entries: Vec<(String, String)>,
}

/// The map that a list of pairs stands for.
pub open spec fn map_of(entries: Seq<(String, String)>) -> Map<Seq<char>, Seq<char>>
    decreases entries.len(),
{
    if entries.len() == 0 {
        Map::empty()
    } else {
        map_of(entries.drop_last()).insert(entries.last().0@, entries.last().1@)
    }
}

impl View for StrMap {
    type V = Map<Seq<char>, Seq<char>>;

    open spec fn view(&self) -> Map<Seq<char>, Seq<char>> {
        map_of(self.entries@)
    }
}

/// The value under `k`, if there is one.
pub open spec fn value(m: Map<Seq<char>, Seq<char>>, k: Seq<char>) -> Option<Seq<char>> {
    if m.dom().contains(k) {
        Some(m[k])
    } else {
        None
    }
}

/// The view of an optional string.
pub open spec fn opt_view(o: Option<String>) -> Option<Seq<char>> {
    match o {
        Some(s) => Some(s@),
        None => None,
    }
}

/// The view of a borrowed optional string.
pub open spec fn opt_str(o: Option<&str>) -> Option<Seq<char>> {
    match o {
        Some(s) => Some(s@),
        None => None,
    }
}

impl StrMap {
    pub fn new() -> (r: StrMap)
        ensures
            r@ == Map::<Seq<char>, Seq<char>>::empty(),
    {
        StrMap { entries: Vec::new() }
    }

    pub fn get(&self, k: &str) -> (r: Option<String>)
        ensures
            opt_view(r) == value(self@, k@),
    {
        let mut i: usize = self.entries.len();
        proof {
            assert(self.entries@.take(i as int) =~= self.entries@);
        }
        while i > 0
            invariant
                i <= self.entries.len(),
                value(map_of(self.entries@.take(i as int)), k@) == value(self@, k@),
            decreases i,
        {
            proof {
                let cur = self.entries@.take(i as int);
                assert(cur.drop_last() =~= self.entries@.take(i - 1));
                assert(cur.last() == self.entries@[i - 1]);
            }
            i -= 1;
            if same(self.entries[i].0.as_str(), k) {
                return Some(self.entries[i].1.clone());
            }
        }
        None
    }

    pub fn contains_key(&self, k: &str) -> (r: bool)
        ensures
            r == self@.dom().contains(k@),
    {
        self.get(k).is_some()
    }

    pub fn remove(&mut self, k: &str)
        ensures
            final(self)@ == old(self)@.remove(k@),
    {
        let mut kept: Vec<(String, String)> = Vec::new();
        let mut i: usize = 0;
        proof {
            assert(map_of(kept@) =~= map_of(self.entries@.take(0)).remove(k@));
        }
        while i < self.entries.len()
            invariant
                i <= self.entries.len(),
                self.entries@ == old(self).entries@,
                map_of(kept@) == map_of(self.entries@.take(i as int)).remove(k@),
            decreases self.entries.len() - i,
        {
            proof {
                let cur = self.entries@.take(i + 1);
                assert(cur.drop_last() =~= self.entries@.take(i as int));
                assert(cur.last() == self.entries@[i as int]);
            }
            if !same(self.entries[i].0.as_str(), k) {
                let ghost before = kept@;
                kept.push((self.entries[i].0.clone(), self.entries[i].1.clone()));
                proof {
                    assert(kept@.drop_last() =~= before);
                }
            }
            i += 1;
            proof {
                assert(map_of(kept@) =~= map_of(self.entries@.take(i as int)).remove(k@));
            }
        }
        proof {
            assert(self.entries@.take(i as int) =~= self.entries@);
        }
        self.entries = kept;
    }

    pub fn insert(&mut self, k: &str, v: &str)
        ensures
            final(self)@ == old(self)@.insert(k@, v@),
    {
        self.remove(k);
        let ghost before = self.entries@;
        self.entries.push((k.to_owned(), v.to_owned()));
        proof {
            assert(self.entries@.drop_last() =~= before);
            assert(self@ =~= old(self)@.insert(k@, v@));
        }
    }

    /// Adds every pair of `other`, which wins where both have a name.
    pub fn extend(&mut self, other: &StrMap)
        ensures
            final(self)@ == old(self)@.union_prefer_right(other@),
    {
        let mut i: usize = 0;
        proof {
            assert(self@ =~= old(self)@.union_prefer_right(map_of(other.entries@.take(0))));
        }
        while i < other.entries.len()
            invariant
                i <= other.entries.len(),
                self@ == old(self)@.union_prefer_right(map_of(other.entries@.take(i as int))),
            decreases other.entries.len() - i,
        {
            proof {
                let cur = other.entries@.take(i + 1);
                assert(cur.drop_last() =~= other.entries@.take(i as int));
                assert(cur.last() == other.entries@[i as int]);
            }
            self.insert(other.entries[i].0.as_str(), other.entries[i].1.as_str());
            i += 1;
            proof {
                assert(self@ =~= old(self)@.union_prefer_right(
                    map_of(other.entries@.take(i as int)),
                ));
            }
        }
        proof {
            assert(other.entries@.take(i as int) =~= other.entries@);
        }
    }

    pub fn copy(&self) -> (r: StrMap)
        ensures
            r@ == self@,
    {
        let mut r = StrMap::new();
        r.extend(self);
        proof {
            assert(r@ =~= self@);
        }
        r
    }
}

/// Copies an optional string.
pub fn copy_opt(o: &Option<String>) -> (r: Option<String>)
    ensures
        r == *o,
{
    match o {
        Some(s) => Some(s.clone()),
        None => None,
    }
}

/// The string, unless it is empty or absent.
pub open spec fn nonempty(o: Option<Seq<char>>) -> Option<Seq<char>> {
    match o {
        Some(s) => if s.len() > 0 {
            Some(s)
        } else {
            None
        },
        None => None,
    }
}

pub fn keep_nonempty(o: Option<String>) -> (r: Option<String>)
    ensures
        opt_view(r) == nonempty(opt_view(o)),
{
    match o {
        Some(s) => if s.as_str().is_empty() {
            None
        } else {
            Some(s)
        },
        None => None,
    }
}

} // verus!
