//! A small map keyed by strings, kept as a list of entries.
use vstd::prelude::*;
use crate::text::str_eq;

verus! {

broadcast use vstd::string::group_string_axioms;

/// The map a list of entries stands for; a later entry overrides an earlier
/// one of the same key.
pub open spec fn assoc_map<T>(s: Seq<(String, T)>) -> Map<Seq<char>, T>
    decreases s.len(),
{
    if s.len() == 0 {
        Map::empty()
    } else {
        assoc_map(s.drop_last()).insert(s.last().0@, s.last().1)
    }
}

/// The value of key `k`, if any.
pub open spec fn lookup<T>(m: Map<Seq<char>, T>, k: Seq<char>) -> Option<T> {
    if m.dom().contains(k) {
        Some(m[k])
    } else {
        None
    }
}

/// A map from strings to values.
pub struct AssocList<T> {
    entries: Vec<(String, T)>,
}

impl<T> View for AssocList<T> {
    type V = Map<Seq<char>, T>;

    closed spec fn view(&self) -> Map<Seq<char>, T> {
        assoc_map(self.entries@)
    }
}

impl<T> AssocList<T> {
    /// The empty map.
    pub fn new() -> (r: Self)
        ensures
            r@ == Map::<Seq<char>, T>::empty(),
    {
        AssocList { entries: Vec::new() }
    }

    /// Removes key `k`, giving back its value.
    pub fn remove(&mut self, k: &str) -> (r: Option<T>)
        ensures
            r == lookup(old(self)@, k@),
            final(self)@ == old(self)@.remove(k@),
    {
        let ghost orig = self.entries@;
        let mut rest: Vec<(String, T)> = Vec::new();
        std::mem::swap(&mut rest, &mut self.entries);
        let mut found: Option<T> = None;
        let mut kept: Vec<(String, T)> = Vec::new();
        let ghost mut done: int = 0;
        while rest.len() > 0
            invariant
                0 <= done <= orig.len(),
                rest@ == orig.subrange(done, orig.len() as int),
                assoc_map(kept@) == assoc_map(orig.take(done)).remove(k@),
                found == lookup(assoc_map(orig.take(done)), k@),
            decreases rest@.len(),
        {
            let e = rest.remove(0);
            proof {
                assert(orig.take(done + 1).drop_last() =~= orig.take(done));
                assert(orig.take(done + 1).last() == orig[done]);
                assert(orig.subrange(done, orig.len() as int)[0] == orig[done]);
                assert(orig.subrange(done, orig.len() as int).remove(0) =~= orig.subrange(
                    done + 1,
                    orig.len() as int,
                ));
            }
            if str_eq(e.0.as_str(), k) {
                found = Some(e.1);
                proof {
                    assert(assoc_map(kept@) =~= assoc_map(orig.take(done + 1)).remove(k@));
                }
            } else {
                let ghost before = kept@;
                kept.push(e);
                proof {
                    assert(kept@.drop_last() =~= before);
                    assert(assoc_map(kept@) =~= assoc_map(orig.take(done + 1)).remove(k@));
                }
            }
            proof {
                done = done + 1;
            }
        }
        proof {
            assert(orig.take(done) =~= orig);
        }
        self.entries = kept;
        found
    }

    /// Sets key `k` to `v`.
    pub fn insert(&mut self, k: String, v: T)
        ensures
            final(self)@ == old(self)@.insert(k@, v),
    {
        let _ = self.remove(k.as_str());
        let ghost before = self.entries@;
        self.entries.push((k, v));
        proof {
            assert(self.entries@.drop_last() =~= before);
            assert(assoc_map(self.entries@) =~= old(self)@.insert(k@, v));
        }
    }

    /// Whether key `k` is present.
    pub fn contains_key(&self, k: &str) -> (r: bool)
        ensures
            r == self@.dom().contains(k@),
    {
        let mut i: usize = self.entries.len();
        proof {
            assert(self.entries@.take(i as int) =~= self.entries@);
        }
        while i > 0
            invariant
                i <= self.entries@.len(),
                assoc_map(self.entries@).dom().contains(k@) == assoc_map(self.entries@.take(i as int)).dom().contains(k@),
            decreases i,
        {
            proof {
                assert(self.entries@.take(i as int).drop_last() =~= self.entries@.take(i - 1));
                assert(self.entries@.take(i as int).last() == self.entries@[i - 1]);
            }
            if str_eq(self.entries[i - 1].0.as_str(), k) {
                return true;
            }
            i = i - 1;
        }
        false
    }
}

impl<T: Copy> AssocList<T> {
    /// The value of key `k`, if any.
    pub fn get(&self, k: &str) -> (r: Option<T>)
        ensures
            r == lookup(self@, k@),
    {
        let mut i: usize = self.entries.len();
        proof {
            assert(self.entries@.take(i as int) =~= self.entries@);
        }
        while i > 0
            invariant
                i <= self.entries@.len(),
                lookup(assoc_map(self.entries@), k@) == lookup(assoc_map(self.entries@.take(i as int)), k@),
            decreases i,
        {
            proof {
                assert(self.entries@.take(i as int).drop_last() =~= self.entries@.take(i - 1));
                assert(self.entries@.take(i as int).last() == self.entries@[i - 1]);
            }
            if str_eq(self.entries[i - 1].0.as_str(), k) {
                return Some(self.entries[i - 1].1);
            }
            i = i - 1;
        }
        proof {
            assert(self.entries@.take(0) =~= Seq::<(String, T)>::empty());
        }
        None
    }
}

impl AssocList<String> {
    /// A copy of the text stored under key `k`, if any.
    pub fn get_text(&self, k: &str) -> (r: Option<String>)
        ensures
            match r {
                Some(v) => lookup(self@, k@) matches Some(w) && w@ == v@,
                None => lookup(self@, k@) is None,
            },
    {
        let mut i: usize = self.entries.len();
        proof {
            assert(self.entries@.take(i as int) =~= self.entries@);
        }
        while i > 0
            invariant
                i <= self.entries@.len(),
                lookup(assoc_map(self.entries@), k@) == lookup(assoc_map(self.entries@.take(i as int)), k@),
            decreases i,
        {
            proof {
                assert(self.entries@.take(i as int).drop_last() =~= self.entries@.take(i - 1));
                assert(self.entries@.take(i as int).last() == self.entries@[i - 1]);
            }
            if str_eq(self.entries[i - 1].0.as_str(), k) {
                return Some(self.entries[i - 1].1.clone());
            }
            i = i - 1;
        }
        proof {
            assert(self.entries@.take(0) =~= Seq::<(String, String)>::empty());
        }
        None
    }
}

impl AssocList<Option<String>> {
    /// A copy of the value stored under key `k`, if any.
    pub fn get_opt(&self, k: &str) -> (r: Option<Option<String>>)
        ensures
            r == lookup(self@, k@),
    {
        let mut i: usize = self.entries.len();
        proof {
            assert(self.entries@.take(i as int) =~= self.entries@);
        }
        while i > 0
            invariant
                i <= self.entries@.len(),
                lookup(assoc_map(self.entries@), k@) == lookup(assoc_map(self.entries@.take(i as int)), k@),
            decreases i,
        {
            proof {
                assert(self.entries@.take(i as int).drop_last() =~= self.entries@.take(i - 1));
                assert(self.entries@.take(i as int).last() == self.entries@[i - 1]);
            }
            if str_eq(self.entries[i - 1].0.as_str(), k) {
                return Some(crate::models::config::copy_opt(&self.entries[i - 1].1));
            }
            i = i - 1;
        }
        proof {
            assert(self.entries@.take(0) =~= Seq::<(String, Option<String>)>::empty());
        }
        None
    }
}

} // verus!
