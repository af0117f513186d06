//! An association table from addresses to values.
//!
//! The record store and the balance book both need a finite map keyed by
//! derived addresses.  The table keeps its entries in a vector with pairwise
//! distinct keys and abstracts to a `Map` from key bytes to the values' views.
use vstd::prelude::*;
use crate::bytesutil::bytes_eq;

verus! {

/// A finite map from byte-vector keys to values, each key held at most once.
pub struct Table<T> {
    entries: Vec<(Vec<u8>, T)>,
}

/// The map that a sequence of key-value entries denotes; a later entry for a
/// key overrides an earlier one.
pub open spec fn entries_map<T: View>(s: Seq<(Vec<u8>, T)>) -> Map<Seq<u8>, T::V>
    decreases s.len(),
{
    if s.len() == 0 {
        Map::empty()
    } else {
        entries_map(s.drop_last()).insert(s.last().0@, s.last().1@)
    }
}

/// No two entries share a key.
pub open spec fn keys_distinct<T>(s: Seq<(Vec<u8>, T)>) -> bool {
    forall|i: int, j: int| 0 <= i < j < s.len() ==> s[i].0@ != s[j].0@
}

proof fn lemma_entries_map_contains<T: View>(s: Seq<(Vec<u8>, T)>, k: Seq<u8>)
    ensures
        entries_map(s).contains_key(k) <==> exists|i: int| 0 <= i < s.len() && s[i].0@ == k,
    decreases s.len(),
{
    if s.len() > 0 {
        let s0 = s.drop_last();
        lemma_entries_map_contains(s0, k);
        if entries_map(s).contains_key(k) {
            if k == s.last().0@ {
                assert(s[s.len() - 1].0@ == k);
            } else {
                let i = choose|i: int| 0 <= i < s0.len() && s0[i].0@ == k;
                assert(s[i].0@ == k);
            }
        }
        if exists|i: int| 0 <= i < s.len() && s[i].0@ == k {
            let i = choose|i: int| 0 <= i < s.len() && s[i].0@ == k;
            if i < s.len() - 1 {
                assert(s0[i].0@ == k);
            }
        }
    }
}

proof fn lemma_entries_map_index<T: View>(s: Seq<(Vec<u8>, T)>, i: int)
    requires
        keys_distinct(s),
        0 <= i < s.len(),
    ensures
        entries_map(s).contains_key(s[i].0@),
        entries_map(s)[s[i].0@] == s[i].1@,
    decreases s.len(),
{
    if i < s.len() - 1 {
        let s0 = s.drop_last();
        lemma_entries_map_index(s0, i);
        assert(s.last().0@ != s[i].0@);
    }
}

proof fn lemma_entries_map_update<T: View>(s: Seq<(Vec<u8>, T)>, i: int, p: (Vec<u8>, T))
    requires
        keys_distinct(s),
        0 <= i < s.len(),
        p.0@ == s[i].0@,
    ensures
        entries_map(s.update(i, p)) == entries_map(s).insert(p.0@, p.1@),
        keys_distinct(s.update(i, p)),
    decreases s.len(),
{
    let u = s.update(i, p);
    assert forall|x: int, y: int| 0 <= x < y < u.len() implies u[x].0@ != u[y].0@ by {
        assert(s[x].0@ != s[y].0@);
    }
    if i == s.len() - 1 {
        assert(u.drop_last() =~= s.drop_last());
        assert(u.last() == p);
        assert(entries_map(s.drop_last()).insert(s.last().0@, s.last().1@).insert(p.0@, p.1@)
            =~= entries_map(s.drop_last()).insert(p.0@, p.1@));
    } else {
        let s0 = s.drop_last();
        lemma_entries_map_update(s0, i, p);
        assert(u.drop_last() =~= s0.update(i, p));
        assert(u.last() == s.last());
        assert(s.last().0@ != p.0@);
        assert(entries_map(s0).insert(p.0@, p.1@).insert(s.last().0@, s.last().1@)
            =~= entries_map(s0).insert(s.last().0@, s.last().1@).insert(p.0@, p.1@));
    }
}

proof fn lemma_entries_map_remove<T: View>(s: Seq<(Vec<u8>, T)>, i: int)
    requires
        keys_distinct(s),
        0 <= i < s.len(),
    ensures
        entries_map(s.remove(i)) == entries_map(s).remove(s[i].0@),
        keys_distinct(s.remove(i)),
    decreases s.len(),
{
    let r = s.remove(i);
    let k = s[i].0@;
    assert forall|x: int, y: int| 0 <= x < y < r.len() implies r[x].0@ != r[y].0@ by {
        let sx: int = if x < i { x } else { x + 1 };
        let sy: int = if y < i { y } else { y + 1 };
        assert(r[x] == s[sx]);
        assert(r[y] == s[sy]);
        assert(s[sx].0@ != s[sy].0@);
    }
    if i == s.len() - 1 {
        assert(r =~= s.drop_last());
        lemma_entries_map_contains(s.drop_last(), k);
        assert(!entries_map(s.drop_last()).contains_key(k));
        assert(entries_map(s.drop_last()).insert(k, s.last().1@).remove(k)
            =~= entries_map(s.drop_last()));
    } else {
        let s0 = s.drop_last();
        lemma_entries_map_remove(s0, i);
        assert(r.drop_last() =~= s0.remove(i));
        assert(r.last() == s.last());
        assert(s.last().0@ != k);
        assert(entries_map(s0).remove(k).insert(s.last().0@, s.last().1@)
            =~= entries_map(s0).insert(s.last().0@, s.last().1@).remove(k));
        assert(entries_map(r) == entries_map(s0.remove(i)).insert(r.last().0@, r.last().1@));
    }
}

impl<T: View> View for Table<T> {
    type V = Map<Seq<u8>, T::V>;

    closed spec fn view(&self) -> Map<Seq<u8>, T::V> {
        entries_map(self.entries@)
    }
}

impl<T: View> Table<T> {
    /// The entry keys are pairwise distinct.
    pub closed spec fn wf(&self) -> bool {
        keys_distinct(self.entries@)
    }

    /// An empty table.
    pub fn new() -> (t: Self)
        ensures
            t.wf(),
            t@ == Map::<Seq<u8>, T::V>::empty(),
    {
        Table { entries: Vec::new() }
    }

    /// The value held under `key`, if any.
    pub fn get(&self, key: &Vec<u8>) -> (r: Option<&T>)
        requires
            self.wf(),
        ensures
            match r {
                Some(v) => self@.contains_key(key@) && v@ == self@[key@],
                None => !self@.contains_key(key@),
            },
    {
        let n = self.entries.len();
        let mut idx: usize = 0;
        while idx < n
            invariant
                self.wf(),
                n == self.entries.len(),
                idx <= n,
                forall|j: int| 0 <= j < idx ==> self.entries@[j].0@ != key@,
            decreases n - idx,
        {
            if bytes_eq(&self.entries[idx].0, key) {
                proof {
                    lemma_entries_map_index(self.entries@, idx as int);
                }
                return Some(&self.entries[idx].1);
            }
            idx += 1;
        }
        proof {
            lemma_entries_map_contains(self.entries@, key@);
        }
        None
    }

    /// Whether any value is held under `key`.
    pub fn contains(&self, key: &Vec<u8>) -> (r: bool)
        requires
            self.wf(),
        ensures
            r == self@.contains_key(key@),
    {
        self.get(key).is_some()
    }

    /// Add a value under a key not yet in the table.
    pub fn insert(&mut self, key: Vec<u8>, value: T)
        requires
            old(self).wf(),
            !old(self)@.contains_key(key@),
        ensures
            final(self).wf(),
            final(self)@ == old(self)@.insert(key@, value@),
    {
        proof {
            lemma_entries_map_contains(self.entries@, key@);
        }
        let ghost s0 = self.entries@;
        self.entries.push((key, value));
        proof {
            assert(self.entries@.drop_last() =~= s0);
        }
    }

    /// Replace the value under a key already in the table.
    pub fn set(&mut self, key: &Vec<u8>, value: T)
        requires
            old(self).wf(),
            old(self)@.contains_key(key@),
        ensures
            final(self).wf(),
            final(self)@ == old(self)@.insert(key@, value@),
    {
        let n = self.entries.len();
        let mut idx: usize = 0;
        proof {
            lemma_entries_map_contains(self.entries@, key@);
        }
        while idx < n
            invariant
                old(self) == self,
                self.wf(),
                n == self.entries.len(),
                idx <= n,
                forall|j: int| 0 <= j < idx ==> self.entries@[j].0@ != key@,
                exists|i: int| 0 <= i < self.entries@.len() && self.entries@[i].0@ == key@,
            decreases n - idx,
        {
            if bytes_eq(&self.entries[idx].0, key) {
                let k = key.clone();
                proof {
                    assert(k@ =~= key@);
                }
                let ghost s = self.entries@;
                let slot = vstd::std_specs::vec::vec_index_mut(&mut self.entries, idx);
                *slot = (k, value);
                proof {
                    lemma_entries_map_update(s, idx as int, self.entries@[idx as int]);
                }
                return ;
            }
            idx += 1;
        }
        proof {
            let i = choose|i: int|
                0 <= i < self.entries@.len() && self.entries@[i].0@ == key@;
            assert(false);
        }
    }

    /// Take out the value under a key in the table.
    pub fn remove(&mut self, key: &Vec<u8>)
        requires
            old(self).wf(),
            old(self)@.contains_key(key@),
        ensures
            final(self).wf(),
            final(self)@ == old(self)@.remove(key@),
    {
        let n = self.entries.len();
        let mut idx: usize = 0;
        proof {
            lemma_entries_map_contains(self.entries@, key@);
        }
        while idx < n
            invariant
                old(self) == self,
                self.wf(),
                n == self.entries.len(),
                idx <= n,
                forall|j: int| 0 <= j < idx ==> self.entries@[j].0@ != key@,
                exists|i: int| 0 <= i < self.entries@.len() && self.entries@[i].0@ == key@,
            decreases n - idx,
        {
            if bytes_eq(&self.entries[idx].0, key) {
                proof {
                    lemma_entries_map_remove(self.entries@, idx as int);
                }
                self.entries.remove(idx);
                return ;
            }
            idx += 1;
        }
        proof {
            let i = choose|i: int|
                0 <= i < self.entries@.len() && self.entries@[i].0@ == key@;
            assert(false);
        }
    }
}

} // verus!
