//! A table of values under 256-bit keys.

use crate::hash::H256;
use vstd::prelude::*;

verus! {

/// A finite map from hashes to values. No key occurs twice among the entries.
pub struct Table<V> {
    entries: Vec<(H256, V)>,
}

impl<V: View> Table<V> {
    /// No two entries have the same key.
    pub closed spec fn wf(&self) -> bool {
        forall|i: int, j: int|
            0 <= i < j < self.entries@.len() ==> self.entries@[i].0 != self.entries@[j].0
    }

    spec fn holds(&self, key: H256) -> bool {
        exists|i: int| 0 <= i < self.entries@.len() && #[trigger] self.entries@[i].0 == key
    }

    spec fn place(&self, key: H256) -> int {
        choose|i: int| 0 <= i < self.entries@.len() && #[trigger] self.entries@[i].0 == key
    }
}

impl<V: View> View for Table<V> {
    type V = Map<H256, V::V>;

    closed spec fn view(&self) -> Map<H256, V::V> {
        Map::new(|key: H256| self.holds(key), |key: H256| self.entries@[self.place(key)].1@)
    }
}

impl<V: View> Table<V> {
    /// A table without entries.
    pub fn new() -> (table: Self)
        ensures
            table.wf(),
            table@ == Map::<H256, V::V>::empty(),
    {
        let table = Table { entries: Vec::new() };
        assert(table@ =~= Map::<H256, V::V>::empty());
        table
    }

    /// Where the entry of `key` stands, or the number of entries where there is none.
    fn find(&self, key: &H256) -> (place: usize)
        requires
            self.wf(),
        ensures
            place <= self.entries@.len(),
            place < self.entries@.len() ==> {
                &&& self.entries@[place as int].0 == *key
                &&& self@.contains_key(*key)
                &&& self@[*key] == self.entries@[place as int].1@
            },
            place == self.entries@.len() ==> {
                &&& !self@.contains_key(*key)
                &&& forall|j: int| 0 <= j < self.entries@.len() ==> self.entries@[j].0 != *key
            },
    {
        let mut i: usize = 0;
        while i < self.entries.len()
            invariant
                self.wf(),
                i <= self.entries@.len(),
                forall|j: int| 0 <= j < i ==> self.entries@[j].0 != *key,
            decreases self.entries@.len() - i,
        {
            if self.entries[i].0 == *key {
                assert(self.entries@[i as int].0 == *key);
                assert(self.place(*key) == i);
                return i;
            }
            i += 1;
        }
        i
    }

    /// The value under `key`.
    pub fn get(&self, key: &H256) -> (value: Option<&V>)
        requires
            self.wf(),
        ensures
            match value {
                Some(v) => self@.contains_key(*key) && v@ == self@[*key],
                None => !self@.contains_key(*key),
            },
    {
        let i = self.find(key);
        if i < self.entries.len() {
            Some(&self.entries[i].1)
        } else {
            None
        }
    }

    /// Puts `value` under `key` and gives back what was there.
    pub fn put(&mut self, key: H256, value: V) -> (previous: Option<V>)
        requires
            old(self).wf(),
        ensures
            final(self).wf(),
            final(self)@ == old(self)@.insert(key, value@),
            match previous {
                Some(v) => old(self)@.contains_key(key) && v@ == old(self)@[key],
                None => !old(self)@.contains_key(key),
            },
    {
        let i = self.find(&key);
        if i < self.entries.len() {
            let mut item = value;
            std::mem::swap(&mut self.entries[i].1, &mut item);
            proof {
                let next = old(self)@.insert(key, value@);
                assert forall|k: H256| next.contains_key(k) implies self.holds(k) by {
                    if k == key {
                        assert(self.entries@[i as int].0 == k);
                    } else {
                        let p = old(self).place(k);
                        assert(self.entries@[p].0 == k);
                    }
                }
                assert forall|k: H256| self.holds(k) implies next.contains_key(k) && self@[k]
                    == next[k] by {
                    let p = self.place(k);
                    assert(old(self).entries@[p].0 == k);
                    assert(old(self).place(k) == p);
                }
                assert(self@ =~= next);
            }
            Some(item)
        } else {
            self.entries.push((key, value));
            proof {
                let next = old(self)@.insert(key, value@);
                assert forall|k: H256| next.contains_key(k) implies self.holds(k) by {
                    if k == key {
                        assert(self.entries@[i as int].0 == k);
                    } else {
                        let p = old(self).place(k);
                        assert(self.entries@[p].0 == k);
                    }
                }
                assert forall|k: H256| self.holds(k) implies next.contains_key(k) && self@[k]
                    == next[k] by {
                    let p = self.place(k);
                    if p < i {
                        assert(old(self).entries@[p].0 == k);
                        assert(old(self).place(k) == p);
                    }
                }
                assert(self@ =~= next);
            }
            None
        }
    }

    /// Takes the entry of `key` out.
    pub fn remove(&mut self, key: &H256) -> (previous: Option<V>)
        requires
            old(self).wf(),
        ensures
            final(self).wf(),
            final(self)@ == old(self)@.remove(*key),
            match previous {
                Some(v) => old(self)@.contains_key(*key) && v@ == old(self)@[*key],
                None => !old(self)@.contains_key(*key),
            },
    {
        let i = self.find(key);
        if i < self.entries.len() {
            let (_, item) = self.entries.remove(i);
            proof {
                let before = old(self).entries@;
                let next = old(self)@.remove(*key);
                assert forall|k: H256| next.contains_key(k) implies self.holds(k) by {
                    let p = old(self).place(k);
                    let q = if p < i { p } else { p - 1 };
                    assert(self.entries@[q] == before[p]);
                    assert(self.entries@[q].0 == k);
                }
                assert forall|k: H256| self.holds(k) implies next.contains_key(k) && self@[k]
                    == next[k] by {
                    let q = self.place(k);
                    let p = if q < i { q } else { q + 1 };
                    assert(self.entries@[q] == before[p]);
                    assert(before[p].0 == k);
                    assert(before[i as int].0 == *key);
                    assert(old(self).place(k) == p);
                }
                assert(self@ =~= next);
            }
            Some(item)
        } else {
            assert(old(self)@.remove(*key) =~= old(self)@);
            None
        }
    }
}

} // verus!
