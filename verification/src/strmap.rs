//! A small map keyed by strings, kept as a vector of entries with distinct keys.
use vstd::prelude::*;

use crate::text::str_eq;

verus! {

/// The views of the string values of a map.
pub open spec fn values_view(m: Map<Seq<char>, String>) -> Map<Seq<char>, Seq<char>> {
    m.map_values(|v: String| v@)
}

/// Entries keyed by strings; no key occurs twice.
#[derive(Debug)]
pub struct StrMap<V> {
    pub entries: Vec<(String, V)>,
}

impl<V> StrMap<V> {
    /// No key occurs twice.
    pub open spec fn wf(&self) -> bool {
        forall|i: int, j: int|
            0 <= i < self.entries@.len() && 0 <= j < self.entries@.len() && i != j ==> (
            #[trigger] self.entries@[i]).0@ != (#[trigger] self.entries@[j]).0@
    }

    /// Whether some entry has the key `k`.
    pub open spec fn has(&self, k: Seq<char>) -> bool {
        exists|i: int| 0 <= i < self.entries@.len() && (#[trigger] self.entries@[i]).0@ == k
    }

    /// The index of the entry with key `k`.
    pub open spec fn index_of(&self, k: Seq<char>) -> int {
        choose|i: int| 0 <= i < self.entries@.len() && (#[trigger] self.entries@[i]).0@ == k
    }

    /// The entries as a map from key to value.
    pub open spec fn view(&self) -> Map<Seq<char>, V> {
        Map::new(|k: Seq<char>| self.has(k), |k: Seq<char>| self.entries@[self.index_of(k)].1)
    }

    /// The keys, in entry order.
    pub open spec fn key_seq(&self) -> Seq<Seq<char>> {
        self.entries@.map_values(|e: (String, V)| e.0@)
    }

    /// Entry `i` is what the map holds under its key.
    pub proof fn lemma_entry(&self, i: int)
        requires
            self.wf(),
            0 <= i < self.entries@.len(),
        ensures
            self@.contains_key(self.entries@[i].0@),
            self@[self.entries@[i].0@] == self.entries@[i].1,
            self.index_of(self.entries@[i].0@) == i,
    {
        let k = self.entries@[i].0@;
        assert(self.has(k));
        let j = self.index_of(k);
        assert(self.entries@[j].0@ == k);
    }

    /// An empty map.
    pub fn new() -> (m: Self)
        ensures
            m.wf(),
            m@ == Map::<Seq<char>, V>::empty(),
            m.entries@.len() == 0,
    {
        let m = StrMap { entries: Vec::new() };
        assert(m@ =~= Map::<Seq<char>, V>::empty());
        m
    }

    /// The index of the entry with key `key`, if any.
    pub fn find(&self, key: &str) -> (r: Option<usize>)
        requires
            self.wf(),
        ensures
            match r {
                Some(i) => i < self.entries@.len() && self.entries@[i as int].0@ == key@
                    && self.index_of(key@) == i,
                None => !self@.contains_key(key@),
            },
    {
        let mut i: usize = 0;
        while i < self.entries.len()
            invariant
                self.wf(),
                i <= self.entries@.len(),
                forall|j: int| 0 <= j < i ==> (#[trigger] self.entries@[j]).0@ != key@,
            decreases self.entries@.len() - i,
        {
            if str_eq(self.entries[i].0.as_str(), key) {
                proof {
                    self.lemma_entry(i as int);
                }
                return Some(i);
            }
            i = i + 1;
        }
        None
    }

    /// Whether `key` has an entry.
    pub fn contains_key(&self, key: &str) -> (r: bool)
        requires
            self.wf(),
        ensures
            r == self@.contains_key(key@),
    {
        match self.find(key) {
            Some(i) => {
                proof {
                    self.lemma_entry(i as int);
                }
                true
            },
            None => false,
        }
    }

    /// The value under `key`, if any.
    pub fn get(&self, key: &str) -> (r: Option<&V>)
        requires
            self.wf(),
        ensures
            match r {
                Some(v) => self@.contains_key(key@) && self@[key@] == *v,
                None => !self@.contains_key(key@),
            },
    {
        match self.find(key) {
            Some(i) => {
                proof {
                    self.lemma_entry(i as int);
                }
                Some(&self.entries[i].1)
            },
            None => None,
        }
    }

    /// Sets `key` to `value`, replacing any earlier value; a new key is added after the
    /// others, an existing one keeps its place.
    pub fn insert(&mut self, key: String, value: V)
        requires
            old(self).wf(),
        ensures
            final(self).wf(),
            final(self)@ == old(self)@.insert(key@, value),
            final(self).key_seq() == if old(self)@.contains_key(key@) {
                old(self).key_seq()
            } else {
                old(self).key_seq().push(key@)
            },
            !old(self)@.contains_key(key@) ==> final(self).entries@ == old(self).entries@.push(
                (key, value),
            ),
    {
        let ghost k = key@;
        match self.find(key.as_str()) {
            Some(i) => {
                let ghost before = self.entries@;
                self.entries.set(i, (key, value));
                proof {
                    assert forall|a: int, b: int|
                        0 <= a < self.entries@.len() && 0 <= b < self.entries@.len() && a != b
                            implies (#[trigger] self.entries@[a]).0@ != (
                        #[trigger] self.entries@[b]).0@ by {
                        assert(before[a].0@ != before[b].0@);
                    }
                    assert forall|q: Seq<char>| #[trigger]
                        self@.contains_key(q) == old(self)@.insert(k, value).contains_key(q) by {
                        if old(self)@.contains_key(q) {
                            let j = old(self).index_of(q);
                            if j == i {
                                assert(self.entries@[i as int].0@ == q);
                            } else {
                                assert(self.entries@[j].0@ == q);
                            }
                            assert(self.has(q));
                        }
                        if self.has(q) {
                            let j = self.index_of(q);
                            if j != i {
                                assert(before[j].0@ == q);
                                assert(old(self).has(q));
                            }
                        }
                    }
                    assert forall|q: Seq<char>| #[trigger] self@.contains_key(q) implies self@[q]
                        == old(self)@.insert(k, value)[q] by {
                        let j = self.index_of(q);
                        if j == i {
                            assert(q == k);
                        } else {
                            assert(before[j].0@ == q);
                            assert(q != k);
                            old(self).lemma_entry(j);
                            self.lemma_entry(j);
                        }
                    }
                    assert(self@ =~= old(self)@.insert(k, value));
                    assert(self.key_seq() =~= old(self).key_seq());
                }
            },
            None => {
                let ghost before = self.entries@;
                self.entries.push((key, value));
                proof {
                    let n = before.len() as int;
                    assert forall|a: int, b: int|
                        0 <= a < self.entries@.len() && 0 <= b < self.entries@.len() && a != b
                            implies (#[trigger] self.entries@[a]).0@ != (
                        #[trigger] self.entries@[b]).0@ by {
                        if a < n && b < n {
                            assert(before[a].0@ != before[b].0@);
                        } else if a == n {
                            assert(!old(self).has(k));
                            assert(before[b] == self.entries@[b]);
                        } else {
                            assert(!old(self).has(k));
                            assert(before[a] == self.entries@[a]);
                        }
                    }
                    assert forall|q: Seq<char>| #[trigger]
                        self@.contains_key(q) == old(self)@.insert(k, value).contains_key(q) by {
                        if old(self)@.contains_key(q) {
                            let j = old(self).index_of(q);
                            assert(self.entries@[j].0@ == q);
                        }
                        if q == k {
                            assert(self.entries@[n].0@ == q);
                        }
                        if self.has(q) {
                            let j = self.index_of(q);
                            if j < n {
                                assert(before[j].0@ == q);
                                assert(old(self).has(q));
                            }
                        }
                    }
                    assert forall|q: Seq<char>| #[trigger] self@.contains_key(q) implies self@[q]
                        == old(self)@.insert(k, value)[q] by {
                        let j = self.index_of(q);
                        if j == n {
                            assert(q == k);
                        } else {
                            assert(before[j].0@ == q);
                            assert(q != k);
                            old(self).lemma_entry(j);
                            self.lemma_entry(j);
                        }
                    }
                    assert(self@ =~= old(self)@.insert(k, value));
                    assert(self.key_seq() =~= old(self).key_seq().push(k));
                }
            },
        }
    }

    /// The keys are distinct and are exactly the keys of the map.
    pub proof fn lemma_keys(&self)
        requires
            self.wf(),
        ensures
            self.key_seq().no_duplicates(),
            self.key_seq().to_set() == self@.dom(),
            self.key_seq().len() == self.entries@.len(),
            self@.dom().finite(),
            self@.len() == self.entries@.len(),
    {
        let keys = self.key_seq();
        assert forall|i: int, j: int| 0 <= i < keys.len() && 0 <= j < keys.len() && i != j
            implies keys[i] != keys[j] by {
            assert(self.entries@[i].0@ != self.entries@[j].0@);
        }
        assert(self@.dom() =~= keys.to_set()) by {
            assert forall|k: Seq<char>| self@.dom().contains(k) implies keys.to_set().contains(k) by {
                let i = self.index_of(k);
                assert(keys[i] == k);
            }
            assert forall|k: Seq<char>| keys.to_set().contains(k) implies self@.dom().contains(k) by {
                let i = choose|i: int| 0 <= i < keys.len() && keys[i] == k;
                assert(self.has(k) && self.entries@[i].0@ == k);
            }
        }
        keys.unique_seq_to_set();
    }

    /// The keys, in entry order.
    pub fn keys(&self) -> (r: Vec<String>)
        ensures
            r.deep_view() == self.key_seq(),
    {
        let mut out: Vec<String> = Vec::new();
        let mut i: usize = 0;
        while i < self.entries.len()
            invariant
                i <= self.entries@.len(),
                out@.len() == i,
                out.deep_view() == self.key_seq().take(i as int),
            decreases self.entries@.len() - i,
        {
            let k = self.entries[i].0.clone();
            let ghost prev = out.deep_view();
            out.push(k);
            proof {
                assert forall|q: int| 0 <= q <= i implies #[trigger] out.deep_view()[q]
                    == self.key_seq().take(i + 1)[q] by {
                    if q < i {
                        assert(out.deep_view()[q] == out@[q]@);
                        assert(prev[q] == out@[q]@);
                    }
                }
                assert(out.deep_view() =~= self.key_seq().take(i + 1));
            }
            i = i + 1;
        }
        proof {
            assert(self.key_seq().take(i as int) =~= self.key_seq());
        }
        out
    }

    /// The number of entries.
    pub fn len(&self) -> (n: usize)
        ensures
            n == self.entries@.len(),
    {
        self.entries.len()
    }
}


impl StrMap<String> {
    /// An entry-by-entry copy.
    pub fn copy(&self) -> (r: StrMap<String>)
        ensures
            r.entries@.len() == self.entries@.len(),
            forall|i: int|
                0 <= i < self.entries@.len() ==> (#[trigger] r.entries@[i]).0@ == self.entries@[i].0@
                    && r.entries@[i].1@ == self.entries@[i].1@,
            self.wf() ==> r.wf(),
            self.wf() ==> values_view(r@) == values_view(self@),
    {
        let mut out: Vec<(String, String)> = Vec::new();
        let mut i: usize = 0;
        while i < self.entries.len()
            invariant
                i <= self.entries@.len(),
                out@.len() == i,
                forall|j: int|
                    0 <= j < i ==> (#[trigger] out@[j]).0@ == self.entries@[j].0@ && out@[j].1@
                        == self.entries@[j].1@,
            decreases self.entries@.len() - i,
        {
            let k = self.entries[i].0.clone();
            let v = self.entries[i].1.clone();
            out.push((k, v));
            i = i + 1;
        }
        let r = StrMap { entries: out };
        proof {
            if self.wf() {
                assert forall|a: int, b: int|
                    0 <= a < r.entries@.len() && 0 <= b < r.entries@.len() && a != b implies (
                    #[trigger] r.entries@[a]).0@ != (#[trigger] r.entries@[b]).0@ by {
                    assert(self.entries@[a].0@ != self.entries@[b].0@);
                }
                assert forall|k: Seq<char>| #[trigger] r@.contains_key(k) == self@.contains_key(k) by {
                    if r.has(k) {
                        let j = r.index_of(k);
                        assert(self.entries@[j].0@ == k);
                    }
                    if self.has(k) {
                        let j = self.index_of(k);
                        assert(r.entries@[j].0@ == k);
                    }
                }
                assert forall|k: Seq<char>| #[trigger] r@.contains_key(k) implies values_view(r@)[k]
                    == values_view(self@)[k] by {
                    let j = r.index_of(k);
                    r.lemma_entry(j);
                    assert(self.entries@[j].0@ == k);
                    self.lemma_entry(j);
                }
                assert(values_view(r@) =~= values_view(self@));
            }
        }
        r
    }
}

} // verus!
