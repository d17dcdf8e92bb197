//! Tables of flows.

use vstd::prelude::*;

use crate::packet::ConnKey;

verus! {

/// A table that holds at most one value for each key.
pub struct ConnTable<V> {
    entries: Vec<(ConnKey, V)>,
}

/// The keys of a sequence of entries.
spec fn keys<V>(s: Seq<(ConnKey, V)>) -> Seq<ConnKey> {
    s.map_values(|e: (ConnKey, V)| e.0)
}

/// The map that a sequence of entries with distinct keys stands for.
spec fn map_of<V>(s: Seq<(ConnKey, V)>) -> Map<ConnKey, V> {
    Map::new(
        |k: ConnKey| keys(s).contains(k),
        |k: ConnKey| s[choose|i: int| 0 <= i < s.len() && (#[trigger] s[i]).0 == k].1,
    )
}

proof fn lemma_map_of<V>(s: Seq<(ConnKey, V)>)
    requires
        keys(s).no_duplicates(),
    ensures
        map_of(s).dom() == keys(s).to_set(),
        map_of(s).dom().finite(),
        map_of(s).len() == s.len(),
        forall|i: int|
            0 <= i < s.len() ==> map_of(s).contains_key((#[trigger] s[i]).0) && map_of(s)[s[i].0]
                == s[i].1,
        forall|k: ConnKey|
            #[trigger] map_of(s).contains_key(k) ==> exists|i: int|
                0 <= i < s.len() && (#[trigger] s[i]).0 == k,
{
    let m = map_of(s);
    assert(m.dom() =~= keys(s).to_set());
    keys(s).unique_seq_to_set();
    assert forall|i: int| 0 <= i < s.len() implies m.contains_key((#[trigger] s[i]).0) && m[s[i].0]
        == s[i].1 by {
        assert(keys(s)[i] == s[i].0);
        let j = choose|j: int| 0 <= j < s.len() && (#[trigger] s[j]).0 == s[i].0;
        assert(keys(s)[j] == s[j].0);
    }
    assert forall|k: ConnKey| #[trigger] m.contains_key(k) implies exists|i: int|
        0 <= i < s.len() && (#[trigger] s[i]).0 == k by {
        let i = choose|i: int| 0 <= i < keys(s).len() && keys(s)[i] == k;
        assert(s[i].0 == k);
    }
}

impl<V> View for ConnTable<V> {
    type V = Map<ConnKey, V>;

    closed spec fn view(&self) -> Map<ConnKey, V> {
        map_of(self.entries@)
    }
}

impl<V> ConnTable<V> {
    /// Whether no key occurs twice.
    pub closed spec fn wf(&self) -> bool {
        keys(self.entries@).no_duplicates()
    }

    /// A table without entries.
    pub fn new() -> (r: Self)
        ensures
            r.wf(),
            r@ == Map::<ConnKey, V>::empty(),
    {
        let r = ConnTable { entries: Vec::new() };
        proof {
            lemma_map_of(r.entries@);
            assert(r@ =~= Map::<ConnKey, V>::empty());
        }
        r
    }

    /// The number of entries.
    pub fn len(&self) -> (r: usize)
        requires
            self.wf(),
        ensures
            self@.dom().finite(),
            r == self@.len(),
    {
        proof {
            lemma_map_of(self.entries@);
        }
        self.entries.len()
    }

    /// Where the entry of a key stands.
    fn find(&self, key: &ConnKey) -> (r: Option<usize>)
        requires
            self.wf(),
        ensures
            match r {
                Some(i) => i < self.entries@.len() && self.entries@[i as int].0 == *key
                    && self@.contains_key(*key) && self@[*key] == self.entries@[i as int].1,
                None => !self@.contains_key(*key),
            },
    {
        proof {
            lemma_map_of(self.entries@);
        }
        let mut i: usize = 0;
        while i < self.entries.len()
            invariant
                i <= self.entries@.len(),
                forall|k: int| 0 <= k < i ==> (#[trigger] self.entries@[k]).0 != *key,
                forall|k: int|
                    0 <= k < self.entries@.len() ==> self@.contains_key(
                        (#[trigger] self.entries@[k]).0,
                    ) && self@[self.entries@[k].0] == self.entries@[k].1,
            decreases self.entries.len() - i,
        {
            if self.entries[i].0 == *key {
                return Some(i);
            }
            i = i + 1;
        }
        None
    }

    /// The value of a key.
    pub fn get(&self, key: &ConnKey) -> (r: Option<&V>)
        requires
            self.wf(),
        ensures
            match r {
                Some(v) => self@.contains_key(*key) && *v == self@[*key],
                None => !self@.contains_key(*key),
            },
    {
        match self.find(key) {
            Some(i) => Some(&self.entries[i].1),
            None => None,
        }
    }

    /// Whether a key has a value.
    pub fn contains(&self, key: &ConnKey) -> (r: bool)
        requires
            self.wf(),
        ensures
            r == self@.contains_key(*key),
    {
        self.find(key).is_some()
    }

    /// The value of a key, to be changed in place.
    pub fn get_mut(&mut self, key: &ConnKey) -> (r: Option<&mut V>)
        requires
            old(self).wf(),
        ensures
            match r {
                Some(v) => {
                    &&& old(self)@.contains_key(*key)
                    &&& *v == old(self)@[*key]
                    &&& final(self).wf()
                    &&& final(self)@ == old(self)@.insert(*key, *final(v))
                },
                None => !old(self)@.contains_key(*key) && *final(self) == *old(self),
            },
    {
        match self.find(key) {
            Some(i) => {
                proof {
                    lemma_replaced(self.entries@, i as int);
                }
                Some(&mut self.entries[i].1)
            },
            None => None,
        }
    }

    /// The key at a place in the order in which the entries are walked.
    pub closed spec fn key_at(&self, i: int) -> ConnKey {
        self.entries@[i].0
    }

    /// The entry at a place in the order in which the entries are walked.
    pub fn entry_at(&self, i: usize) -> (r: (ConnKey, &V))
        requires
            self.wf(),
            i < self@.len(),
        ensures
            r.0 == self.key_at(i as int),
            self@.contains_key(r.0),
            *r.1 == self@[r.0],
    {
        proof {
            lemma_map_of(self.entries@);
        }
        (self.entries[i].0, &self.entries[i].1)
    }

    /// Walking the entries meets every key.
    pub proof fn lemma_walk(&self)
        requires
            self.wf(),
        ensures
            forall|k: ConnKey| #[trigger]
                self@.contains_key(k) ==> exists|i: int|
                    0 <= i < self@.len() && #[trigger] self.key_at(i) == k,
    {
        lemma_map_of(self.entries@);
        assert forall|k: ConnKey| #[trigger] self@.contains_key(k) implies exists|i: int|
            0 <= i < self@.len() && #[trigger] self.key_at(i) == k by {
            let i = choose|i: int|
                0 <= i < self.entries@.len() && (#[trigger] self.entries@[i]).0 == k;
            assert(self.key_at(i) == k);
        }
    }

    /// Takes a key and its value out.
    pub fn remove(&mut self, key: &ConnKey) -> (r: Option<V>)
        requires
            old(self).wf(),
        ensures
            final(self).wf(),
            final(self)@ == old(self)@.remove(*key),
            r == (if old(self)@.contains_key(*key) {
                Some(old(self)@[*key])
            } else {
                None
            }),
    {
        match self.find(key) {
            Some(i) => {
                let ghost before = self.entries@;
                let entry = self.entries.remove(i);
                proof {
                    let after = self.entries@;
                    assert(after == before.remove(i as int));
                    assert forall|a: int, b: int|
                        0 <= a < after.len() && 0 <= b < after.len() && a != b implies keys(
                        after,
                    )[a] != keys(after)[b] by {
                        let x = if a < i { a } else { a + 1 };
                        let y = if b < i { b } else { b + 1 };
                        assert(keys(before)[x] == keys(after)[a]);
                        assert(keys(before)[y] == keys(after)[b]);
                    }
                    lemma_map_of(before);
                    lemma_map_of(after);
                    lemma_removed(before, i as int);
                }
                Some(entry.1)
            },
            None => {
                assert(self@ =~= old(self)@.remove(*key));
                None
            },
        }
    }

    /// Gives a key a value, in place of the one it had.
    pub fn insert(&mut self, key: ConnKey, value: V)
        requires
            old(self).wf(),
        ensures
            final(self).wf(),
            final(self)@ == old(self)@.insert(key, value),
    {
        self.remove(&key);
        let ghost before = self.entries@;
        self.entries.push((key, value));
        proof {
            lemma_map_of(before);
            lemma_pushed(before, key, value);
            assert(map_of(self.entries@) =~= map_of(before).insert(key, value));
            assert(self@ =~= old(self)@.insert(key, value));
        }
    }
}

proof fn lemma_replaced<V>(s: Seq<(ConnKey, V)>, i: int)
    requires
        keys(s).no_duplicates(),
        0 <= i < s.len(),
    ensures
        forall|v: V|
            #![trigger s.update(i, (s[i].0, v))]
            keys(s.update(i, (s[i].0, v))).no_duplicates() && map_of(s.update(i, (s[i].0, v)))
                == map_of(s).insert(s[i].0, v),
{
    assert forall|v: V|
        #![trigger s.update(i, (s[i].0, v))]
        keys(s.update(i, (s[i].0, v))).no_duplicates() && map_of(s.update(i, (s[i].0, v)))
            == map_of(s).insert(s[i].0, v) by {
        let t = s.update(i, (s[i].0, v));
        assert(keys(t) =~= keys(s));
        lemma_map_of(s);
        lemma_map_of(t);
        let m = map_of(t);
        let n = map_of(s).insert(s[i].0, v);
        assert(m.dom() =~= n.dom());
        assert forall|k: ConnKey| m.contains_key(k) implies m[k] == n[k] by {
            let j = choose|j: int| 0 <= j < t.len() && (#[trigger] t[j]).0 == k;
            assert(s[j].0 == t[j].0);
            assert(keys(s)[j] == s[j].0 && keys(s)[i] == s[i].0);
        }
        assert(m =~= n);
    }
}

proof fn lemma_removed<V>(s: Seq<(ConnKey, V)>, i: int)
    requires
        keys(s).no_duplicates(),
        keys(s.remove(i)).no_duplicates(),
        0 <= i < s.len(),
    ensures
        map_of(s.remove(i)) == map_of(s).remove(s[i].0),
{
    let t = s.remove(i);
    lemma_map_of(s);
    lemma_map_of(t);
    let a = map_of(t);
    let b = map_of(s).remove(s[i].0);
    assert forall|k: ConnKey| a.contains_key(k) == b.contains_key(k) by {
        if a.contains_key(k) {
            let j = choose|j: int| 0 <= j < t.len() && (#[trigger] t[j]).0 == k;
            let x = if j < i { j } else { j + 1 };
            assert(s[x] == t[j]);
            assert(keys(s)[x] != keys(s)[i]);
        }
        if b.contains_key(k) {
            let x = choose|x: int| 0 <= x < s.len() && (#[trigger] s[x]).0 == k;
            let j = if x < i { x } else { x - 1 };
            assert(t[j] == s[x]);
        }
    }
    assert forall|k: ConnKey| a.contains_key(k) implies a[k] == b[k] by {
        let j = choose|j: int| 0 <= j < t.len() && (#[trigger] t[j]).0 == k;
        let x = if j < i { j } else { j + 1 };
        assert(s[x] == t[j]);
    }
    assert(a =~= b);
}

proof fn lemma_pushed<V>(s: Seq<(ConnKey, V)>, key: ConnKey, value: V)
    requires
        keys(s).no_duplicates(),
        !map_of(s).contains_key(key),
    ensures
        keys(s.push((key, value))).no_duplicates(),
        map_of(s.push((key, value))) == map_of(s).insert(key, value),
{
    let t = s.push((key, value));
    lemma_map_of(s);
    assert forall|a: int, b: int| 0 <= a < t.len() && 0 <= b < t.len() && a != b implies keys(t)[a]
        != keys(t)[b] by {
        if a < s.len() {
            assert(keys(s)[a] == keys(t)[a] && s[a].0 == keys(t)[a]);
        }
        if b < s.len() {
            assert(keys(s)[b] == keys(t)[b] && s[b].0 == keys(t)[b]);
        }
    }
    lemma_map_of(t);
    let m = map_of(t);
    let n = map_of(s).insert(key, value);
    assert forall|k: ConnKey| m.contains_key(k) == n.contains_key(k) by {
        if m.contains_key(k) {
            let j = choose|j: int| 0 <= j < t.len() && (#[trigger] t[j]).0 == k;
            if j < s.len() {
                assert(s[j] == t[j]);
            }
        }
        if n.contains_key(k) {
            if k == key {
                assert(t[s.len() as int].0 == k);
            } else {
                let j = choose|j: int| 0 <= j < s.len() && (#[trigger] s[j]).0 == k;
                assert(t[j] == s[j]);
            }
        }
    }
    assert forall|k: ConnKey| m.contains_key(k) implies m[k] == n[k] by {
        let j = choose|j: int| 0 <= j < t.len() && (#[trigger] t[j]).0 == k;
        if j < s.len() {
            assert(s[j] == t[j]);
            assert(s[j].0 != key);
        }
    }
    assert(m =~= n);
}

} // verus!
