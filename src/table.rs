//! A small table keyed by strings: the entries of a vector with pairwise
//! distinct keys, seen as a map from key text to value.
use vstd::prelude::*;

verus! {

/// The map that a sequence of entries stands for; a later entry wins.
pub open spec fn map_of<V>(s: Seq<(String, V)>) -> Map<Seq<char>, V>
    decreases s.len(),
{
    if s.len() == 0 {
        Map::empty()
    } else {
        map_of(s.drop_last()).insert(s.last().0@, s.last().1)
    }
}

/// No two entries share a key.
pub open spec fn keys_unique<V>(s: Seq<(String, V)>) -> bool {
    forall|i: int, j: int| 0 <= i < j < s.len() ==> #[trigger] s[i].0@ != #[trigger] s[j].0@
}

/// A key is in the map exactly when some entry has it.
proof fn lemma_map_of_contains<V>(s: Seq<(String, V)>, k: Seq<char>)
    ensures
        map_of(s).contains_key(k) <==> exists|i: int| 0 <= i < s.len() && #[trigger] s[i].0@ == k,
    decreases s.len(),
{
    if s.len() > 0 {
        let p = s.drop_last();
        lemma_map_of_contains(p, k);
        if map_of(p).contains_key(k) {
            let i = choose|i: int| 0 <= i < p.len() && #[trigger] p[i].0@ == k;
            assert(s[i].0@ == k);
        }
        if exists|i: int| 0 <= i < s.len() && #[trigger] s[i].0@ == k {
            let i = choose|i: int| 0 <= i < s.len() && #[trigger] s[i].0@ == k;
            if i < s.len() - 1 {
                assert(p[i].0@ == k);
            }
        }
    }
}

/// With distinct keys, each entry's value is the map's value at its key.
proof fn lemma_map_of_at<V>(s: Seq<(String, V)>, i: int)
    requires
        keys_unique(s),
        0 <= i < s.len(),
    ensures
        map_of(s).contains_key(s[i].0@),
        map_of(s)[s[i].0@] == s[i].1,
    decreases s.len(),
{
    let p = s.drop_last();
    if i < s.len() - 1 {
        assert(p[i] == s[i]);
        lemma_map_of_at(p, i);
    }
}

/// With distinct keys, changing one entry's value changes the map there
/// only.
proof fn lemma_map_of_update<V>(s: Seq<(String, V)>, i: int, v: V)
    requires
        keys_unique(s),
        0 <= i < s.len(),
    ensures
        map_of(s.update(i, (s[i].0, v))) == map_of(s).insert(s[i].0@, v),
    decreases s.len(),
{
    let p = s.drop_last();
    let t = s.update(i, (s[i].0, v));
    if i == s.len() - 1 {
        assert(t.drop_last() =~= p);
        assert(map_of(t) =~= map_of(s).insert(s[i].0@, v));
    } else {
        assert(t.drop_last() =~= p.update(i, (s[i].0, v)));
        assert(p[i] == s[i]);
        lemma_map_of_update(p, i, v);
        assert(s[i].0@ != s.last().0@);
        assert(map_of(t) =~= map_of(s).insert(s[i].0@, v));
    }
}

/// With distinct keys, dropping one entry drops its key from the map.
proof fn lemma_map_of_remove<V>(s: Seq<(String, V)>, i: int)
    requires
        keys_unique(s),
        0 <= i < s.len(),
    ensures
        map_of(s.remove(i)) == map_of(s).remove(s[i].0@),
        keys_unique(s.remove(i)),
    decreases s.len(),
{
    let p = s.drop_last();
    let t = s.remove(i);
    if i == s.len() - 1 {
        assert(t =~= p);
        lemma_map_of_contains(p, s[i].0@);
        if map_of(p).contains_key(s[i].0@) {
            let j = choose|j: int| 0 <= j < p.len() && #[trigger] p[j].0@ == s[i].0@;
            assert(s[j].0@ == s[i].0@);
        }
        assert(map_of(t) =~= map_of(s).remove(s[i].0@));
    } else {
        assert(t.drop_last() =~= p.remove(i));
        assert(t.last() == s.last());
        assert(p[i] == s[i]);
        lemma_map_of_remove(p, i);
        assert(s[i].0@ != s.last().0@);
        assert(map_of(t) =~= map_of(s).remove(s[i].0@));
    }
    assert forall|a: int, b: int| 0 <= a < b < t.len() implies #[trigger] t[a].0@ != #[trigger] t[b].0@ by {
        let a2 = if a < i { a } else { a + 1 };
        let b2 = if b < i { b } else { b + 1 };
        assert(t[a] == s[a2]);
        assert(t[b] == s[b2]);
    }
}

/// Entries keyed by text, each key at most once.
pub struct Table<V> {
    entries: Vec<(String, V)>,
}

impl<V> Table<V> {
    /// The entries, in the order they were added.
    pub closed spec fn entries(&self) -> Seq<(String, V)> {
        self.entries@
    }

    /// The map from key text to value.
    pub closed spec fn view(&self) -> Map<Seq<char>, V> {
        map_of(self.entries@)
    }

    pub closed spec fn wf(&self) -> bool {
        keys_unique(self.entries@)
    }

    pub fn new() -> (r: Self)
        ensures
            r.wf(),
            r@ == Map::<Seq<char>, V>::empty(),
    {
        Table { entries: Vec::new() }
    }

    pub fn len(&self) -> (r: usize)
        requires
            self.wf(),
        ensures
            r == self@.len(),
            r == self.entries().len(),
    {
        proof {
            lemma_map_len(self.entries@);
        }
        self.entries.len()
    }

    /// The position of the entry with key `k`, if there is one.
    pub fn find(&self, k: &String) -> (r: Option<usize>)
        requires
            self.wf(),
        ensures
            r is None <==> !self@.contains_key(k@),
            r matches Some(i) ==> i < self.entries().len() && self.entries()[i as int].0@ == k@
                && self@[k@] == self.entries()[i as int].1,
    {
        let mut i: usize = 0;
        while i < self.entries.len()
            invariant
                i <= self.entries@.len(),
                keys_unique(self.entries@),
                forall|j: int| 0 <= j < i ==> #[trigger] self.entries@[j].0@ != k@,
            decreases self.entries@.len() - i,
        {
            if self.entries[i].0 == *k {
                proof {
                    lemma_map_of_at(self.entries@, i as int);
                }
                return Some(i);
            }
            i = i + 1;
        }
        proof {
            lemma_map_of_contains(self.entries@, k@);
        }
        None
    }

    /// The value under key `k`, if there is one.
    pub fn get(&self, k: &String) -> (r: Option<&V>)
        requires
            self.wf(),
        ensures
            r is None <==> !self@.contains_key(k@),
            r matches Some(v) ==> *v == self@[k@],
    {
        match self.find(k) {
            Some(i) => Some(&self.entries[i].1),
            None => None,
        }
    }

    /// Adds `v` under `k`, which the table does not hold yet.
    pub fn push_new(&mut self, k: String, v: V)
        requires
            old(self).wf(),
            !old(self)@.contains_key(k@),
        ensures
            final(self).wf(),
            final(self)@ == old(self)@.insert(k@, v),
    {
        proof {
            lemma_map_of_contains(self.entries@, k@);
        }
        self.entries.push((k, v));
        proof {
            let s = self.entries@;
            assert(s.drop_last() =~= old(self).entries@);
            assert forall|a: int, b: int| 0 <= a < b < s.len() implies #[trigger] s[a].0@
                != #[trigger] s[b].0@ by {
                if b == s.len() - 1 {
                    assert(old(self).entries@[a] == s[a]);
                }
            }
        }
    }

    /// Puts `v` under `k`, replacing any value that was there.
    pub fn set(&mut self, k: String, v: V)
        requires
            old(self).wf(),
        ensures
            final(self).wf(),
            final(self)@ == old(self)@.insert(k@, v),
    {
        match self.find(&k) {
            Some(i) => {
                proof {
                    lemma_map_of_update(self.entries@, i as int, v);
                }
                let ghost s = self.entries@;
                self.entries.set(i, (k, v));
                proof {
                    assert forall|a: int, b: int| 0 <= a < b < self.entries@.len() implies
                        #[trigger] self.entries@[a].0@ != #[trigger] self.entries@[b].0@ by {
                        assert(self.entries@[a].0@ == s[a].0@);
                        assert(self.entries@[b].0@ == s[b].0@);
                    }
                    assert(map_of(self.entries@) == map_of(s.update(i as int, (s[i as int].0, v)))) by {
                        assert(self.entries@[i as int].0@ == s[i as int].0@);
                        lemma_map_of_update(s, i as int, v);
                        lemma_same_keys_same_map(self.entries@, s.update(i as int, (s[i as int].0, v)));
                    }
                }
            },
            None => {
                self.push_new(k, v);
            },
        }
    }

    /// Removes the entry under `k`; tells whether there was one.
    pub fn remove(&mut self, k: &String) -> (r: bool)
        requires
            old(self).wf(),
        ensures
            final(self).wf(),
            r == old(self)@.contains_key(k@),
            final(self)@ == old(self)@.remove(k@),
    {
        match self.find(k) {
            Some(i) => {
                proof {
                    lemma_map_of_remove(self.entries@, i as int);
                }
                self.entries.remove(i);
                true
            },
            None => {
                assert(old(self)@.remove(k@) =~= old(self)@);
                false
            },
        }
    }

    /// The entry at position `i`, for changing its value in place.
    pub fn value_mut(&mut self, i: usize) -> (r: &mut V)
        requires
            old(self).wf(),
            i < old(self).entries().len(),
        ensures
            *r == old(self).entries()[i as int].1,
            final(self).entries() == old(self).entries().update(
                i as int,
                (old(self).entries()[i as int].0, *final(r)),
            ),
    {
        &mut self.entries[i].1
    }
}

impl<V> Table<V> {
    /// What a change made through `value_mut` does to the table's map.
    pub proof fn lemma_value_changed(old_t: &Table<V>, new_t: &Table<V>, i: int, v: V)
        requires
            old_t.wf(),
            0 <= i < old_t.entries().len(),
            new_t.entries() == old_t.entries().update(i, (old_t.entries()[i].0, v)),
        ensures
            new_t.wf(),
            new_t@ == old_t@.insert(old_t.entries()[i].0@, v),
    {
        lemma_map_of_update(old_t.entries@, i, v);
        assert forall|a: int, b: int| 0 <= a < b < new_t.entries@.len() implies
            #[trigger] new_t.entries@[a].0@ != #[trigger] new_t.entries@[b].0@ by {
            assert(new_t.entries@[a].0@ == old_t.entries@[a].0@);
            assert(new_t.entries@[b].0@ == old_t.entries@[b].0@);
        }
    }

    /// The key text of the entry at position `i`.
    pub proof fn lemma_entry_key(&self, i: int)
        requires
            self.wf(),
            0 <= i < self.entries().len(),
        ensures
            self@.contains_key(self.entries()[i].0@),
            self@[self.entries()[i].0@] == self.entries()[i].1,
    {
        lemma_map_of_at(self.entries@, i);
    }
}

/// A table's map is that of its entries whatever the key strings are, as
/// long as their texts agree.
proof fn lemma_same_keys_same_map<V>(s: Seq<(String, V)>, t: Seq<(String, V)>)
    requires
        s.len() == t.len(),
        forall|i: int| 0 <= i < s.len() ==> #[trigger] s[i].0@ == t[i].0@ && s[i].1 == t[i].1,
    ensures
        map_of(s) == map_of(t),
    decreases s.len(),
{
    if s.len() > 0 {
        lemma_same_keys_same_map(s.drop_last(), t.drop_last());
    }
}

/// With distinct keys the map has one key per entry.
proof fn lemma_map_len<V>(s: Seq<(String, V)>)
    requires
        keys_unique(s),
    ensures
        map_of(s).dom().finite(),
        map_of(s).len() == s.len(),
    decreases s.len(),
{
    if s.len() > 0 {
        let p = s.drop_last();
        assert(keys_unique(p)) by {
            assert forall|a: int, b: int| 0 <= a < b < p.len() implies #[trigger] p[a].0@
                != #[trigger] p[b].0@ by {
                assert(p[a] == s[a]);
                assert(p[b] == s[b]);
            }
        }
        lemma_map_len(p);
        lemma_map_of_contains(p, s.last().0@);
        if map_of(p).contains_key(s.last().0@) {
            let j = choose|j: int| 0 <= j < p.len() && #[trigger] p[j].0@ == s.last().0@;
            assert(s[j].0@ == s[s.len() - 1].0@);
        }
    }
}

} // verus!
