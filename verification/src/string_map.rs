//! A map from texts to values.

use vstd::prelude::*;

verus! {

/// Entries of which no two have the same key.
pub struct StringMap<V> {
    entries: Vec<(String, V)>,
}

impl<V> View for StringMap<V> {
    type V = Map<Seq<char>, V>;

    closed spec fn view(&self) -> Map<Seq<char>, V> {
        entries_map(self.entries@)
    }
}

/// Whether some entry has the key.
pub open spec fn has_key<V>(entries: Seq<(String, V)>, key: Seq<char>) -> bool {
    exists|i: int| 0 <= i < entries.len() && (#[trigger] entries[i]).0@ == key
}

/// A place at which the key stands.
pub open spec fn place<V>(entries: Seq<(String, V)>, key: Seq<char>) -> int {
    choose|i: int| 0 <= i < entries.len() && (#[trigger] entries[i]).0@ == key
}

/// The map that a list of entries stands for.
pub open spec fn entries_map<V>(entries: Seq<(String, V)>) -> Map<Seq<char>, V> {
    Map::new(|key: Seq<char>| has_key(entries, key), |key: Seq<char>| entries[place(entries, key)].1)
}

/// Whether no two entries have the same key.
pub open spec fn distinct_keys<V>(entries: Seq<(String, V)>) -> bool {
    forall|i: int, j: int|
        0 <= i < j < entries.len() ==> (#[trigger] entries[i]).0@ != (#[trigger] entries[j]).0@
}

proof fn lemma_entry<V>(entries: Seq<(String, V)>, i: int)
    requires
        distinct_keys(entries),
        0 <= i < entries.len(),
    ensures
        entries_map(entries).contains_key(entries[i].0@),
        entries_map(entries)[entries[i].0@] == entries[i].1,
{
    let key = entries[i].0@;
    assert(has_key(entries, key));
    let p = place(entries, key);
    assert(0 <= p < entries.len() && entries[p].0@ == key);
    assert(p == i);
}

/// Replacing the value of the entry at `i` replaces the value of its key.
proof fn lemma_update<V>(entries: Seq<(String, V)>, i: int, entry: (String, V))
    requires
        distinct_keys(entries),
        0 <= i < entries.len(),
        entry.0@ == entries[i].0@,
    ensures
        distinct_keys(entries.update(i, entry)),
        entries_map(entries.update(i, entry)) == entries_map(entries).insert(entry.0@, entry.1),
{
    let after = entries.update(i, entry);
    assert(distinct_keys(after));
    assert forall|key: Seq<char>| has_key(after, key) == (has_key(entries, key)) by {
        if has_key(after, key) {
            assert(entries[place(after, key)].0@ == key);
        }
        if has_key(entries, key) {
            assert(after[place(entries, key)].0@ == key);
        }
    }
    assert(has_key(entries, entries[i].0@));
    assert forall|key: Seq<char>| has_key(after, key) implies entries_map(after)[key]
        == entries_map(entries).insert(entry.0@, entry.1)[key] by {
        let p = place(after, key);
        lemma_entry(after, p);
        lemma_entry(entries, p);
    }
    assert(entries_map(after) =~= entries_map(entries).insert(entry.0@, entry.1));
}

/// Adding an entry with a new key adds the key.
proof fn lemma_push<V>(entries: Seq<(String, V)>, entry: (String, V))
    requires
        distinct_keys(entries),
        !has_key(entries, entry.0@),
    ensures
        distinct_keys(entries.push(entry)),
        entries_map(entries.push(entry)) == entries_map(entries).insert(entry.0@, entry.1),
{
    let after = entries.push(entry);
    assert forall|i: int, j: int| 0 <= i < j < after.len() implies (#[trigger] after[i]).0@ != (
    #[trigger] after[j]).0@ by {
        if j == entries.len() {
            assert(after[i] == entries[i]);
        }
    }
    assert forall|key: Seq<char>| has_key(after, key) == (key == entry.0@ || has_key(entries, key))
        by {
        if has_key(entries, key) {
            assert(after[place(entries, key)].0@ == key);
        }
        if key == entry.0@ {
            assert(after[entries.len() as int].0@ == key);
        }
        if has_key(after, key) && key != entry.0@ {
            let p = place(after, key);
            assert(after[p].0@ == key);
            assert(entries[p].0@ == key);
        }
    }
    assert forall|key: Seq<char>| has_key(after, key) implies entries_map(after)[key]
        == entries_map(entries).insert(entry.0@, entry.1)[key] by {
        let p = place(after, key);
        lemma_entry(after, p);
        if p < entries.len() {
            lemma_entry(entries, p);
        }
    }
    assert(entries_map(after) =~= entries_map(entries).insert(entry.0@, entry.1));
}

/// Removing the entry at `i` removes its key.
proof fn lemma_remove<V>(entries: Seq<(String, V)>, i: int)
    requires
        distinct_keys(entries),
        0 <= i < entries.len(),
    ensures
        distinct_keys(entries.remove(i)),
        entries_map(entries.remove(i)) == entries_map(entries).remove(entries[i].0@),
{
    let after = entries.remove(i);
    let gone = entries[i].0@;
    assert forall|j: int| 0 <= j < after.len() implies #[trigger] after[j] == (if j < i {
        entries[j]
    } else {
        entries[j + 1]
    }) by {}
    assert(distinct_keys(after));
    assert forall|key: Seq<char>| has_key(after, key) == (key != gone && has_key(entries, key)) by {
        if has_key(after, key) {
            let p = place(after, key);
            assert(after[p].0@ == key);
            if p < i {
                assert(entries[p].0@ == key);
            } else {
                assert(entries[p + 1].0@ == key);
            }
        }
        if key != gone && has_key(entries, key) {
            let p = place(entries, key);
            assert(entries[p].0@ == key);
            if p < i {
                assert(after[p].0@ == key);
            } else {
                assert(after[p - 1].0@ == key);
            }
        }
    }
    assert forall|key: Seq<char>| has_key(after, key) implies entries_map(after)[key]
        == entries_map(entries)[key] by {
        let p = place(after, key);
        lemma_entry(after, p);
        if p < i {
            lemma_entry(entries, p);
        } else {
            lemma_entry(entries, p + 1);
        }
    }
    assert(entries_map(after) =~= entries_map(entries).remove(gone));
}

/// The map has the keys of its entries and no others, each with the value that stands beside it.
pub proof fn law_map_is_its_entries<V>(entries: Seq<(String, V)>, key: Seq<char>, value: V)
    requires
        distinct_keys(entries),
    ensures
        entries_map(entries).contains_key(key) && entries_map(entries)[key] == value <==> (
        exists|i: int|
            0 <= i < entries.len() && (#[trigger] entries[i]).0@ == key && entries[i].1 == value),
{
    if entries_map(entries).contains_key(key) && entries_map(entries)[key] == value {
        let p = place(entries, key);
        assert(entries[p].0@ == key && entries[p].1 == value);
    }
    if exists|i: int|
        0 <= i < entries.len() && (#[trigger] entries[i]).0@ == key && entries[i].1 == value {
        let i = choose|i: int|
            0 <= i < entries.len() && (#[trigger] entries[i]).0@ == key && entries[i].1 == value;
        lemma_entry(entries, i);
    }
}

impl<V> StringMap<V> {
    /// No two entries have the same key.
    pub closed spec fn wf(&self) -> bool {
        distinct_keys(self.entries@)
    }

    /// A map without entries.
    pub fn new() -> (map: Self)
        ensures
            map.wf(),
            map@ == Map::<Seq<char>, V>::empty(),
    {
        let map = StringMap { entries: Vec::new() };
        assert(map@ =~= Map::<Seq<char>, V>::empty());
        map
    }

    /// The entries, one for each key.
    pub fn entries(&self) -> (entries: &Vec<(String, V)>)
        requires
            self.wf(),
        ensures
            distinct_keys(entries@),
            self@ == entries_map(entries@),
    {
        &self.entries
    }

    fn find(&self, key: &str) -> (found: Option<usize>)
        ensures
            match found {
                Some(i) => i < self.entries@.len() && self.entries@[i as int].0@ == key@,
                None => !has_key(self.entries@, key@),
            },
    {
        let wanted: String = key.to_owned();
        let mut i: usize = 0;
        while i < self.entries.len()
            invariant
                i <= self.entries@.len(),
                wanted@ == key@,
                forall|j: int| 0 <= j < i ==> (#[trigger] self.entries@[j]).0@ != key@,
            decreases self.entries@.len() - i,
        {
            if self.entries[i].0 == wanted {
                return Some(i);
            }
            i += 1;
        }
        None
    }

    /// Whether the map has the key.
    pub fn contains_key(&self, key: &str) -> (r: bool)
        requires
            self.wf(),
        ensures
            r == self@.contains_key(key@),
    {
        match self.find(key) {
            Some(i) => {
                proof {
                    lemma_entry(self.entries@, i as int);
                }
                true
            },
            None => false,
        }
    }

    /// The value of the key.
    pub fn get(&self, key: &str) -> (r: Option<&V>)
        requires
            self.wf(),
        ensures
            match r {
                Some(value) => self@.contains_key(key@) && self@[key@] == *value,
                None => !self@.contains_key(key@),
            },
    {
        match self.find(key) {
            Some(i) => {
                proof {
                    lemma_entry(self.entries@, i as int);
                }
                Some(&self.entries[i].1)
            },
            None => None,
        }
    }

    /// Gives the key the value, in place of any value that it had.
    pub fn insert(&mut self, key: String, value: V)
        requires
            old(self).wf(),
        ensures
            final(self).wf(),
            final(self)@ == old(self)@.insert(key@, value),
    {
        match self.find(key.as_str()) {
            Some(i) => {
                proof {
                    lemma_update(self.entries@, i as int, (key, value));
                }
                self.entries[i] = (key, value);
            },
            None => {
                proof {
                    lemma_push(self.entries@, (key, value));
                }
                self.entries.push((key, value));
            },
        }
    }

    /// Takes the key and its value out, if the map has the key.
    pub fn remove(&mut self, key: &str) -> (r: Option<V>)
        requires
            old(self).wf(),
        ensures
            final(self).wf(),
            final(self)@ == old(self)@.remove(key@),
            match r {
                Some(value) => old(self)@.contains_key(key@) && old(self)@[key@] == value,
                None => !old(self)@.contains_key(key@),
            },
    {
        match self.find(key) {
            Some(i) => {
                proof {
                    lemma_entry(self.entries@, i as int);
                    lemma_remove(self.entries@, i as int);
                }
                let entry = self.entries.remove(i);
                Some(entry.1)
            },
            None => {
                assert(self@ =~= self@.remove(key@));
                None
            },
        }
    }

    /// The value of the key, to be changed in place.
    pub fn get_mut(&mut self, key: &str) -> (r: Option<&mut V>)
        requires
            old(self).wf(),
        ensures
            match r {
                Some(value) => {
                    &&& old(self)@.contains_key(key@)
                    &&& *value == old(self)@[key@]
                    &&& final(self).wf()
                    &&& final(self)@ == old(self)@.insert(key@, *final(value))
                },
                None => !old(self)@.contains_key(key@) && *final(self) == *old(self),
            },
    {
        match self.find(key) {
            Some(i) => {
                proof {
                    lemma_entry(self.entries@, i as int);
                    assert forall|entry: (String, V)|
                        entry.0@ == self.entries@[i as int].0@ implies distinct_keys(
                        #[trigger] self.entries@.update(i as int, entry),
                    ) && entries_map(self.entries@.update(i as int, entry)) == entries_map(
                        self.entries@,
                    ).insert(entry.0@, entry.1) by {
                        lemma_update(self.entries@, i as int, entry);
                    }
                }
                Some(&mut self.entries[i].1)
            },
            None => None,
        }
    }
}

} // verus!
