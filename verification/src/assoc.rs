//! A finite map from names to values, in the order in which the names came.
use vstd::prelude::*;

verus! {

/// Whether `key` names an entry.
pub open spec fn has_key<V>(entries: Seq<(String, V)>, key: Seq<char>) -> bool {
    exists|i: int| 0 <= i < entries.len() && (#[trigger] entries[i]).0@ == key
}

/// The place of the entry that `key` names.
pub open spec fn place_of<V>(entries: Seq<(String, V)>, key: Seq<char>) -> int {
    choose|i: int| 0 <= i < entries.len() && (#[trigger] entries[i]).0@ == key
}

/// No name occurs twice.
pub open spec fn keys_unique<V>(entries: Seq<(String, V)>) -> bool {
    forall|i: int, j: int|
        0 <= i < j < entries.len() ==> (#[trigger] entries[i]).0@ != (#[trigger] entries[j]).0@
}

/// The map that the entries stand for.
pub open spec fn as_map<V>(entries: Seq<(String, V)>) -> Map<Seq<char>, V> {
    Map::new(
        |key: Seq<char>| has_key(entries, key),
        |key: Seq<char>| entries[place_of(entries, key)].1,
    )
}

/// Each entry is what the map holds under its name.
pub proof fn lemma_entry<V>(entries: Seq<(String, V)>, i: int)
    requires
        keys_unique(entries),
        0 <= i < entries.len(),
    ensures
        as_map(entries).dom().contains(entries[i].0@),
        as_map(entries)[entries[i].0@] == entries[i].1,
        place_of(entries, entries[i].0@) == i,
{
    let key = entries[i].0@;
    assert(entries[i].0@ == key);
    let j = place_of(entries, key);
    assert(0 <= j < entries.len() && entries[j].0@ == key);
    if i < j {
        assert(entries[i].0@ != entries[j].0@);
    }
    if j < i {
        assert(entries[j].0@ != entries[i].0@);
    }
}

/// Entries with distinct names, as a map.
#[derive(Debug)]
pub struct Assoc<V> {
    pub entries: Vec<(String, V)>,
}

impl<V> View for Assoc<V> {
    type V = Map<Seq<char>, V>;

    open spec fn view(&self) -> Map<Seq<char>, V> {
        as_map(self.entries@)
    }
}

impl<V> Assoc<V> {
    pub open spec fn wf(&self) -> bool {
        keys_unique(self.entries@)
    }

    /// The empty map.
    pub fn new() -> (r: Self)
        ensures
            r.wf(),
            r@ == Map::<Seq<char>, V>::empty(),
            r.entries@.len() == 0,
    {
        let r = Assoc { entries: Vec::new() };
        proof {
            assert(r@ =~= Map::<Seq<char>, V>::empty());
        }
        r
    }

    /// The place of the entry under `key`.
    pub fn position(&self, key: &String) -> (r: Option<usize>)
        ensures
            r is None <==> !self@.dom().contains(key@),
            r matches Some(i) ==> i < self.entries@.len() && self.entries@[i as int].0@ == key@,
    {
        let mut i: usize = 0;
        while i < self.entries.len()
            invariant
                0 <= i <= self.entries@.len(),
                forall|j: int| 0 <= j < i ==> (#[trigger] self.entries@[j]).0@ != key@,
            decreases self.entries@.len() - i,
        {
            if self.entries[i].0 == *key {
                proof {
                    assert(self.entries@[i as int].0@ == key@);
                }
                return Some(i);
            }
            i += 1;
        }
        None
    }

    /// Whether there is an entry under `key`.
    pub fn contains(&self, key: &String) -> (r: bool)
        ensures
            r == self@.dom().contains(key@),
    {
        self.position(key).is_some()
    }

    /// The value under `key`.
    pub fn get(&self, key: &String) -> (r: Option<&V>)
        requires
            self.wf(),
        ensures
            r is Some <==> self@.dom().contains(key@),
            r matches Some(v) ==> *v == self@[key@],
    {
        match self.position(key) {
            Some(i) => {
                proof {
                    lemma_entry(self.entries@, i as int);
                }
                Some(&self.entries[i].1)
            },
            None => None,
        }
    }

    /// Puts `value` under `key`, in the place of what was there.
    pub fn insert(&mut self, key: String, value: V)
        requires
            old(self).wf(),
        ensures
            final(self).wf(),
            final(self)@ == old(self)@.insert(key@, value),
            old(self)@.dom().contains(key@) ==> final(self).entries@.len() == old(self).entries@.len(),
            !old(self)@.dom().contains(key@) ==> final(self).entries@ == old(self).entries@.push(
                (key, value),
            ),
    {
        let ghost before = self.entries@;
        match self.position(&key) {
            Some(i) => {
                self.entries.set(i, (key, value));
                proof {
                    let after = self.entries@;
                    assert(keys_unique(after));
                    assert forall|k: Seq<char>| has_key(after, k) == (has_key(before, k) || k == key@) by {
                        if has_key(after, k) {
                            let j = place_of(after, k);
                            assert(before[j].0@ == k);
                        }
                        if has_key(before, k) {
                            let j = place_of(before, k);
                            assert(after[j].0@ == k);
                        }
                        assert(after[i as int].0@ == key@);
                    }
                    assert forall|k: Seq<char>| has_key(before, k) implies as_map(after)[k]
                        == as_map(before).insert(key@, value)[k] by {
                        let j = place_of(before, k);
                        assert(after[j].0@ == k);
                        lemma_entry(before, j);
                        lemma_entry(after, j);
                        lemma_entry(before, i as int);
                    }
                    assert(before[i as int].0@ == key@);
                    assert(as_map(after) =~= as_map(before).insert(key@, value));
                }
            },
            None => {
                self.entries.push((key, value));
                proof {
                    let after = self.entries@;
                    let n = before.len() as int;
                    assert forall|j: int| 0 <= j < n implies (#[trigger] after[j]).0@ != key@ by {
                        assert(before[j].0@ != key@);
                    }
                    assert(keys_unique(after));
                    assert(after[n].0@ == key@);
                    lemma_entry(after, n);
                    assert forall|k: Seq<char>| has_key(after, k) == (has_key(before, k) || k == key@) by {
                        if has_key(after, k) && k != key@ {
                            let j = place_of(after, k);
                            assert(before[j].0@ == k);
                        }
                        if has_key(before, k) {
                            let j = place_of(before, k);
                            assert(after[j].0@ == k);
                        }
                    }
                    assert forall|k: Seq<char>| has_key(before, k) implies as_map(after)[k]
                        == as_map(before)[k] by {
                        let j = place_of(before, k);
                        lemma_entry(before, j);
                        lemma_entry(after, j);
                    }
                    assert(as_map(after) =~= as_map(before).insert(key@, value));
                }
            },
        }
    }

    /// Takes out the entry under `key`, where there is one.
    pub fn remove(&mut self, key: &String) -> (r: Option<V>)
        requires
            old(self).wf(),
        ensures
            final(self).wf(),
            final(self)@ == old(self)@.remove(key@),
            r is Some <==> old(self)@.dom().contains(key@),
            r matches Some(v) ==> v == old(self)@[key@],
    {
        let ghost before = self.entries@;
        match self.position(key) {
            Some(i) => {
                let (_, value) = self.entries.remove(i);
                proof {
                    let after = self.entries@;
                    let n = i as int;
                    lemma_entry(before, n);
                    assert forall|a: int, b: int| 0 <= a < b < after.len() implies (#[trigger] after[a]).0@
                        != (#[trigger] after[b]).0@ by {
                        let a0 = if a < n { a } else { a + 1 };
                        let b0 = if b < n { b } else { b + 1 };
                        assert(after[a] == before[a0]);
                        assert(after[b] == before[b0]);
                    }
                    assert forall|k: Seq<char>| has_key(after, k) == (has_key(before, k) && k != key@) by {
                        if has_key(after, k) {
                            let j = place_of(after, k);
                            let j0 = if j < n { j } else { j + 1 };
                            assert(before[j0] == after[j]);
                            assert(before[j0].0@ == k);
                            if k == key@ {
                                assert(before[n].0@ == k);
                                if j0 < n {
                                    assert(before[j0].0@ != before[n].0@);
                                } else {
                                    assert(before[n].0@ != before[j0].0@);
                                }
                            }
                        }
                        if has_key(before, k) && k != key@ {
                            let j0 = place_of(before, k);
                            let j = if j0 < n { j0 } else { j0 - 1 };
                            assert(before[j0] == after[j]);
                            assert(after[j].0@ == k);
                        }
                    }
                    assert forall|k: Seq<char>| has_key(after, k) implies as_map(after)[k] == as_map(
                        before,
                    )[k] by {
                        let j = place_of(after, k);
                        let j0 = if j < n { j } else { j + 1 };
                        assert(before[j0] == after[j]);
                        lemma_entry(after, j);
                        lemma_entry(before, j0);
                    }
                    assert(as_map(after) =~= as_map(before).remove(key@));
                }
                Some(value)
            },
            None => {
                proof {
                    assert(as_map(before) =~= as_map(before).remove(key@));
                }
                None
            },
        }
    }
}

} // verus!
