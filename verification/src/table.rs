//! An in-process namespace of the key-value store: text keys, each bound to
//! at most one value.
//!
//! The entries are kept in a vector in the order in which their keys were
//! first written. A key's value is that of the first entry that carries the
//! key; the operations never add a second entry for a key.

use vstd::prelude::*;

verus! {

/// A namespace of the store, seen in contracts as a map from keys to values.
pub struct Table<T> {
    entries: Vec<(String, T)>,
}

/// Whether entry `i` is the first one that carries `key`.
spec fn first_at<T>(entries: Seq<(String, T)>, key: Seq<char>, i: int) -> bool {
    &&& 0 <= i < entries.len()
    &&& entries[i].0@ == key
    &&& forall|j: int| 0 <= j < i ==> (#[trigger] entries[j]).0@ != key
}

/// Whether some entry carries `key`.
spec fn bound<T>(entries: Seq<(String, T)>, key: Seq<char>) -> bool {
    exists|i: int| first_at(entries, key, i)
}

/// The index of the first entry that carries `key`.
spec fn slot<T>(entries: Seq<(String, T)>, key: Seq<char>) -> int {
    choose|i: int| first_at(entries, key, i)
}

/// The map that a sequence of entries stands for.
spec fn bindings<T>(entries: Seq<(String, T)>) -> Map<Seq<char>, T> {
    Map::new(|key: Seq<char>| bound(entries, key), |key: Seq<char>| entries[slot(entries, key)].1)
}

/// A key has one first entry only.
proof fn lemma_first_is_unique<T>(entries: Seq<(String, T)>, key: Seq<char>, i: int, j: int)
    requires
        first_at(entries, key, i),
        first_at(entries, key, j),
    ensures
        i == j,
{
    if i < j {
        assert(entries[i].0@ == key);
    } else if j < i {
        assert(entries[j].0@ == key);
    }
}

/// Once the first entry of a key is known, so is the key's value.
proof fn lemma_first_gives_value<T>(entries: Seq<(String, T)>, key: Seq<char>, i: int)
    requires
        first_at(entries, key, i),
    ensures
        bindings(entries).contains_key(key),
        bindings(entries)[key] == entries[i].1,
{
    lemma_first_is_unique(entries, key, i, slot(entries, key));
}

/// A key that no entry carries is not bound.
proof fn lemma_absent_is_unbound<T>(entries: Seq<(String, T)>, key: Seq<char>)
    requires
        forall|j: int| 0 <= j < entries.len() ==> (#[trigger] entries[j]).0@ != key,
    ensures
        !bindings(entries).contains_key(key),
{
    if bound(entries, key) {
        let i = slot(entries, key);
        assert(entries[i].0@ == key);
    }
}

/// Appending an entry for a key that no entry carries binds that key and
/// changes nothing else.
proof fn lemma_append_binds<T>(entries: Seq<(String, T)>, key: String, value: T)
    requires
        forall|j: int| 0 <= j < entries.len() ==> (#[trigger] entries[j]).0@ != key@,
    ensures
        bindings(entries.push((key, value))) == bindings(entries).insert(key@, value),
{
    let grown = entries.push((key, value));
    let n = entries.len() as int;
    assert(first_at(grown, key@, n));
    lemma_first_gives_value(grown, key@, n);
    assert forall|k: Seq<char>| k != key@ implies (bound(grown, k) <==> bound(entries, k)) && (
    bound(entries, k) ==> grown[slot(grown, k)].1 == entries[slot(entries, k)].1) by {
        if bound(entries, k) {
            let i = slot(entries, k);
            assert(first_at(grown, k, i));
            lemma_first_gives_value(grown, k, i);
        }
        if bound(grown, k) {
            let i = slot(grown, k);
            assert(i != n);
            assert(first_at(entries, k, i)) by {
                assert forall|j: int| 0 <= j < i implies (#[trigger] entries[j]).0@ != k by {
                    assert(grown[j].0@ != k);
                }
            }
        }
    }
    assert(bindings(grown) =~= bindings(entries).insert(key@, value));
}

/// Replacing the value of a key's first entry rebinds that key and changes
/// nothing else.
proof fn lemma_replace_rebinds<T>(entries: Seq<(String, T)>, i: int, key: String, value: T)
    requires
        first_at(entries, key@, i),
    ensures
        bindings(entries.update(i, (key, value))) == bindings(entries).insert(key@, value),
{
    let changed = entries.update(i, (key, value));
    assert forall|k: Seq<char>, j: int| first_at(changed, k, j) <==> first_at(entries, k, j) by {
        if first_at(changed, k, j) {
            assert forall|m: int| 0 <= m < j implies (#[trigger] entries[m]).0@ != k by {
                assert(changed[m].0@ != k);
            }
        }
        if first_at(entries, k, j) {
            assert forall|m: int| 0 <= m < j implies (#[trigger] changed[m]).0@ != k by {
                assert(entries[m].0@ != k);
            }
        }
    }
    assert(first_at(changed, key@, i));
    lemma_first_gives_value(changed, key@, i);
    assert forall|k: Seq<char>| k != key@ implies (bound(changed, k) <==> bound(entries, k)) && (
    bound(entries, k) ==> changed[slot(changed, k)].1 == entries[slot(entries, k)].1) by {
        if bound(entries, k) {
            let j = slot(entries, k);
            assert(first_at(changed, k, j));
            lemma_first_gives_value(changed, k, j);
        }
        if bound(changed, k) {
            let j = slot(changed, k);
            assert(first_at(entries, k, j));
        }
    }
    assert(bindings(changed) =~= bindings(entries).insert(key@, value));
}

impl<T> View for Table<T> {
    type V = Map<Seq<char>, T>;

    closed spec fn view(&self) -> Map<Seq<char>, T> {
        bindings(self.entries@)
    }
}

impl<T> Table<T> {
    /// A namespace without entries.
    pub fn new() -> (table: Self)
        ensures
            table@ == Map::<Seq<char>, T>::empty(),
    {
        let table = Table { entries: Vec::new() };
        proof {
            lemma_absent_is_unbound_everywhere(table.entries@);
        }
        table
    }

    /// The position of the first entry that carries `key`, if there is one.
    fn position(&self, key: &String) -> (at: Option<usize>)
        ensures
            match at {
                Some(i) => first_at(self.entries@, key@, i as int),
                None => forall|j: int|
                    0 <= j < self.entries@.len() ==> (#[trigger] self.entries@[j]).0@ != key@,
            },
    {
        let mut i: usize = 0;
        while i < self.entries.len()
            invariant
                i <= self.entries@.len(),
                forall|j: int| 0 <= j < i ==> (#[trigger] self.entries@[j]).0@ != key@,
            decreases self.entries@.len() - i,
        {
            if self.entries[i].0 == *key {
                return Some(i);
            }
            i += 1;
        }
        None
    }

    /// The value bound to `key`, if the key is bound.
    pub fn get(&self, key: &str) -> (found: Option<&T>)
        ensures
            match found {
                Some(value) => self@.contains_key(key@) && *value == self@[key@],
                None => !self@.contains_key(key@),
            },
    {
        let owned = key.to_owned();
        match self.position(&owned) {
            Some(i) => {
                proof {
                    lemma_first_gives_value(self.entries@, key@, i as int);
                }
                Some(&self.entries[i].1)
            },
            None => {
                proof {
                    lemma_absent_is_unbound(self.entries@, key@);
                }
                None
            },
        }
    }

    /// Whether `key` is bound.
    pub fn contains(&self, key: &str) -> (bound: bool)
        ensures
            bound == self@.contains_key(key@),
    {
        self.get(key).is_some()
    }

    /// Binds `key` to `value` if the key is free, and reports whether it did.
    /// A bound key keeps its value.
    pub fn insert_new(&mut self, key: String, value: T) -> (stored: bool)
        ensures
            stored == !old(self)@.contains_key(key@),
            stored ==> final(self)@ == old(self)@.insert(key@, value),
            !stored ==> final(self)@ == old(self)@,
    {
        match self.position(&key) {
            Some(i) => {
                proof {
                    lemma_first_gives_value(self.entries@, key@, i as int);
                }
                false
            },
            None => {
                proof {
                    lemma_absent_is_unbound(self.entries@, key@);
                    lemma_append_binds(self.entries@, key, value);
                }
                self.entries.push((key, value));
                true
            },
        }
    }

    /// Binds `key` to `value`, whether or not the key was bound before.
    pub fn set(&mut self, key: String, value: T)
        ensures
            final(self)@ == old(self)@.insert(key@, value),
    {
        match self.position(&key) {
            Some(i) => {
                proof {
                    lemma_replace_rebinds(self.entries@, i as int, key, value);
                }
                self.entries.set(i, (key, value));
            },
            None => {
                proof {
                    lemma_append_binds(self.entries@, key, value);
                }
                self.entries.push((key, value));
            },
        }
    }
}

/// Without entries no key is bound.
proof fn lemma_absent_is_unbound_everywhere<T>(entries: Seq<(String, T)>)
    requires
        entries.len() == 0,
    ensures
        bindings(entries) == Map::<Seq<char>, T>::empty(),
{
    assert forall|key: Seq<char>| !bound(entries, key) by {
        lemma_absent_is_unbound(entries, key);
    }
    assert(bindings(entries) =~= Map::<Seq<char>, T>::empty());
}

} // verus!
