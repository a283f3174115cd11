//! A keyed store that remembers the last value written under each key.
use vstd::prelude::*;

verus! {

/// A key whose values can be told apart.
pub trait Key: Sized {
    /// Whether two keys are the same.
    fn same(&self, other: &Self) -> (equal: bool)
        ensures
            equal == (*self == *other),
    ;
}

impl Key for u32 {
    fn same(&self, other: &Self) -> (equal: bool) {
        *self == *other
    }
}

/// The value stored under `key`, reading the entries from the front.
spec fn lookup<K, V: View>(entries: Seq<(K, V)>, key: K) -> Option<V::V>
    decreases entries.len(),
{
    if entries.len() == 0 {
        None
    } else if entries[0].0 == key {
        Some(entries[0].1@)
    } else {
        lookup(entries.drop_first(), key)
    }
}

/// A map from keys to values.
pub struct Table<K, V> {
    entries: Vec<(K, V)>,
}

/// The keys of `entries`.
spec fn keys<K, V>(entries: Seq<(K, V)>) -> Set<K> {
    entries.map_values(|e: (K, V)| e.0).to_set()
}

impl<K, V: View> View for Table<K, V> {
    type V = Map<K, V::V>;

    closed spec fn view(&self) -> Map<K, V::V> {
        Map::new(
            |k: K| lookup(self.entries@, k) is Some,
            |k: K| lookup(self.entries@, k)->0,
        )
    }
}

/// Reading at the first entry that carries `key` gives its value.
proof fn lemma_lookup_at<K, V: View>(entries: Seq<(K, V)>, key: K, i: int)
    requires
        0 <= i < entries.len(),
        entries[i].0 == key,
        forall|j: int| 0 <= j < i ==> (#[trigger] entries[j]).0 != key,
    ensures
        lookup(entries, key) == Some(entries[i].1@),
    decreases i,
{
    if i > 0 {
        assert(entries[0].0 != key);
        let rest = entries.drop_first();
        assert forall|j: int| 0 <= j < i - 1 implies (#[trigger] rest[j]).0 != key by {
            assert(rest[j] == entries[j + 1]);
        }
        lemma_lookup_at(rest, key, i - 1);
    }
}

/// Reading a key that no entry carries gives nothing.
proof fn lemma_lookup_none<K, V: View>(entries: Seq<(K, V)>, key: K)
    requires
        forall|j: int| 0 <= j < entries.len() ==> (#[trigger] entries[j]).0 != key,
    ensures
        lookup(entries, key) is None,
    decreases entries.len(),
{
    if entries.len() > 0 {
        assert(entries[0].0 != key);
        let rest = entries.drop_first();
        assert forall|j: int| 0 <= j < rest.len() implies (#[trigger] rest[j]).0 != key by {
            assert(rest[j] == entries[j + 1]);
        }
        lemma_lookup_none(rest, key);
    }
}

/// Replacing the value at one entry changes no other key.
proof fn lemma_lookup_other<K, V: View>(before: Seq<(K, V)>, after: Seq<(K, V)>, i: int, key: K)
    requires
        0 <= i < before.len(),
        before.len() == after.len(),
        before[i].0 != key,
        after[i].0 != key,
        forall|j: int| 0 <= j < before.len() && j != i ==> #[trigger] after[j] == before[j],
    ensures
        lookup(after, key) == lookup(before, key),
    decreases before.len(),
{
    let b = before.drop_first();
    let a = after.drop_first();
    if i > 0 {
        assert(after[0] == before[0]);
        assert forall|j: int| 0 <= j < b.len() && j != i - 1 implies #[trigger] a[j] == b[j] by {
            assert(a[j] == after[j + 1]);
        }
        assert(a[i - 1] == after[i] && b[i - 1] == before[i]);
        lemma_lookup_other(b, a, i - 1, key);
    } else {
        assert forall|j: int| 0 <= j < b.len() implies #[trigger] a[j] == b[j] by {
            assert(a[j] == after[j + 1]);
        }
        assert(a =~= b);
    }
}

/// Adding an entry at the end changes no other key.
proof fn lemma_lookup_push<K, V: View>(entries: Seq<(K, V)>, entry: (K, V), key: K)
    requires
        entry.0 != key,
    ensures
        lookup(entries.push(entry), key) == lookup(entries, key),
    decreases entries.len(),
{
    let longer = entries.push(entry);
    if entries.len() == 0 {
        assert(longer.drop_first() =~= entries);
        assert(longer[0] == entry);
    } else {
        assert(longer[0] == entries[0]);
        assert(longer.drop_first() =~= entries.drop_first().push(entry));
        lemma_lookup_push(entries.drop_first(), entry, key);
    }
}

/// A key that can be read is among the keys of the entries.
proof fn lemma_lookup_found<K, V: View>(entries: Seq<(K, V)>, key: K)
    requires
        lookup(entries, key) is Some,
    ensures
        keys(entries).contains(key),
    decreases entries.len(),
{
    let all = entries.map_values(|e: (K, V)| e.0);
    if entries[0].0 == key {
        assert(all[0] == key);
    } else {
        let rest = entries.drop_first();
        lemma_lookup_found(rest, key);
        let tail = rest.map_values(|e: (K, V)| e.0);
        let j = choose|j: int| 0 <= j < tail.len() && tail[j] == key;
        assert(all[j + 1] == key);
    }
}

impl<K: Key, V: View> Table<K, V> {
    /// An empty table.
    pub fn new() -> (table: Self)
        ensures
            table@ == Map::<K, V::V>::empty(),
    {
        let table = Table { entries: Vec::new() };
        assert(table@ =~= Map::<K, V::V>::empty());
        table
    }

    /// A table holds finitely many keys.
    pub proof fn lemma_finite(&self)
        ensures
            self@.dom().finite(),
    {
        let all = self.entries@.map_values(|e: (K, V)| e.0);
        assert forall|k: K| self@.dom().contains(k) implies keys(self.entries@).contains(k) by {
            lemma_lookup_found(self.entries@, k);
        }
        vstd::seq_lib::seq_to_set_is_finite(all);
        vstd::set_lib::lemma_set_subset_finite(keys(self.entries@), self@.dom());
    }

    /// The index of the first entry that carries `key`.
    fn find(&self, key: &K) -> (index: Option<usize>)
        ensures
            match index {
                Some(i) => {
                    &&& i < self.entries@.len()
                    &&& self.entries@[i as int].0 == *key
                    &&& self@.contains_key(*key)
                    &&& self@[*key] == self.entries@[i as int].1@
                },
                None => {
                    &&& !self@.contains_key(*key)
                    &&& forall|j: int|
                        0 <= j < self.entries@.len() ==> (#[trigger] self.entries@[j]).0 != *key
                },
            },
            index is Some ==> forall|j: int|
                0 <= j < index->0 ==> (#[trigger] self.entries@[j]).0 != *key,
    {
        let mut i: usize = 0;
        while i < self.entries.len()
            invariant
                i <= self.entries@.len(),
                forall|j: int| 0 <= j < i ==> (#[trigger] self.entries@[j]).0 != *key,
            decreases self.entries@.len() - i,
        {
            if self.entries[i].0.same(key) {
                proof {
                    lemma_lookup_at(self.entries@, *key, i as int);
                }
                return Some(i);
            }
            i = i + 1;
        }
        proof {
            lemma_lookup_none(self.entries@, *key);
        }
        None
    }

    /// The value under `key`, if one was written.
    pub fn get(&self, key: &K) -> (value: Option<&V>)
        ensures
            match value {
                Some(v) => self@.contains_key(*key) && v@ == self@[*key],
                None => !self@.contains_key(*key),
            },
    {
        match self.find(key) {
            Some(i) => Some(&self.entries[i].1),
            None => None,
        }
    }

    /// Writes `value` under `key`, replacing what was there.
    pub fn set(&mut self, key: K, value: V)
        ensures
            final(self)@ == old(self)@.insert(key, value@),
    {
        let ghost before = self.entries@;
        match self.find(&key) {
            Some(i) => {
                self.entries.set(i, (key, value));
                proof {
                    let after = self.entries@;
                    lemma_lookup_at(after, key, i as int);
                    assert forall|k: K| k != key implies lookup(after, k) == lookup(before, k) by {
                        lemma_lookup_other(before, after, i as int, k);
                    }
                }
            },
            None => {
                self.entries.push((key, value));
                proof {
                    let after = self.entries@;
                    lemma_lookup_at(after, key, before.len() as int);
                    assert forall|k: K| k != key implies lookup(after, k) == lookup(before, k) by {
                        lemma_lookup_push(before, (key, value), k);
                    }
                }
            },
        }
        assert(self@ =~= old(self)@.insert(key, value@));
    }
}

} // verus!
