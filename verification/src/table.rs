//! A small map, kept in the order in which its keys came.
use vstd::prelude::*;

verus! {

/// A type whose values can be told apart by their views.
pub trait Key: View + Sized {
    fn same_key(&self, other: &Self) -> (r: bool)
        ensures
            r == (self@ == other@),
    ;
}

impl Key for String {
    fn same_key(&self, other: &Self) -> (r: bool) {
        *self == *other
    }
}

impl Key for u128 {
    fn same_key(&self, other: &Self) -> (r: bool) {
        *self == *other
    }
}

impl Key for i64 {
    fn same_key(&self, other: &Self) -> (r: bool) {
        *self == *other
    }
}

/// Two identifiers that make one key together.
#[derive(Debug, Clone, Copy)]
pub struct PairKey {
    pub first: u128,
    pub second: u128,
}

impl View for PairKey {
    type V = (u128, u128);

    open spec fn view(&self) -> (u128, u128) {
        (self.first, self.second)
    }
}

impl Key for PairKey {
    fn same_key(&self, other: &Self) -> (r: bool) {
        self.first == other.first && self.second == other.second
    }
}

#[derive(Debug)]
pub struct Entry<K, V> {
    pub key: K,
    pub value: V,
}

/// A map from keys to values.
#[derive(Debug)]
pub struct Table<K, V> {
    pub entries: Vec<Entry<K, V>>,
}

/// Whether some entry has the key.
pub open spec fn has_key<K: Key, V>(entries: Seq<Entry<K, V>>, key: K::V) -> bool {
    exists|i: int| 0 <= i < entries.len() && (#[trigger] entries[i]).key@ == key
}

/// The place of the entry with a key.
pub open spec fn place_of<K: Key, V>(entries: Seq<Entry<K, V>>, key: K::V) -> int {
    choose|i: int| 0 <= i < entries.len() && (#[trigger] entries[i]).key@ == key
}

/// The entries as a map.
pub open spec fn map_of<K: Key, V>(entries: Seq<Entry<K, V>>) -> Map<K::V, V> {
    Map::new(
        |key: K::V| has_key(entries, key),
        |key: K::V| entries[place_of(entries, key)].value,
    )
}

/// No key occurs twice.
pub open spec fn distinct_keys<K: Key, V>(entries: Seq<Entry<K, V>>) -> bool {
    forall|i: int, j: int|
        0 <= i < j < entries.len() ==> (#[trigger] entries[i]).key@ != (#[trigger] entries[j]).key@
}

impl<K: Key, V> View for Table<K, V> {
    type V = Map<K::V, V>;

    open spec fn view(&self) -> Map<K::V, V> {
        map_of(self.entries@)
    }
}

/// In a map without repeated keys, each entry is found under its key.
pub proof fn lemma_entry_found<K: Key, V>(entries: Seq<Entry<K, V>>, i: int)
    requires
        distinct_keys(entries),
        0 <= i < entries.len(),
    ensures
        map_of(entries).dom().contains(entries[i].key@),
        map_of(entries)[entries[i].key@] == entries[i].value,
        place_of(entries, entries[i].key@) == i,
{
    let key = entries[i].key@;
    assert(has_key(entries, key));
    let p = place_of(entries, key);
    assert(0 <= p < entries.len() && entries[p].key@ == key);
    if p < i {
        assert(entries[p].key@ != entries[i].key@);
    } else if i < p {
        assert(entries[i].key@ != entries[p].key@);
    }
}

proof fn lemma_pushed<K: Key, V>(entries: Seq<Entry<K, V>>, entry: Entry<K, V>)
    requires
        distinct_keys(entries),
        !has_key(entries, entry.key@),
    ensures
        distinct_keys(entries.push(entry)),
        map_of(entries.push(entry)) == map_of(entries).insert(entry.key@, entry.value),
{
    let after = entries.push(entry);
    assert(distinct_keys(after));
    let want = map_of(entries).insert(entry.key@, entry.value);
    assert forall|key: K::V| has_key(after, key) <==> want.dom().contains(key) by {
        if has_key(after, key) {
            let p = place_of(after, key);
            if p < entries.len() {
                assert(entries[p].key@ == key);
            }
        }
        if has_key(entries, key) {
            let p = place_of(entries, key);
            assert(after[p].key@ == key);
        }
        if key == entry.key@ {
            assert(after[entries.len() as int].key@ == key);
        }
    }
    assert forall|key: K::V| want.dom().contains(key) implies map_of(after)[key] == want[key] by {
        assert(has_key(after, key));
        let p = place_of(after, key);
        if p < entries.len() {
            lemma_entry_found(entries, p);
        }
    }
    assert(map_of(after) =~= want);
}

proof fn lemma_replaced<K: Key, V>(entries: Seq<Entry<K, V>>, i: int, entry: Entry<K, V>)
    requires
        distinct_keys(entries),
        0 <= i < entries.len(),
        entries[i].key@ == entry.key@,
    ensures
        distinct_keys(entries.update(i, entry)),
        map_of(entries.update(i, entry)) == map_of(entries).insert(entry.key@, entry.value),
{
    let after = entries.update(i, entry);
    assert(distinct_keys(after));
    let want = map_of(entries).insert(entry.key@, entry.value);
    assert forall|key: K::V| has_key(after, key) <==> want.dom().contains(key) by {
        if has_key(after, key) {
            let p = place_of(after, key);
            assert(entries[p].key@ == key);
        }
        if has_key(entries, key) {
            let p = place_of(entries, key);
            assert(after[p].key@ == key);
        }
        if key == entry.key@ {
            assert(after[i].key@ == key);
        }
    }
    assert forall|key: K::V| want.dom().contains(key) implies map_of(after)[key] == want[key] by {
        assert(has_key(after, key));
        let p = place_of(after, key);
        lemma_entry_found(after, i);
        if p != i {
            assert(entries[p].key@ == key);
            lemma_entry_found(entries, p);
        }
    }
    assert(map_of(after) =~= want);
}

proof fn lemma_removed<K: Key, V>(entries: Seq<Entry<K, V>>, i: int)
    requires
        distinct_keys(entries),
        0 <= i < entries.len(),
    ensures
        distinct_keys(entries.remove(i)),
        map_of(entries.remove(i)) == map_of(entries).remove(entries[i].key@),
{
    let after = entries.remove(i);
    assert forall|a: int, b: int| 0 <= a < b < after.len() implies (#[trigger] after[a]).key@ != (
    #[trigger] after[b]).key@ by {
        let x = if a < i {
            a
        } else {
            a + 1
        };
        let y = if b < i {
            b
        } else {
            b + 1
        };
        assert(after[a] == entries[x] && after[b] == entries[y]);
    }
    let want = map_of(entries).remove(entries[i].key@);
    assert forall|key: K::V| has_key(after, key) <==> want.dom().contains(key) by {
        if has_key(after, key) {
            let p = place_of(after, key);
            let q = if p < i {
                p
            } else {
                p + 1
            };
            assert(after[p] == entries[q]);
            assert(entries[q].key@ == key);
            assert(entries[q].key@ != entries[i].key@);
        }
        if want.dom().contains(key) {
            let q = place_of(entries, key);
            assert(entries[q].key@ == key);
            let p = if q < i {
                q
            } else {
                q - 1
            };
            assert(after[p] == entries[q]);
        }
    }
    assert forall|key: K::V| want.dom().contains(key) implies map_of(after)[key] == want[key] by {
        assert(has_key(after, key));
        let p = place_of(after, key);
        let q = if p < i {
            p
        } else {
            p + 1
        };
        assert(after[p] == entries[q]);
        lemma_entry_found(entries, q);
    }
    assert(map_of(after) =~= want);
}

impl<K: Key, V> Table<K, V> {
    pub open spec fn is_valid(&self) -> bool {
        distinct_keys(self.entries@)
    }

    pub fn new() -> (r: Self)
        ensures
            r.is_valid(),
            r@ == Map::<K::V, V>::empty(),
            r.entries@.len() == 0,
    {
        let r = Table { entries: Vec::new() };
        assert(r@ =~= Map::<K::V, V>::empty());
        r
    }

    pub fn len(&self) -> (r: usize)
        ensures
            r == self.entries@.len(),
    {
        self.entries.len()
    }

    pub fn is_empty(&self) -> (r: bool)
        ensures
            r == (self.entries@.len() == 0),
    {
        self.entries.len() == 0
    }

    /// The place of the entry with a key.
    pub fn find(&self, key: &K) -> (r: Option<usize>)
        requires
            self.is_valid(),
        ensures
            match r {
                Some(i) => i < self.entries.len() && self.entries@[i as int].key@ == key@
                    && self@.dom().contains(key@) && self@[key@] == self.entries@[i as int].value,
                None => !self@.dom().contains(key@),
            },
    {
        let mut i: usize = 0;
        while i < self.entries.len()
            invariant
                i <= self.entries.len(),
                self.is_valid(),
                forall|k: int| 0 <= k < i ==> (#[trigger] self.entries@[k]).key@ != key@,
            decreases self.entries.len() - i,
        {
            if self.entries[i].key.same_key(key) {
                proof {
                    lemma_entry_found(self.entries@, i as int);
                }
                return Some(i);
            }
            i += 1;
        }
        None
    }

    /// The value of a key.
    pub fn get(&self, key: &K) -> (r: Option<&V>)
        requires
            self.is_valid(),
        ensures
            match r {
                Some(v) => self@.dom().contains(key@) && *v == self@[key@],
                None => !self@.dom().contains(key@),
            },
    {
        match self.find(key) {
            Some(i) => Some(&self.entries[i].value),
            None => None,
        }
    }

    pub fn contains_key(&self, key: &K) -> (r: bool)
        requires
            self.is_valid(),
        ensures
            r == self@.dom().contains(key@),
    {
        self.find(key).is_some()
    }

    /// Gives a key a value, in place of the one it had.
    pub fn insert(&mut self, key: K, value: V)
        requires
            old(self).is_valid(),
        ensures
            final(self).is_valid(),
            final(self)@ == old(self)@.insert(key@, value),
            final(self).entries@.len() == old(self).entries@.len() + if old(self)@.dom().contains(
                key@,
            ) {
                0int
            } else {
                1int
            },
    {
        match self.find(&key) {
            Some(i) => {
                let entry = Entry { key, value };
                proof {
                    lemma_replaced(self.entries@, i as int, entry);
                }
                self.entries.set(i, entry);
            },
            None => {
                let entry = Entry { key, value };
                proof {
                    lemma_pushed(self.entries@, entry);
                }
                self.entries.push(entry);
            },
        }
    }

    /// Takes the entry at a place out.
    pub fn remove_at(&mut self, i: usize) -> (r: Entry<K, V>)
        requires
            old(self).is_valid(),
            i < old(self).entries.len(),
        ensures
            final(self).is_valid(),
            r == old(self).entries@[i as int],
            final(self).entries@ == old(self).entries@.remove(i as int),
            final(self)@ == old(self)@.remove(r.key@),
    {
        proof {
            lemma_removed(self.entries@, i as int);
        }
        self.entries.remove(i)
    }

    /// Takes a key out, with its value.
    pub fn remove(&mut self, key: &K) -> (r: Option<V>)
        requires
            old(self).is_valid(),
        ensures
            final(self).is_valid(),
            final(self)@ == old(self)@.remove(key@),
            match r {
                Some(v) => old(self)@.dom().contains(key@) && v == old(self)@[key@]
                    && final(self).entries@ == old(self).entries@.remove(
                    place_of(old(self).entries@, key@),
                ) && final(self).entries@.len() == old(self).entries@.len() - 1,
                None => !old(self)@.dom().contains(key@) && final(self).entries@ == old(
                    self,
                ).entries@,
            },
    {
        match self.find(key) {
            Some(i) => {
                proof {
                    lemma_entry_found(self.entries@, i as int);
                }
                let entry = self.remove_at(i);
                Some(entry.value)
            },
            None => {
                assert(self@.remove(key@) =~= self@);
                None
            },
        }
    }
}

}
