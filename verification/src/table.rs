//! A small map that is searched from end to end.

use crate::domain::{ProviderId, ProviderJobKey};
use vstd::prelude::*;

verus! {

/// A key that can be told from another.
pub trait Key: View + Sized {
    /// Whether two keys are the same.
    fn same_key(&self, other: &Self) -> (b: bool)
        ensures
            b == (self@ == other@),
    ;
}

impl Key for u64 {
    fn same_key(&self, other: &Self) -> (b: bool) {
        *self == *other
    }
}

impl Key for ProviderId {
    fn same_key(&self, other: &Self) -> (b: bool) {
        self.same(other)
    }
}

impl Key for ProviderJobKey {
    fn same_key(&self, other: &Self) -> (b: bool) {
        self.same(other)
    }
}

/// A key with its value.
#[derive(Debug)]
pub struct Entry<K, T> {
    pub key: K,
    pub value: T,
}

/// Values under keys.
#[derive(Debug)]
pub struct Table<K, T> {
    pub(crate) entries: Vec<Entry<K, T>>,
}

/// The map that a list of entries stands for: a later entry stands in the place of an earlier one
/// with its key.
pub open spec fn map_of<K: View, T: View>(entries: Seq<Entry<K, T>>) -> Map<K::V, T::V>
    decreases entries.len(),
{
    if entries.len() == 0 {
        Map::empty()
    } else {
        map_of(entries.drop_last()).insert(entries.last().key@, entries.last().value@)
    }
}

impl<K: View, T: View> View for Table<K, T> {
    type V = Map<K::V, T::V>;

    closed spec fn view(&self) -> Map<K::V, T::V> {
        map_of(self.entries@)
    }
}

proof fn map_of_later<K: View, T: View>(entries: Seq<Entry<K, T>>, i: int)
    requires
        0 <= i < entries.len(),
        forall|j: int| i < j < entries.len() ==> (#[trigger] entries[j]).key@ != entries[i].key@,
    ensures
        map_of(entries).contains_key(entries[i].key@),
        map_of(entries)[entries[i].key@] == entries[i].value@,
    decreases entries.len(),
{
    if i + 1 < entries.len() {
        map_of_later(entries.drop_last(), i);
        assert(entries.last() == entries[entries.len() - 1]);
    }
}

proof fn map_of_absent<K: View, T: View>(entries: Seq<Entry<K, T>>, key: K::V)
    requires
        forall|j: int| 0 <= j < entries.len() ==> (#[trigger] entries[j]).key@ != key,
    ensures
        !map_of(entries).contains_key(key),
    decreases entries.len(),
{
    if entries.len() > 0 {
        map_of_absent(entries.drop_last(), key);
        assert(entries.last() == entries[entries.len() - 1]);
    }
}

/// The entries of a map, each with the value that a function makes of its key and value, stand for
/// the map with each value made so.
pub(crate) proof fn map_of_mapped<K: View, T: View>(
    before: Seq<Entry<K, T>>,
    after: Seq<Entry<K, T>>,
    f: spec_fn(K::V, T::V) -> T::V,
)
    requires
        before.len() == after.len(),
        forall|i: int|
            0 <= i < before.len() ==> (#[trigger] after[i]).key@ == before[i].key@ && after[i].value@
                == f(before[i].key@, before[i].value@),
    ensures
        map_of(after) == mapped(map_of(before), f),
    decreases before.len(),
{
    if before.len() > 0 {
        assert forall|i: int| 0 <= i < before.drop_last().len() implies (
        #[trigger] after.drop_last()[i]).key@ == before.drop_last()[i].key@
            && after.drop_last()[i].value@ == f(
            before.drop_last()[i].key@,
            before.drop_last()[i].value@,
        ) by {
            assert(after.drop_last()[i] == after[i]);
        }
        map_of_mapped(before.drop_last(), after.drop_last(), f);
        assert(after.last() == after[after.len() - 1]);
    }
    assert(map_of(after) =~= mapped(map_of(before), f));
}

/// A map with each value made anew from its key and value.
pub open spec fn mapped<A, B>(map: Map<A, B>, f: spec_fn(A, B) -> B) -> Map<A, B> {
    Map::new(|key: A| map.contains_key(key), |key: A| f(key, map[key]))
}

impl<K: View, T: View> Table<K, T> {
    /// The table stands for what its entries stand for.
    pub(crate) proof fn shows_its_entries(self)
        ensures
            self@ == map_of(self.entries@),
    {
    }
}

impl<K: Key, T: View> Table<K, T> {
    /// Nothing is there.
    pub fn new() -> (table: Table<K, T>)
        ensures
            table@ == Map::<K::V, T::V>::empty(),
    {
        Table { entries: Vec::new() }
    }

    /// The value under a key.
    pub fn get(&self, key: &K) -> (r: Option<&T>)
        ensures
            match r {
                Some(value) => self@.contains_key(key@) && value@ == self@[key@],
                None => !self@.contains_key(key@),
            },
    {
        let mut i: usize = self.entries.len();
        while i > 0
            invariant
                i <= self.entries@.len(),
                forall|j: int|
                    i <= j < self.entries@.len() ==> (#[trigger] self.entries@[j]).key@ != key@,
            decreases i,
        {
            i = i - 1;
            if self.entries[i].key.same_key(key) {
                proof {
                    map_of_later(self.entries@, i as int);
                }
                return Some(&self.entries[i].value);
            }
        }
        proof {
            map_of_absent(self.entries@, key@);
        }
        None
    }

    /// Whether there is a value under a key.
    pub fn contains(&self, key: &K) -> (b: bool)
        ensures
            b == self@.contains_key(key@),
    {
        self.get(key).is_some()
    }

    /// Takes away what is under a key.
    pub fn remove(&mut self, key: &K)
        ensures
            final(self)@ == old(self)@.remove(key@),
    {
        let ghost before = self.entries@;
        let ghost mut seen: int = 0;
        let mut i: usize = 0;
        proof {
            assert(before.skip(0) =~= before);
            assert(map_of(before.take(0)).remove(key@) =~= map_of(self.entries@.take(0)));
        }
        while i < self.entries.len()
            invariant
                i <= self.entries@.len(),
                0 <= seen <= before.len(),
                before == old(self).entries@,
                self.entries@.skip(i as int) == before.skip(seen),
                map_of(self.entries@.take(i as int)) == map_of(before.take(seen)).remove(key@),
            decreases self.entries@.len() - i,
        {
            let ghost current = self.entries@;
            proof {
                assert(before.skip(seen).len() > 0);
                assert(before.skip(seen)[0] == current.skip(i as int)[0]);
                assert(before[seen] == current[i as int]);
                assert(before.take(seen + 1).drop_last() =~= before.take(seen));
            }
            if self.entries[i].key.same_key(key) {
                let _ = self.entries.remove(i);
                proof {
                    assert(self.entries@.take(i as int) =~= current.take(i as int));
                    assert(self.entries@.skip(i as int) =~= before.skip(seen + 1)) by {
                        assert(current.skip(i as int).skip(1) =~= self.entries@.skip(i as int));
                        assert(before.skip(seen).skip(1) =~= before.skip(seen + 1));
                    }
                    assert(map_of(before.take(seen)).remove(key@) =~= map_of(
                        before.take(seen + 1),
                    ).remove(key@));
                }
            } else {
                proof {
                    assert(current.take(i as int + 1).drop_last() =~= current.take(i as int));
                    assert(current.skip(i as int + 1) =~= before.skip(seen + 1)) by {
                        assert(current.skip(i as int).skip(1) =~= current.skip(i as int + 1));
                        assert(before.skip(seen).skip(1) =~= before.skip(seen + 1));
                    }
                    assert(map_of(current.take(i as int + 1)) =~= map_of(
                        before.take(seen + 1),
                    ).remove(key@));
                }
                i = i + 1;
            }
            proof {
                seen = seen + 1;
            }
        }
        proof {
            assert(self.entries@.take(i as int) =~= self.entries@);
            assert(before.skip(seen).len() == 0);
            assert(before.take(seen) =~= before);
        }
    }

    /// Puts a value under a key, in the place of the one that was there.
    pub fn insert(&mut self, key: K, value: T)
        ensures
            final(self)@ == old(self)@.insert(key@, value@),
    {
        let ghost before = self@;
        self.remove(&key);
        let ghost rest = self.entries@;
        self.entries.push(Entry { key, value });
        proof {
            assert(self.entries@.drop_last() =~= rest);
            assert(self@ =~= before.insert(key@, value@));
        }
    }

    /// Takes everything away.
    pub fn clear(&mut self)
        ensures
            final(self)@ == Map::<K::V, T::V>::empty(),
    {
        self.entries.clear();
    }

    /// Whether nothing is there.
    pub fn is_empty(&self) -> (b: bool)
        ensures
            b == (self@.dom() == Set::<K::V>::empty()),
    {
        if self.entries.len() == 0 {
            assert(self@.dom() =~= Set::<K::V>::empty());
            true
        } else {
            proof {
                assert(self@.contains_key(self.entries@.last().key@));
            }
            false
        }
    }
}

pub(crate) proof fn map_of_key<K: View, T: View>(entries: Seq<Entry<K, T>>, key: K::V) -> (i: int)
    requires
        map_of(entries).contains_key(key),
    ensures
        0 <= i < entries.len(),
        entries[i].key@ == key,
    decreases entries.len(),
{
    if entries.last().key@ == key {
        entries.len() - 1
    } else {
        map_of_key(entries.drop_last(), key)
    }
}

impl<K: Key, T: Key> Table<K, T> {
    /// Whether some key has a value.
    pub fn holds_value(&self, value: &T) -> (b: bool)
        ensures
            b == exists|key: K::V| self@.contains_key(key) && #[trigger] self@[key] == value@,
    {
        let mut i: usize = 0;
        while i < self.entries.len()
            invariant
                i <= self.entries@.len(),
                forall|j: int|
                    0 <= j < i ==> self@[(#[trigger] self.entries@[j]).key@] != value@,
            decreases self.entries@.len() - i,
        {
            if let Some(found) = self.get(&self.entries[i].key) {
                if found.same_key(value) {
                    assert(self@.contains_key(self.entries@[i as int].key@));
                    return true;
                }
            } else {
                proof {
                    map_of_present(self.entries@, i as int);
                }
            }
            i = i + 1;
        }
        proof {
            if exists|key: K::V| self@.contains_key(key) && #[trigger] self@[key] == value@ {
                let key = choose|key: K::V| self@.contains_key(key) && #[trigger] self@[key]
                    == value@;
                let j = map_of_key(self.entries@, key);
                assert(self@[self.entries@[j].key@] != value@);
            }
        }
        false
    }
}

pub(crate) proof fn map_of_present<K: View, T: View>(entries: Seq<Entry<K, T>>, i: int)
    requires
        0 <= i < entries.len(),
    ensures
        map_of(entries).contains_key(entries[i].key@),
    decreases entries.len(),
{
    if i + 1 < entries.len() {
        map_of_present(entries.drop_last(), i);
    }
}

} // verus!
