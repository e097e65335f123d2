//! Caches: values found again by key.
use vstd::prelude::*;

use std::any::TypeId;

verus! {

/// Declares [`std::any::TypeId`]: what identifies a type.
#[verifier::external_type_specification]
#[verifier::external_body]
pub struct ExTypeId(std::any::TypeId);

/// [`TypeId::of`], so that contracts can speak of what it gives. Nothing is said of the result here:
/// see [`type_id_of`].
pub assume_specification<T: ?Sized + 'static>[ std::any::TypeId::of::<T> ]() -> (r: TypeId);

/// What identifies the type `T`: what [`TypeId::of`] gives for it.
pub open spec fn type_key<T: 'static>() -> TypeId {
    choose|id: TypeId| call_ensures(std::any::TypeId::of::<T>, (), id)
}

/// [`TypeId::of`]: what identifies the type, the same each time.
#[verifier::external_body]
pub(crate) fn type_id_of<T: 'static>() -> (r: TypeId)
    ensures
        r == type_key::<T>(),
{
    TypeId::of::<T>()
}

/// `==` on [`TypeId`]s: whether they identify the same type.
#[verifier::external_body]
pub(crate) fn same_type_id(one: &TypeId, other: &TypeId) -> (r: bool)
    ensures
        r == (*one == *other),
{
    one == other
}

/// An entity of the world, by its bits.
#[derive(Clone, Copy, Debug, PartialEq, Eq, Structural)]
pub struct Entity {
    pub bits: u64,
}

/// A component of the world, by its index.
#[derive(Clone, Copy, Debug, PartialEq, Eq, Structural)]
pub struct ComponentId {
    pub index: usize,
}

/// What a cache can be keyed by.
pub trait Key: Sized {
    /// Whether the keys are the same.
    fn same(&self, other: &Self) -> (r: bool)
        ensures
            r == (*self == *other),
    ;
}

impl Key for TypeId {
    fn same(&self, other: &Self) -> (r: bool) {
        same_type_id(self, other)
    }
}

impl Key for (Entity, TypeId) {
    fn same(&self, other: &Self) -> (r: bool) {
        self.0 == other.0 && same_type_id(&self.1, &other.1)
    }
}

/// Values by key.
pub struct Cache<K, V> {
    entries: Vec<(K, V)>,
}

/// Where the key stands; the length if it does not.
pub open spec fn key_index<K, V>(entries: Seq<(K, V)>, key: K) -> int
    decreases entries.len(),
{
    if entries.len() == 0 || entries[0].0 == key {
        0
    } else {
        1 + key_index(entries.drop_first(), key)
    }
}

/// `key_index` is the first place of the key, and the length if it has none.
pub proof fn lemma_key_index<K, V>(entries: Seq<(K, V)>, key: K)
    ensures
        0 <= key_index(entries, key) <= entries.len(),
        key_index(entries, key) < entries.len() ==> entries[key_index(entries, key)].0 == key,
        forall|i: int| 0 <= i < key_index(entries, key) ==> (#[trigger] entries[i]).0 != key,
    decreases entries.len(),
{
    if entries.len() > 0 && entries[0].0 != key {
        let rest = entries.drop_first();
        lemma_key_index(rest, key);
        assert forall|i: int| 0 <= i < key_index(entries, key) implies (#[trigger] entries[i]).0
            != key by {
            if i > 0 {
                assert(entries[i] == rest[i - 1]);
            }
        }
    }
}

impl<K, V> View for Cache<K, V> {
    type V = Map<K, V>;

    closed spec fn view(&self) -> Map<K, V> {
        Map::new(
            |key: K| key_index(self.entries@, key) < self.entries@.len(),
            |key: K| self.entries@[key_index(self.entries@, key)].1,
        )
    }
}

impl<K, V> Cache<K, V> {
    /// No key stands twice.
    #[verifier::type_invariant]
    spec fn keys_distinct(self) -> bool {
        forall|i: int, j: int|
            0 <= i < j < self.entries@.len() ==> (#[trigger] self.entries@[i]).0
                != (#[trigger] self.entries@[j]).0
    }

    /// An empty cache.
    pub fn new() -> (r: Cache<K, V>)
        ensures
            r@ == Map::<K, V>::empty(),
    {
        let r = Cache { entries: Vec::new() };
        assert(r@ =~= Map::<K, V>::empty());
        r
    }
}

impl<K: Key, V> Cache<K, V> {
    /// Where the key stands; the length if it does not.
    fn index_of(&self, key: &K) -> (r: usize)
        ensures
            r == key_index(self.entries@, *key),
            r <= self.entries@.len(),
            r < self.entries@.len() ==> self.entries@[r as int].0 == *key,
            forall|i: int| 0 <= i < r ==> (#[trigger] self.entries@[i]).0 != *key,
    {
        let mut i: usize = 0;
        proof {
            lemma_key_index(self.entries@, *key);
        }
        while i < self.entries.len()
            invariant
                i <= self.entries@.len(),
                forall|j: int| 0 <= j < i ==> (#[trigger] self.entries@[j]).0 != *key,
                0 <= key_index(self.entries@, *key) <= self.entries@.len(),
                key_index(self.entries@, *key) < self.entries@.len()
                    ==> self.entries@[key_index(self.entries@, *key)].0 == *key,
                forall|j: int|
                    0 <= j < key_index(self.entries@, *key) ==> (#[trigger] self.entries@[j]).0
                        != *key,
            decreases self.entries@.len() - i,
        {
            if self.entries[i].0.same(key) {
                assert(self.entries@[i as int].0 == *key);
                return i;
            }
            i += 1;
        }
        i
    }

    /// Whether there is a value for the key.
    pub fn contains_key(&self, key: &K) -> (r: bool)
        ensures
            r == self@.contains_key(*key),
    {
        self.index_of(key) < self.entries.len()
    }

    /// The value for the key, if there is one.
    pub fn get(&self, key: &K) -> (r: Option<&V>)
        ensures
            match r {
                Some(value) => self@.contains_key(*key) && *value == self@[*key],
                None => !self@.contains_key(*key),
            },
    {
        let i = self.index_of(key);
        if i < self.entries.len() {
            Some(&self.entries[i].1)
        } else {
            None
        }
    }

    /// Sets the value for the key, in place of the one that it had, if any.
    pub fn insert(&mut self, key: K, value: V)
        ensures
            final(self)@ == old(self)@.insert(key, value),
    {
        proof {
            use_type_invariant(&*self);
        }
        let ghost before = self.entries@;
        let i = self.index_of(&key);
        let mut entries: Vec<(K, V)> = Vec::new();
        std::mem::swap(&mut entries, &mut self.entries);
        if i < entries.len() {
            entries.set(i, (key, value));
        } else {
            entries.push((key, value));
        }
        let ghost after = entries@;
        self.entries = entries;
        proof {
            assert forall|k: K| k != key implies #[trigger] key_index(after, k) == if i
                == before.len() && key_index(before, k) == before.len() {
                key_index(before, k) + 1
            } else {
                key_index(before, k)
            } by {
                lemma_key_index(before, k);
                lemma_key_index(after, k);
                let a = key_index(after, k);
                let b = key_index(before, k);
                if b < before.len() {
                    assert(after[b] == before[b]);
                }
                if a < before.len() && a != i {
                    assert(after[a] == before[a]);
                }
            }
            lemma_key_index(before, key);
            lemma_key_index(after, key);
            assert(after[i as int] == (key, value));
            let k = key_index(after, key);
            if k < i {
                assert(after[k] == before[k]);
            }
            assert forall|k: K| #[trigger] self@.contains_key(k) == old(self)@.insert(
                key,
                value,
            ).contains_key(k) by {
                lemma_key_index(before, k);
            }
            assert forall|k: K| #[trigger] self@.contains_key(k) implies self@[k]
                == old(self)@.insert(key, value)[k] by {
                lemma_key_index(before, k);
                if k != key {
                    assert(after[key_index(before, k)] == before[key_index(before, k)]);
                }
            }
            assert(self@ =~= old(self)@.insert(key, value));
        }
    }
}

} // verus!
