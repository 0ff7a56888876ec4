use vstd::prelude::*;
use vstd::std_specs::cmp::PartialEqSpec;

verus! {

/// A small association list that keeps keys in insertion order and never
/// holds a key that compares equal to one inserted before it.
pub struct FlatMap<K, V> {
    keys: Vec<K>,
    values: Vec<V>,
}

/// Index of the first key in `keys` equal (by `==`) to `key`, if any.
pub open spec fn first_match<K: PartialEq>(keys: Seq<K>, key: K) -> Option<int>
    decreases keys.len(),
{
    if keys.len() == 0 {
        None
    } else {
        match first_match(keys.drop_last(), key) {
            Some(i) => Some(i),
            None => if keys.last().eq_spec(&key) { Some(keys.len() - 1) } else { None },
        }
    }
}

pub proof fn lemma_first_match<K: PartialEq>(keys: Seq<K>, key: K)
    ensures
        match first_match(keys, key) {
            Some(i) => 0 <= i < keys.len() && keys[i].eq_spec(&key)
                && forall|j: int| 0 <= j < i ==> !(#[trigger] keys[j]).eq_spec(&key),
            None => forall|j: int| 0 <= j < keys.len() ==> !(#[trigger] keys[j]).eq_spec(&key),
        },
    decreases keys.len(),
{
    if keys.len() > 0 {
        lemma_first_match(keys.drop_last(), key);
        assert forall|j: int| 0 <= j < keys.len() - 1 implies #[trigger] keys[j] == keys.drop_last()[j] by {}
    }
}

/// No key compares equal to a key that comes after it.
pub open spec fn distinct_keys<K: PartialEq>(keys: Seq<K>) -> bool {
    forall|i: int, j: int| #![trigger keys[i], keys[j]] 0 <= i < j < keys.len() ==> !keys[i].eq_spec(&keys[j])
}

impl<K: Eq, V> FlatMap<K, V> {
    /// The keys, in insertion order.
    pub closed spec fn keys(&self) -> Seq<K> {
        self.keys@
    }

    /// The values, in insertion order; `values()[i]` belongs to `keys()[i]`.
    pub closed spec fn values(&self) -> Seq<V> {
        self.values@
    }

    /// One value per key, and no key equal to an earlier one.
    pub closed spec fn wf(&self) -> bool {
        &&& self.keys@.len() == self.values@.len()
        &&& distinct_keys(self.keys@)
    }

    /// A well-formed map holds one value per key, and no key of it compares
    /// equal to a key inserted before it.
    pub proof fn law_keys_distinct(&self)
        requires
            self.wf(),
        ensures
            distinct_keys(self.keys()),
            self.keys().len() == self.values().len(),
    {
    }

    pub fn new() -> (r: Self)
        ensures
            r.wf(),
            r.keys() == Seq::<K>::empty(),
            r.values() == Seq::<V>::empty(),
    {
        FlatMap { keys: Vec::new(), values: Vec::new() }
    }

    fn position(&self, key: &K) -> (r: Option<usize>)
        requires
            K::obeys_eq_spec(),
        ensures
            match r {
                Some(i) => first_match(self.keys@, *key) == Some(i as int) && i < self.keys@.len(),
                None => first_match(self.keys@, *key) is None,
            },
    {
        let mut i: usize = 0;
        while i < self.keys.len()
            invariant
                K::obeys_eq_spec(),
                i <= self.keys@.len(),
                first_match(self.keys@.subrange(0, i as int), *key) is None,
            decreases self.keys@.len() - i,
        {
            assert(self.keys@.subrange(0, i + 1).drop_last() == self.keys@.subrange(0, i as int));
            if self.keys[i] == *key {
                proof {
                    lemma_first_match(self.keys@, *key);
                    lemma_first_match(self.keys@.subrange(0, i as int), *key);
                    lemma_first_match(self.keys@.subrange(0, i + 1), *key);
                    assert(self.keys@.subrange(0, i + 1).last() == self.keys@[i as int]);
                    lemma_first_match_prefix(self.keys@, *key, i as int + 1);
                }
                return Some(i);
            }
            i += 1;
        }
        assert(self.keys@.subrange(0, i as int) == self.keys@);
        None
    }

    /// Adds `key` with `value` unless an equal key is already present.
    /// Returns whether the pair was added.
    pub fn insert(&mut self, key: K, value: V) -> (added: bool)
        requires
            old(self).wf(),
            K::obeys_eq_spec(),
        ensures
            final(self).wf(),
            added == (first_match(old(self).keys(), key) is None),
            added ==> final(self).keys() == old(self).keys().push(key)
                && final(self).values() == old(self).values().push(value),
            !added ==> final(self).keys() == old(self).keys()
                && final(self).values() == old(self).values(),
    {
        match self.position(&key) {
            Some(_) => false,
            None => {
                proof {
                    lemma_first_match(self.keys@, key);
                }
                let ghost before = self.keys@;
                self.keys.push(key);
                assert forall|i: int, j: int| #![trigger self.keys@[i], self.keys@[j]]
                    0 <= i < j < self.keys@.len() implies !self.keys@[i].eq_spec(&self.keys@[j]) by {
                    assert(self.keys@[i] == before[i]);
                    if j < before.len() {
                        assert(self.keys@[j] == before[j]);
                    }
                }
                self.values.push(value);
                true
            },
        }
    }

    /// The value of the first key equal to `key`.
    pub fn get(&self, key: K) -> (r: Option<&V>)
        requires
            self.wf(),
            K::obeys_eq_spec(),
        ensures
            match first_match(self.keys(), key) {
                Some(i) => r == Some(&self.values()[i]),
                None => r is None,
            },
            match r {
                Some(v) => found(self.keys(), self.values(), key) == Some(*v),
                None => found(self.keys(), self.values(), key) is None,
            },
    {
        match self.position(&key) {
            Some(index) => Some(&self.values[index]),
            None => None,
        }
    }

    /// Mutable access to the value of the first key equal to `key`.
    pub fn get_mut(&mut self, key: K) -> (r: Option<&mut V>)
        requires
            old(self).wf(),
            K::obeys_eq_spec(),
        ensures
            match first_match(old(self).keys(), key) {
                Some(i) => r matches Some(v) && *v == old(self).values()[i]
                    && final(self).keys() == old(self).keys()
                    && final(self).values() == old(self).values().update(i, *final(v)),
                None => r is None && *final(self) == *old(self),
            },
            final(self).wf(),
    {
        match self.position(&key) {
            Some(index) => Some(&mut self.values[index]),
            None => None,
        }
    }
}

pub proof fn lemma_first_match_prefix<K: PartialEq>(keys: Seq<K>, key: K, n: int)
    requires
        0 <= n <= keys.len(),
        first_match(keys.subrange(0, n), key) is Some,
    ensures
        first_match(keys, key) == first_match(keys.subrange(0, n), key),
    decreases keys.len() - n,
{
    if n < keys.len() {
        assert(keys.subrange(0, n + 1).drop_last() == keys.subrange(0, n));
        lemma_first_match_prefix(keys, key, n + 1);
    } else {
        assert(keys.subrange(0, n) == keys);
    }
}

} // verus!

verus! {

/// What a lookup of `key` finds among `keys` paired with `values`: the value
/// of the first key equal to it.
pub open spec fn found<K: PartialEq, V>(keys: Seq<K>, values: Seq<V>, key: K) -> Option<V> {
    match first_match(keys, key) {
        Some(i) => Some(values[i]),
        None => None,
    }
}

/// A `get` after an `insert` that added `key` finds the inserted value,
/// where keys compare equal exactly when they are the same value.
pub proof fn law_get_after_insert<K: PartialEq, V>(keys: Seq<K>, values: Seq<V>, key: K, value: V)
    requires
        keys.len() == values.len(),
        first_match(keys, key) is None,
        forall|a: K, b: K| #[trigger] a.eq_spec(&b) <==> a == b,
    ensures
        first_match(keys.push(key), key) == Some(keys.len() as int),
        found(keys.push(key), values.push(value), key) == Some(value),
{
    assert(key.eq_spec(&key));
    assert(keys.push(key).drop_last() =~= keys);
}

/// An `insert` keeps the keys pairwise different, where keys compare equal
/// exactly when they are the same value.
pub proof fn law_insert_keeps_keys_different<K: PartialEq>(keys: Seq<K>, key: K)
    requires
        forall|i: int, j: int| 0 <= i < keys.len() && 0 <= j < keys.len() && i != j ==> keys[i] != keys[j],
        forall|a: K, b: K| #[trigger] a.eq_spec(&b) <==> a == b,
    ensures
        ({
            let after = if first_match(keys, key) is None { keys.push(key) } else { keys };
            forall|i: int, j: int| 0 <= i < after.len() && 0 <= j < after.len() && i != j ==> after[i] != after[j]
        }),
{
    lemma_first_match(keys, key);
    if first_match(keys, key) is None {
        let after = keys.push(key);
        assert forall|i: int, j: int| 0 <= i < after.len() && 0 <= j < after.len() && i != j implies after[i] != after[j] by {
            if i == keys.len() {
                assert(!keys[j].eq_spec(&key));
            } else if j == keys.len() {
                assert(!keys[i].eq_spec(&key));
            }
        }
    }
}

/// A `get` after writing `w` through the reference that `get_mut` handed
/// out for `key` finds `w` for `key`, and for every other key what it found
/// before, where keys compare equal exactly when they are the same value.
pub proof fn law_write_through_get_mut<K: PartialEq, V>(
    keys: Seq<K>,
    values: Seq<V>,
    key: K,
    w: V,
    other: K,
)
    requires
        keys.len() == values.len(),
        first_match(keys, key) is Some,
        forall|a: K, b: K| #[trigger] a.eq_spec(&b) <==> a == b,
        other != key,
    ensures
        first_match(keys, key) matches Some(i) && found(keys, values.update(i, w), key) == Some(w)
            && found(keys, values.update(i, w), other) == found(keys, values, other),
{
    lemma_first_match(keys, key);
    lemma_first_match(keys, other);
}

/// Inserting a key leaves where every key already present is found.
pub proof fn law_insert_keeps_present_keys<K: PartialEq>(keys: Seq<K>, key: K, other: K)
    requires
        first_match(keys, other) is Some,
    ensures
        first_match(keys.push(key), other) == first_match(keys, other),
{
    assert(keys.push(key).drop_last() =~= keys);
}

} // verus!
