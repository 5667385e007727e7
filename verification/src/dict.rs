//! A dictionary keyed by strings that keeps its entries in the order in which
//! their keys first arrived.

use vstd::prelude::*;

verus! {

/// Whether entry `i` of `entries` has the key `key`.
pub open spec fn key_at<T>(entries: Seq<(Seq<char>, T)>, key: Seq<char>, i: int) -> bool {
    0 <= i < entries.len() && entries[i].0 == key
}

/// Whether some entry has the key `key`.
pub open spec fn has_key<T>(entries: Seq<(Seq<char>, T)>, key: Seq<char>) -> bool {
    exists|i: int| key_at(entries, key, i)
}

/// The place of an entry with the key `key`, where there is one.
pub open spec fn position<T>(entries: Seq<(Seq<char>, T)>, key: Seq<char>) -> int {
    choose|i: int| key_at(entries, key, i)
}

/// The value under `key`, if there is one.
pub open spec fn lookup<T>(entries: Seq<(Seq<char>, T)>, key: Seq<char>) -> Option<T> {
    if has_key(entries, key) {
        Some(entries[position(entries, key)].1)
    } else {
        None
    }
}

/// Whether no key occurs twice.
pub open spec fn distinct_keys<T>(entries: Seq<(Seq<char>, T)>) -> bool {
    forall|i: int, j: int| 0 <= i < j < entries.len() ==> entries[i].0 != entries[j].0
}

/// The entries with `value` under `key`: in the place of the entry that had
/// the key, or at the end where none had it.
pub open spec fn put<T>(entries: Seq<(Seq<char>, T)>, key: Seq<char>, value: T) -> Seq<
    (Seq<char>, T),
> {
    if has_key(entries, key) {
        entries.update(position(entries, key), (key, value))
    } else {
        entries.push((key, value))
    }
}

/// The entries as a map from key to value.
pub open spec fn as_map<T>(entries: Seq<(Seq<char>, T)>) -> Map<Seq<char>, T> {
    Map::new(|k: Seq<char>| has_key(entries, k), |k: Seq<char>| entries[position(entries, k)].1)
}

/// Among distinct keys, the entry that has a key is the one `position` names.
pub proof fn lemma_position_unique<T>(entries: Seq<(Seq<char>, T)>, key: Seq<char>, i: int)
    requires
        distinct_keys(entries),
        key_at(entries, key, i),
    ensures
        has_key(entries, key),
        position(entries, key) == i,
{
    let p = position(entries, key);
    assert(key_at(entries, key, p));
    if p < i {
        assert(entries[p].0 != entries[i].0);
    } else if i < p {
        assert(entries[i].0 != entries[p].0);
    }
}

/// Putting a value keeps the keys distinct, and in the map it is an insertion.
pub proof fn lemma_put<T>(entries: Seq<(Seq<char>, T)>, key: Seq<char>, value: T)
    requires
        distinct_keys(entries),
    ensures
        distinct_keys(put(entries, key, value)),
        as_map(put(entries, key, value)) == as_map(entries).insert(key, value),
        lookup(put(entries, key, value), key) == Some(value),
{
    let after = put(entries, key, value);
    let at = if has_key(entries, key) {
        position(entries, key)
    } else {
        entries.len() as int
    };
    if has_key(entries, key) {
        assert(key_at(entries, key, at));
    }
    assert(key_at(after, key, at));
    assert(forall|i: int| 0 <= i < after.len() ==> #[trigger] after[i].0 == (if i == at {
        key
    } else {
        entries[i].0
    }));
    assert(distinct_keys(after)) by {
        assert forall|i: int, j: int| 0 <= i < j < after.len() implies after[i].0
            != after[j].0 by {
            if i == at {
                assert(!key_at(entries, key, j));
            } else if j == at {
                assert(!key_at(entries, key, i));
            }
        }
    }
    lemma_position_unique(after, key, at);
    assert forall|k: Seq<char>| has_key(after, k) == (k == key || has_key(entries, k)) by {
        if has_key(after, k) {
            let p = position(after, k);
            assert(key_at(after, k, p));
            if k != key {
                assert(key_at(entries, k, p));
            }
        }
        if k != key && has_key(entries, k) {
            let p = position(entries, k);
            assert(key_at(entries, k, p));
            assert(key_at(after, k, p));
        }
    }
    assert forall|k: Seq<char>| k != key && has_key(entries, k) implies after[position(after, k)].1
        == entries[position(entries, k)].1 by {
        let p = position(entries, k);
        assert(key_at(entries, k, p));
        assert(key_at(after, k, p));
        lemma_position_unique(after, k, p);
    }
    assert(as_map(after) =~= as_map(entries).insert(key, value));
}

/// The entries with each value replaced by its model.
pub open spec fn deepen<V: DeepView>(entries: Seq<(Seq<char>, V)>) -> Seq<(Seq<char>, V::V)> {
    Seq::new(entries.len(), |i: int| (entries[i].0, entries[i].1.deep_view()))
}

/// Replacing the values by their models moves no key.
pub proof fn lemma_deepen_keys<V: DeepView>(entries: Seq<(Seq<char>, V)>, key: Seq<char>)
    requires
        distinct_keys(entries),
    ensures
        distinct_keys(deepen(entries)),
        has_key(deepen(entries), key) == has_key(entries, key),
        has_key(entries, key) ==> position(deepen(entries), key) == position(entries, key),
        lookup(deepen(entries), key) == match lookup(entries, key) {
            Some(v) => Some(v.deep_view()),
            None => None,
        },
{
    let deep = deepen(entries);
    assert(distinct_keys(deep)) by {
        assert forall|i: int, j: int| 0 <= i < j < deep.len() implies deep[i].0 != deep[j].0 by {
            assert(entries[i].0 != entries[j].0);
        }
    }
    if has_key(entries, key) {
        let p = position(entries, key);
        assert(key_at(entries, key, p));
        assert(key_at(deep, key, p));
        lemma_position_unique(deep, key, p);
    }
    if has_key(deep, key) {
        let p = position(deep, key);
        assert(key_at(deep, key, p));
        assert(key_at(entries, key, p));
    }
}

/// Putting a value and then taking models is putting the value's model.
pub proof fn lemma_deepen_put<V: DeepView>(entries: Seq<(Seq<char>, V)>, key: Seq<char>, value: V)
    requires
        distinct_keys(entries),
    ensures
        deepen(put(entries, key, value)) == put(deepen(entries), key, value.deep_view()),
{
    lemma_deepen_keys(entries, key);
    assert(deepen(put(entries, key, value)) =~= put(deepen(entries), key, value.deep_view()));
}

/// Entries under string keys, no key twice, in the order of first arrival.
#[derive(Debug, PartialEq)]
pub struct Dict<V> {
    keys: Vec<String>,
    values: Vec<V>,
}

impl<V> View for Dict<V> {
    type V = Seq<(Seq<char>, V)>;

    closed spec fn view(&self) -> Seq<(Seq<char>, V)> {
        Seq::new(self.keys@.len(), |i: int| (self.keys@[i]@, self.values@[i]))
    }
}

impl<V: DeepView> DeepView for Dict<V> {
    type V = Seq<(Seq<char>, V::V)>;

    open spec fn deep_view(&self) -> Seq<(Seq<char>, V::V)> {
        deepen(self@)
    }
}

impl<V> Dict<V> {
    #[verifier::type_invariant]
    spec fn well_formed(self) -> bool {
        &&& self.keys@.len() == self.values@.len()
        &&& forall|i: int, j: int|
            0 <= i < j < self.keys@.len() ==> self.keys@[i]@ != self.keys@[j]@
    }

    /// The empty dictionary.
    pub fn new() -> (r: Self)
        ensures
            r@ == Seq::<(Seq<char>, V)>::empty(),
    {
        let r = Dict { keys: Vec::new(), values: Vec::new() };
        assert(r@ =~= Seq::<(Seq<char>, V)>::empty());
        r
    }

    /// The number of entries. No key occurs twice among them.
    pub fn len(&self) -> (n: usize)
        ensures
            n == self@.len(),
            distinct_keys(self@),
    {
        proof {
            use_type_invariant(self);
        }
        self.keys.len()
    }

    /// The place of the entry under `key`, if there is one.
    pub fn find(&self, key: &str) -> (r: Option<usize>)
        ensures
            distinct_keys(self@),
            match r {
                Some(i) => key_at(self@, key@, i as int) && position(self@, key@) == i,
                None => true,
            },
            r is Some == has_key(self@, key@),
    {
        proof {
            use_type_invariant(self);
        }
        let mut i: usize = 0;
        while i < self.keys.len()
            invariant
                i <= self.keys@.len(),
                self.keys@.len() == self@.len(),
                distinct_keys(self@),
                forall|j: int| 0 <= j < i ==> !key_at(self@, key@, j),
            decreases self.keys@.len() - i,
        {
            if *self.keys[i].as_str() == *key {
                proof {
                    lemma_position_unique(self@, key@, i as int);
                }
                return Some(i);
            }
            i += 1;
        }
        None
    }

    /// Whether there is an entry under `key`.
    pub fn contains_key(&self, key: &str) -> (r: bool)
        ensures
            r == has_key(self@, key@),
    {
        self.find(key).is_some()
    }

    /// The key of entry `i`.
    pub fn key(&self, i: usize) -> (r: &String)
        requires
            i < self@.len(),
        ensures
            r@ == self@[i as int].0,
    {
        proof {
            use_type_invariant(self);
        }
        &self.keys[i]
    }

    /// The value of entry `i`.
    pub fn value(&self, i: usize) -> (r: &V)
        requires
            i < self@.len(),
        ensures
            *r == self@[i as int].1,
    {
        proof {
            use_type_invariant(self);
        }
        &self.values[i]
    }

    /// The value under `key`, if there is one.
    pub fn get(&self, key: &str) -> (r: Option<&V>)
        ensures
            match r {
                Some(v) => lookup(self@, key@) == Some(*v),
                None => lookup(self@, key@) is None,
            },
    {
        match self.find(key) {
            Some(i) => Some(self.value(i)),
            None => None,
        }
    }

    /// The value under `key`, to be changed in place, if there is one. The
    /// other entries stay as they are.
    pub fn get_mut(&mut self, key: &str) -> (r: Option<&mut V>)
        ensures
            match r {
                Some(v) => {
                    &&& lookup(old(self)@, key@) == Some(*v)
                    &&& final(self)@ == put(old(self)@, key@, *final(v))
                },
                None => lookup(old(self)@, key@) is None && final(self)@ == old(self)@,
            },
    {
        proof {
            use_type_invariant(&*self);
        }
        match self.find(key) {
            Some(i) => {
                let ghost before = self@;
                let slot = &mut self.values[i];
                proof {
                    let now = Seq::new(
                        self.keys@.len(),
                        |j: int| (self.keys@[j]@, old(self).values@.update(i as int, *final(slot))[j]),
                    );
                    assert(now =~= put(before, key@, *final(slot)));
                }
                Some(slot)
            },
            None => None,
        }
    }

    /// Puts `value` under `key`: in the place of the value that was there, or
    /// as a new last entry.
    pub fn insert(&mut self, key: String, value: V)
        ensures
            final(self)@ == put(old(self)@, key@, value),
    {
        proof {
            use_type_invariant(&*self);
        }
        match self.find(key.as_str()) {
            Some(i) => {
                self.values[i] = value;
                assert(self@ =~= put(old(self)@, key@, value));
            },
            None => {
                proof {
                    assert forall|j: int| 0 <= j < self.keys@.len() implies self.keys@[j]@
                        != key@ by {
                        assert(!key_at(self@, key@, j));
                    }
                }
                let mut taken = Dict { keys: Vec::new(), values: Vec::new() };
                std::mem::swap(self, &mut taken);
                let Dict { keys: mut keys, values: mut values } = taken;
                keys.push(key);
                values.push(value);
                *self = Dict { keys, values };
                assert(self@ =~= put(old(self)@, key@, value));
            },
        }
    }
}

impl<V: Clone> Clone for Dict<V> {
    fn clone(&self) -> (r: Self)
        ensures
            r@.len() == self@.len(),
            forall|i: int|
                0 <= i < self@.len() ==> r@[i].0 == self@[i].0 && cloned(
                    self@[i].1,
                    #[trigger] r@[i].1,
                ),
    {
        proof {
            use_type_invariant(self);
        }
        let keys = self.keys.clone();
        let values = self.values.clone();
        Dict { keys, values }
    }
}

} // verus!
