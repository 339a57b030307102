//! An insertion-ordered map from names to values.
//!
//! The names live in an `indexmap::IndexMap`, which finds the position of a
//! name; the values live in a vector, at the position that the index gives.

use indexmap::IndexMap;
use vstd::prelude::*;

verus! {

#[verifier::external_type_specification]
#[verifier::external_body]
#[verifier::reject_recursive_types(K)]
#[verifier::reject_recursive_types(V)]
#[verifier::reject_recursive_types(S)]
pub struct ExIndexMap<K, V, S>(IndexMap<K, V, S>);

/// The names and the positions held by a name index, in insertion order.
pub uninterp spec fn index_entries(m: IndexMap<String, usize>) -> Seq<(Seq<char>, usize)>;

/// `IndexMap::new`: the new index holds nothing.
#[verifier::external_body]
fn index_new() -> (m: IndexMap<String, usize>)
    ensures
        index_entries(m) == Seq::<(Seq<char>, usize)>::empty(),
{
    IndexMap::new()
}

/// `IndexMap::get`: the value stored under `key`, or `None` where no entry has
/// that key.
#[verifier::external_body]
fn index_get(m: &IndexMap<String, usize>, key: &str) -> (r: Option<usize>)
    ensures
        match r {
            Some(v) => exists|j: int|
                0 <= j < index_entries(*m).len() && #[trigger] index_entries(*m)[j] == (key@, v),
            None => forall|j: int|
                0 <= j < index_entries(*m).len() ==> (#[trigger] index_entries(*m)[j]).0 != key@,
        },
{
    m.get(key).copied()
}

/// `IndexMap::get_index`: the key of the entry at position `i`, for an `i`
/// below the length.
#[verifier::external_body]
fn index_key_at(m: &IndexMap<String, usize>, i: usize) -> (k: &String)
    requires
        i < index_entries(*m).len(),
    ensures
        k@ == index_entries(*m)[i as int].0,
{
    m.get_index(i).unwrap().0
}

/// `IndexMap::insert`: where an entry has the key, it keeps its place and its
/// key, takes the new value and the old value is returned; where none has, the
/// pair is added last and `None` is returned.
#[verifier::external_body]
fn index_insert(m: &mut IndexMap<String, usize>, key: String, value: usize) -> (r: Option<usize>)
    ensures
        forall|j: int|
            0 <= j < index_entries(*old(m)).len() && (#[trigger] index_entries(*old(m))[j]).0
                == key@ ==> {
                &&& index_entries(*final(m)) == index_entries(*old(m)).update(j, (key@, value))
                &&& r == Some(index_entries(*old(m))[j].1)
            },
        (forall|j: int|
            0 <= j < index_entries(*old(m)).len() ==> (#[trigger] index_entries(*old(m))[j]).0
                != key@) ==> {
            &&& index_entries(*final(m)) == index_entries(*old(m)).push((key@, value))
            &&& r.is_none()
        },
{
    m.insert(key, value)
}

/// The first position in `keys` that holds `key`, or `keys.len()`.
pub open spec fn first_position(keys: Seq<Seq<char>>, key: Seq<char>) -> int
    decreases keys.len(),
{
    if keys.len() == 0 {
        0
    } else if keys[0] == key {
        0
    } else {
        1 + first_position(keys.drop_first(), key)
    }
}

/// No key stands at two positions.
pub open spec fn distinct_keys(keys: Seq<Seq<char>>) -> bool {
    forall|i: int, j: int| 0 <= i < j < keys.len() ==> keys[i] != keys[j]
}

/// `first_position` is in range, holds the key where it is below the length,
/// and no earlier position holds it.
pub proof fn lemma_first_position(keys: Seq<Seq<char>>, key: Seq<char>)
    ensures
        0 <= first_position(keys, key) <= keys.len(),
        first_position(keys, key) < keys.len() ==> keys[first_position(keys, key)] == key,
        forall|i: int| 0 <= i < first_position(keys, key) ==> keys[i] != key,
    decreases keys.len(),
{
    if keys.len() > 0 && keys[0] != key {
        let rest = keys.drop_first();
        lemma_first_position(rest, key);
        assert forall|i: int| 0 <= i < first_position(keys, key) implies keys[i] != key by {
            if i > 0 {
                assert(rest[i - 1] == keys[i]);
            }
        }
    }
}

/// A position that holds the key, with no earlier one that does, is the first
/// position.
pub proof fn lemma_first_position_is(keys: Seq<Seq<char>>, key: Seq<char>, i: int)
    requires
        0 <= i <= keys.len(),
        i < keys.len() ==> keys[i] == key,
        forall|j: int| 0 <= j < i ==> keys[j] != key,
    ensures
        first_position(keys, key) == i,
{
    lemma_first_position(keys, key);
}

/// A key that occurs has its first position below the length, and stands
/// there.
pub proof fn lemma_position_of_present(keys: Seq<Seq<char>>, key: Seq<char>)
    requires
        keys.contains(key),
    ensures
        0 <= first_position(keys, key) < keys.len(),
        keys[first_position(keys, key)] == key,
{
    lemma_first_position(keys, key);
    let i = choose|i: int| 0 <= i < keys.len() && keys[i] == key;
    if first_position(keys, key) > i {
        assert(keys[i] != key);
    }
}

/// An insertion-ordered map from names to values of type `V`.
#[derive(Debug)]
pub struct OrderedMap<V> {
    index: IndexMap<String, usize>,
    values: Vec<V>,
}

impl<V> OrderedMap<V> {
    #[verifier::type_invariant]
    spec fn well_formed(&self) -> bool {
        &&& index_entries(self.index).len() == self.values@.len()
        &&& forall|i: int|
            0 <= i < self.values@.len() ==> (#[trigger] index_entries(self.index)[i]).1 == i
        &&& forall|i: int, j: int|
            0 <= i < j < self.values@.len() ==> (#[trigger] index_entries(self.index)[i]).0 != (
            #[trigger] index_entries(self.index)[j]).0
    }

    /// The names, in insertion order.
    pub closed spec fn keys(&self) -> Seq<Seq<char>> {
        Seq::new(self.values@.len(), |i: int| index_entries(self.index)[i].0)
    }

    /// The values, each at the position of its name.
    pub closed spec fn values(&self) -> Seq<V> {
        self.values@
    }

    /// Whether an entry has the name `key`.
    pub open spec fn has(&self, key: Seq<char>) -> bool {
        self.keys().contains(key)
    }

    /// The position of the entry named `key`, or the length where none is.
    pub open spec fn position(&self, key: Seq<char>) -> int {
        first_position(self.keys(), key)
    }

    /// The names with their values.
    pub open spec fn entries(&self) -> Entries<V> {
        Entries { keys: self.keys(), values: self.values() }
    }

    /// The value stored under `key`.
    pub open spec fn value_of(&self, key: Seq<char>) -> V
        recommends
            self.has(key),
    {
        self.values()[self.position(key)]
    }

    /// Keys and values have one length.
    pub proof fn lemma_same_length(&self)
        ensures
            self.keys().len() == self.values().len(),
    {
    }

    /// No name occurs twice in a map.
    pub fn keys_are_distinct(&self)
        ensures
            distinct_keys(self.keys()),
            self.keys().len() == self.values().len(),
    {
        proof {
            use_type_invariant(self);
        }
    }

    /// A map with no entries.
    pub fn new() -> (m: Self)
        ensures
            m.keys() == Seq::<Seq<char>>::empty(),
            m.values() == Seq::<V>::empty(),
    {
        let m = OrderedMap { index: index_new(), values: Vec::new() };
        assert(m.keys() =~= Seq::<Seq<char>>::empty());
        m
    }

    /// The number of entries.
    pub fn len(&self) -> (n: usize)
        ensures
            n == self.keys().len(),
    {
        self.values.len()
    }

    /// Whether the map has no entries.
    pub fn is_empty(&self) -> (b: bool)
        ensures
            b == (self.keys().len() == 0),
    {
        self.values.len() == 0
    }

    /// The position of the entry named `key`.
    pub fn get_index_of(&self, key: &str) -> (r: Option<usize>)
        ensures
            match r {
                Some(i) => self.has(key@) && i == self.position(key@) && i < self.keys().len(),
                None => !self.has(key@),
            },
    {
        proof {
            use_type_invariant(self);
        }
        let r = index_get(&self.index, key);
        proof {
            let entries = index_entries(self.index);
            match r {
                Some(v) => {
                    let j = choose|j: int| 0 <= j < entries.len() && #[trigger] entries[j] == (key@, v);
                    assert(self.keys()[j] == key@);
                    assert forall|i: int| 0 <= i < j implies self.keys()[i] != key@ by {
                        assert(entries[i].0 != entries[j].0);
                    }
                    lemma_first_position_is(self.keys(), key@, j);
                },
                None => {
                    assert forall|i: int| 0 <= i < self.keys().len() implies self.keys()[i]
                        != key@ by {
                        assert(entries[i].0 != key@);
                    }
                },
            }
        }
        r
    }

    /// Whether an entry has the name `key`.
    pub fn contains_key(&self, key: &str) -> (b: bool)
        ensures
            b == self.has(key@),
    {
        self.get_index_of(key).is_some()
    }

    /// The value stored under `key`.
    pub fn get(&self, key: &str) -> (r: Option<&V>)
        ensures
            match r {
                Some(v) => self.has(key@) && 0 <= self.position(key@) < self.values().len() && *v
                    == self.value_of(key@),
                None => !self.has(key@),
            },
    {
        match self.get_index_of(key) {
            Some(i) => Some(&self.values[i]),
            None => None,
        }
    }

    /// The name at position `i`.
    pub fn key_at(&self, i: usize) -> (k: &String)
        requires
            i < self.keys().len(),
        ensures
            k@ == self.keys()[i as int],
    {
        proof {
            use_type_invariant(self);
        }
        index_key_at(&self.index, i)
    }

    /// The value at position `i`.
    pub fn value_at(&self, i: usize) -> (v: &V)
        requires
            i < self.keys().len(),
        ensures
            *v == self.values()[i as int],
    {
        &self.values[i]
    }

    /// Stores `value` under `key`. A new name is added last; a known name
    /// keeps its place and gives back the value it had.
    pub fn insert(&mut self, key: String, value: V) -> (r: Option<V>)
        ensures
            old(self).has(key@) ==> {
                &&& final(self).keys() == old(self).keys()
                &&& final(self).values() == old(self).values().update(
                    old(self).position(key@),
                    value,
                )
                &&& r == Some(old(self).value_of(key@))
            },
            !old(self).has(key@) ==> {
                &&& final(self).keys() == old(self).keys().push(key@)
                &&& final(self).values() == old(self).values().push(value)
                &&& r.is_none()
            },
            final(self).entries() == old(self).entries().put(key@, value),
    {
        let found = self.get_index_of(key.as_str());
        let ghost before = *self;
        let mut taken = OrderedMap::new();
        std::mem::swap(self, &mut taken);
        proof {
            use_type_invariant(&taken);
        }
        let OrderedMap { index, values } = taken;
        let mut index = index;
        let mut values = values;
        match found {
            Some(i) => {
                values.push(value);
                let previous = values.swap_remove(i);
                *self = OrderedMap { index, values };
                assert(self.values@ =~= before.values@.update(i as int, value));
                assert(self.keys() =~= before.keys());
                Some(previous)
            },
            None => {
                let n = values.len();
                let ghost entries = index_entries(index);
                assert forall|j: int| 0 <= j < entries.len() implies (#[trigger] entries[j]).0
                    != key@ by {
                    assert(before.keys()[j] == entries[j].0);
                }
                index_insert(&mut index, key, n);
                values.push(value);
                *self = OrderedMap { index, values };
                assert(self.keys() =~= before.keys().push(key@));
                None
            },
        }
    }
}

impl<V: Clone> Clone for OrderedMap<V> {
    /// A map with the same names in the same order, each with a clone of its
    /// value.
    fn clone(&self) -> (m: Self)
        ensures
            m.keys() == self.keys(),
            m.values().len() == self.values().len(),
            forall|i: int|
                0 <= i < self.values().len() ==> cloned(
                    #[trigger] self.values()[i],
                    m.values()[i],
                ),
    {
        let mut m: OrderedMap<V> = OrderedMap::new();
        let n = self.len();
        let mut i: usize = 0;
        self.keys_are_distinct();
        while i < n
            invariant
                n == self.keys().len(),
                n == self.values().len(),
                distinct_keys(self.keys()),
                0 <= i <= n,
                m.keys() == self.keys().subrange(0, i as int),
                m.values().len() == i,
                forall|k: int| 0 <= k < i ==> cloned(#[trigger] self.values()[k], m.values()[k]),
            decreases n - i,
        {
            let key = self.key_at(i).clone();
            let value = self.value_at(i).clone();
            proof {
                if m.has(key@) {
                    let j = choose|j: int| 0 <= j < m.keys().len() && m.keys()[j] == key@;
                    assert(self.keys()[j] == self.keys()[i as int]);
                }
            }
            m.insert(key, value);
            assert(m.keys() =~= self.keys().subrange(0, i + 1));
            i = i + 1;
        }
        assert(m.keys() =~= self.keys());
        m
    }
}

/// Names with their values, in order: the mathematical model of a map.
pub struct Entries<V> {
    pub keys: Seq<Seq<char>>,
    pub values: Seq<V>,
}

impl<V> Entries<V> {
    /// The map without entries.
    pub open spec fn empty() -> Entries<V> {
        Entries { keys: Seq::empty(), values: Seq::empty() }
    }

    /// The map after `value` is stored under `key`: a known key keeps its
    /// place, a new one comes last.
    pub open spec fn put(self, key: Seq<char>, value: V) -> Entries<V> {
        if self.keys.contains(key) {
            Entries {
                keys: self.keys,
                values: self.values.update(first_position(self.keys, key), value),
            }
        } else {
            Entries { keys: self.keys.push(key), values: self.values.push(value) }
        }
    }

    /// The value stored under `key`, where there is one.
    pub open spec fn get(self, key: Seq<char>) -> Option<V> {
        if self.keys.contains(key) {
            Some(self.values[first_position(self.keys, key)])
        } else {
            None
        }
    }

    /// What is stored under a key is what was put there last; the other keys
    /// keep what they had.
    pub proof fn lemma_put_get(self, key: Seq<char>, value: V, other: Seq<char>)
        requires
            self.keys.len() == self.values.len(),
        ensures
            self.put(key, value).keys.len() == self.put(key, value).values.len(),
            self.put(key, value).get(key) == Some(value),
            other != key ==> self.put(key, value).get(other) == self.get(other),
    {
        let after = self.put(key, value);
        if self.keys.contains(key) {
            lemma_position_of_present(self.keys, key);
            if self.keys.contains(other) {
                lemma_position_of_present(self.keys, other);
            }
        } else {
            let n = self.keys.len() as int;
            assert(after.keys[n] == key);
            assert forall|j: int| 0 <= j < n implies after.keys[j] != key by {
                if after.keys[j] == key {
                    assert(self.keys[j] == key);
                }
            }
            lemma_first_position_is(after.keys, key, n);
            if other != key {
                if self.keys.contains(other) {
                    lemma_position_of_present(self.keys, other);
                    let p = first_position(self.keys, other);
                    lemma_first_position(self.keys, other);
                    assert(after.keys[p] == other);
                    assert forall|j: int| 0 <= j < p implies after.keys[j] != other by {
                        assert(after.keys[j] == self.keys[j]);
                    }
                    lemma_first_position_is(after.keys, other, p);
                } else {
                    assert forall|j: int| 0 <= j < after.keys.len() implies after.keys[j]
                        != other by {
                        if j < n {
                            assert(after.keys[j] == self.keys[j]);
                        }
                    }
                }
            }
        }
    }
}

/// Names with their texts, in order: the mathematical model of a map whose
/// values are text.
pub type TextMap = Entries<Seq<char>>;

/// The model of an optional map of texts.
pub open spec fn optional_model(m: Option<OrderedMap<String>>) -> Option<TextMap> {
    match m {
        Some(m) => Some(m.model()),
        None => None,
    }
}

impl OrderedMap<String> {
    /// The names with their texts.
    pub open spec fn model(&self) -> TextMap {
        Entries { keys: self.keys(), values: self.texts() }
    }

    /// Stores `text` under `key`.
    pub fn put(&mut self, key: String, text: String)
        ensures
            final(self).model() == old(self).model().put(key@, text@),
    {
        proof {
            self.lemma_same_length();
            if self.has(key@) {
                lemma_position_of_present(self.keys(), key@);
            }
        }
        let ghost before = self.texts();
        let ghost position = self.position(key@);
        let ghost known = self.has(key@);
        self.insert(key, text);
        proof {
            if known {
                assert(self.texts() =~= before.update(position, text@));
            } else {
                assert(self.texts() =~= before.push(text@));
            }
        }
    }

    /// The text stored under `key`, where there is one.
    pub fn text(&self, key: &str) -> (r: Option<&String>)
        ensures
            match r {
                Some(t) => self.model().get(key@) == Some(t@),
                None => self.model().get(key@).is_none(),
            },
    {
        self.get(key)
    }
    /// The values as mathematical text, each at the position of its name.
    pub open spec fn texts(&self) -> Seq<Seq<char>> {
        Seq::new(self.values().len(), |i: int| self.values()[i]@)
    }

    /// A map with the same names and the same texts, in the same order.
    pub fn duplicate(&self) -> (m: OrderedMap<String>)
        ensures
            m.keys() == self.keys(),
            m.texts() == self.texts(),
    {
        let mut m: OrderedMap<String> = OrderedMap::new();
        let n = self.len();
        let mut i: usize = 0;
        self.keys_are_distinct();
        while i < n
            invariant
                n == self.keys().len(),
                n == self.values().len(),
                distinct_keys(self.keys()),
                0 <= i <= n,
                m.keys() == self.keys().subrange(0, i as int),
                m.texts() == self.texts().subrange(0, i as int),
            decreases n - i,
        {
            let key = self.key_at(i).clone();
            let value = self.value_at(i).clone();
            proof {
                m.lemma_same_length();
                if m.has(key@) {
                    let j = choose|j: int| 0 <= j < m.keys().len() && m.keys()[j] == key@;
                    assert(self.keys()[j] == self.keys()[i as int]);
                }
            }
            let ghost before = m;
            m.insert(key, value);
            proof {
                m.lemma_same_length();
                assert(m.keys() =~= self.keys().subrange(0, i + 1));
                assert(m.texts() =~= self.texts().subrange(0, i + 1)) by {
                    assert forall|k: int| 0 <= k < i + 1 implies m.texts()[k] == self.texts()[k] by {
                        if k < i {
                            assert(before.texts()[k] == self.texts().subrange(0, i as int)[k]);
                        }
                    }
                }
            }
            i = i + 1;
        }
        assert(m.keys() =~= self.keys());
        assert(m.texts() =~= self.texts());
        m
    }
}

} // verus!
