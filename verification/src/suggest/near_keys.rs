//! The keys near a touch point, each with its distance from the point, in
//! the order in which they were found.
use indexmap::IndexMap;
use vstd::prelude::*;

verus! {

/// `indexmap::IndexMap`: a hash map that keeps its entries in the order in
/// which their keys were first inserted.
#[verifier::external_type_specification]
#[verifier::external_body]
#[verifier::reject_recursive_types(K)]
#[verifier::reject_recursive_types(V)]
#[verifier::reject_recursive_types(S)]
pub struct ExIndexMap<K, V, S>(IndexMap<K, V, S>);

/// What an `IndexMap` holds: its entries, in the order in which its
/// iterators and indices walk them.
pub uninterp spec fn index_map_entries(map: IndexMap<usize, i64>) -> Seq<(usize, i64)>;

/// `IndexMap::new`: a map without entries.
#[verifier::external_body]
fn index_map_new() -> (map: IndexMap<usize, i64>)
    ensures
        index_map_entries(map) == Seq::<(usize, i64)>::empty(),
{
    IndexMap::new()
}

/// `IndexMap::clear`: removes every entry.
#[verifier::external_body]
fn index_map_clear(map: &mut IndexMap<usize, i64>)
    ensures
        index_map_entries(*final(map)) == Seq::<(usize, i64)>::empty(),
{
    map.clear()
}

/// `IndexMap::len`: the number of entries.
#[verifier::external_body]
fn index_map_len(map: &IndexMap<usize, i64>) -> (len: usize)
    ensures
        len == index_map_entries(*map).len(),
{
    map.len()
}

/// `IndexMap::insert`: where the key is in the map, its entry stays in its
/// place, takes the new value and the old value is returned; where it is
/// not, the new entry is put last and nothing is returned.
#[verifier::external_body]
fn index_map_insert(map: &mut IndexMap<usize, i64>, key: usize, value: i64) -> (replaced: Option<
    i64,
>)
    ensures
        match replaced {
            Some(old_value) => exists|i: int|
                0 <= i < index_map_entries(*old(map)).len() && index_map_entries(*old(map))[i] == (
                    key,
                    old_value,
                ) && index_map_entries(*final(map)) == index_map_entries(*old(map)).update(
                    i,
                    (key, value),
                ),
            None => {
                &&& forall|i: int|
                    0 <= i < index_map_entries(*old(map)).len() ==> index_map_entries(
                        *old(map),
                    )[i].0 != key
                &&& index_map_entries(*final(map)) == index_map_entries(*old(map)).push(
                    (key, value),
                )
            },
        },
{
    map.insert(key, value)
}

/// `IndexMap::get`: the value of the entry with this key, if there is one.
#[verifier::external_body]
fn index_map_get(map: &IndexMap<usize, i64>, key: usize) -> (value: Option<i64>)
    ensures
        match value {
            Some(v) => exists|i: int|
                0 <= i < index_map_entries(*map).len() && index_map_entries(*map)[i] == (key, v),
            None => forall|i: int|
                0 <= i < index_map_entries(*map).len() ==> index_map_entries(*map)[i].0 != key,
        },
{
    map.get(&key).copied()
}

/// `IndexMap::get_index`: the entry at a position of the order, if the map
/// has that many entries.
#[verifier::external_body]
fn index_map_get_index(map: &IndexMap<usize, i64>, index: usize) -> (entry: Option<(usize, i64)>)
    ensures
        entry == (if index < index_map_entries(*map).len() {
            Some(index_map_entries(*map)[index as int])
        } else {
            None
        }),
{
    match map.get_index(index) {
        Some((key, value)) => Some((*key, *value)),
        None => None,
    }
}

/// No key occurs twice among `entries`.
pub open spec fn keys_distinct(entries: Seq<(usize, i64)>) -> bool {
    forall|i: int, j: int|
        0 <= i < j < entries.len() ==> (#[trigger] entries[i]).0 != (#[trigger] entries[j]).0
}

/// `key` occurs among `entries`.
pub open spec fn has_key(entries: Seq<(usize, i64)>, key: usize) -> bool {
    exists|i: int| 0 <= i < entries.len() && (#[trigger] entries[i]).0 == key
}

/// A position at which `key` stands among `entries`.
pub open spec fn position_of(entries: Seq<(usize, i64)>, key: usize) -> int {
    choose|i: int| 0 <= i < entries.len() && (#[trigger] entries[i]).0 == key
}

/// The distance that `entries` hold for `key`, if any.
pub open spec fn distance_of(entries: Seq<(usize, i64)>, key: usize) -> Option<i64> {
    if has_key(entries, key) {
        Some(entries[position_of(entries, key)].1)
    } else {
        None
    }
}

/// `entries` after `key` was given `distance`: its entry is renewed in
/// place, or put last where `key` was not among them.
pub open spec fn with_entry(entries: Seq<(usize, i64)>, key: usize, distance: i64) -> Seq<
    (usize, i64),
> {
    if has_key(entries, key) {
        entries.update(position_of(entries, key), (key, distance))
    } else {
        entries.push((key, distance))
    }
}

/// A map from key index to distance that keeps the order in which the keys
/// were put in.
pub struct NearKeysDistanceMap {
    map: IndexMap<usize, i64>,
}

impl View for NearKeysDistanceMap {
    type V = Seq<(usize, i64)>;

    closed spec fn view(&self) -> Seq<(usize, i64)> {
        index_map_entries(self.map)
    }
}

impl NearKeysDistanceMap {
    /// No key has two entries.
    pub open spec fn wf(&self) -> bool {
        keys_distinct(self@)
    }

    /// A map without entries.
    pub fn new() -> (map: Self)
        ensures
            map@ == Seq::<(usize, i64)>::empty(),
            map.wf(),
    {
        NearKeysDistanceMap { map: index_map_new() }
    }

    /// Removes every entry.
    pub fn clear(&mut self)
        ensures
            final(self)@ == Seq::<(usize, i64)>::empty(),
            final(self).wf(),
    {
        index_map_clear(&mut self.map);
    }

    /// The number of entries.
    pub fn len(&self) -> (len: usize)
        ensures
            len == self@.len(),
    {
        index_map_len(&self.map)
    }

    /// Tells whether the map has no entry.
    pub fn is_empty(&self) -> (empty: bool)
        ensures
            empty == (self@.len() == 0),
    {
        index_map_len(&self.map) == 0
    }

    /// Gives `key` the distance `distance`.  A key that is new to the map
    /// comes last in its order; one that is in it keeps its place.
    pub fn insert(&mut self, key: usize, distance: i64)
        requires
            old(self).wf(),
        ensures
            final(self).wf(),
            final(self)@ == with_entry(old(self)@, key, distance),
    {
        let ghost before = self@;
        let replaced = index_map_insert(&mut self.map, key, distance);
        proof {
            match replaced {
                Some(old_value) => {
                    let i = choose|i: int|
                        0 <= i < before.len() && before[i] == (key, old_value) && self@
                            == before.update(i, (key, distance));
                    assert(before[i].0 == key);
                    assert(position_of(before, key) == i);
                    assert forall|a: int, b: int| 0 <= a < b < self@.len() implies (
                    #[trigger] self@[a]).0 != (#[trigger] self@[b]).0 by {
                        assert(self@[a].0 == before[a].0);
                        assert(self@[b].0 == before[b].0);
                    }
                },
                None => {
                    assert(!has_key(before, key));
                    assert forall|a: int, b: int| 0 <= a < b < self@.len() implies (
                    #[trigger] self@[a]).0 != (#[trigger] self@[b]).0 by {
                        if b < before.len() {
                            assert(self@[a] == before[a]);
                            assert(self@[b] == before[b]);
                        } else {
                            assert(self@[a] == before[a]);
                        }
                    }
                },
            }
        }
    }

    /// The distance of `key`, if the map holds one.
    pub fn get(&self, key: usize) -> (distance: Option<i64>)
        requires
            self.wf(),
        ensures
            distance == distance_of(self@, key),
    {
        let distance = index_map_get(&self.map, key);
        proof {
            match distance {
                Some(v) => {
                    let i = choose|i: int| 0 <= i < self@.len() && self@[i] == (key, v);
                    assert(self@[i].0 == key);
                    assert(position_of(self@, key) == i);
                },
                None => {},
            }
        }
        distance
    }

    /// The entry at position `index` of the order.
    pub fn get_index(&self, index: usize) -> (entry: (usize, i64))
        requires
            index < self@.len(),
        ensures
            entry == self@[index as int],
    {
        match index_map_get_index(&self.map, index) {
            Some(entry) => entry,
            None => (0, 0),
        }
    }
}

} // verus!
