//! The tables in which the solvers keep what they have met, keyed by a packed state.
use rustc_hash::FxBuildHasher;
use std::collections::HashMap;
use vstd::prelude::*;

verus! {

#[verifier::external_type_specification]
#[verifier::external_body]
pub struct ExFxBuildHasher(FxBuildHasher);

/// `HashMap::with_hasher` on `rustc_hash::FxBuildHasher`: the new map holds nothing.
#[verifier::external_body]
fn map_new<V>() -> (result: HashMap<u128, V, FxBuildHasher>)
    ensures
        result@ =~= Map::empty(),
{
    HashMap::with_hasher(FxBuildHasher)
}

/// `HashMap::get` on an Fx-hashed map with integer keys: the value that was last
/// inserted under the key and not removed since, if there is one. The Fx hasher
/// hashes equal integers alike, which is all that the map asks of it.
#[verifier::external_body]
fn map_get<V: Copy>(map: &HashMap<u128, V, FxBuildHasher>, key: u128) -> (result: Option<V>)
    ensures
        result == (if map@.contains_key(key) {
            Some(map@[key])
        } else {
            None
        }),
{
    map.get(&key).copied()
}

/// `HashMap::insert` on an Fx-hashed map with integer keys: afterwards the key maps to
/// the value, and every other key to what it mapped to before.
#[verifier::external_body]
fn map_insert<V>(map: &mut HashMap<u128, V, FxBuildHasher>, key: u128, value: V)
    ensures
        final(map)@ == old(map)@.insert(key, value),
{
    map.insert(key, value);
}

/// `HashMap::remove` on an Fx-hashed map with integer keys: the value under the key
/// leaves the map and is returned, if there is one; every other key maps to what it
/// mapped to before.
#[verifier::external_body]
fn map_remove<V>(map: &mut HashMap<u128, V, FxBuildHasher>, key: u128) -> (result: Option<V>)
    ensures
        final(map)@ == old(map)@.remove(key),
        result is Some <==> old(map)@.contains_key(key),
        result is Some ==> result->Some_0 == old(map)@[key],
{
    map.remove(&key)
}

/// A table from packed states to what was solved for them. It is a hash map of the
/// standard library with the Fx hasher of `rustc_hash`; its view is the map that it
/// holds.
pub struct Table<V> {
    map: HashMap<u128, V, FxBuildHasher>,
}

impl<V: Copy> Table<V> {
    pub closed spec fn view(&self) -> Map<u128, V> {
        self.map@
    }

    /// An empty table.
    pub fn new() -> (r: Table<V>)
        ensures
            r@ == Map::<u128, V>::empty(),
    {
        Table { map: map_new() }
    }

    /// What the table holds under the key.
    pub fn get(&self, key: u128) -> (r: Option<V>)
        ensures
            r == (if self@.contains_key(key) {
                Some(self@[key])
            } else {
                None
            }),
    {
        map_get(&self.map, key)
    }

    /// Puts the value under the key.
    pub fn insert(&mut self, key: u128, value: V)
        ensures
            final(self)@ == old(self)@.insert(key, value),
    {
        map_insert(&mut self.map, key, value)
    }
}

/// A table from packed states to lists, of the same make; its view is the map that it
/// holds, each list by its view.
pub struct ListTable<T> {
    map: HashMap<u128, Vec<T>, FxBuildHasher>,
}

impl<T> ListTable<T> {
    /// The lists of the table by their keys.
    pub closed spec fn view(&self) -> Map<u128, Seq<T>> {
        Map::new(|key: u128| self.map@.contains_key(key), |key: u128| self.map@[key]@)
    }

    /// An empty table.
    pub fn new() -> (r: ListTable<T>)
        ensures
            r@ == Map::<u128, Seq<T>>::empty(),
    {
        let r = ListTable { map: map_new() };
        assert(r@ =~= Map::<u128, Seq<T>>::empty());
        r
    }

    /// Takes the list under the key out of the table; an empty list where the table
    /// holds none.
    pub fn take(&mut self, key: u128) -> (r: Vec<T>)
        ensures
            final(self)@ == old(self)@.remove(key),
            r@ == (if old(self)@.contains_key(key) {
                old(self)@[key]
            } else {
                Seq::empty()
            }),
    {
        let list = match map_remove(&mut self.map, key) {
            Some(list) => list,
            None => Vec::new(),
        };
        assert(self@ =~= old(self)@.remove(key));
        list
    }

    /// Puts the list under the key.
    pub fn put(&mut self, key: u128, list: Vec<T>)
        ensures
            final(self)@ == old(self)@.insert(key, list@),
    {
        map_insert(&mut self.map, key, list);
        assert(self@ =~= old(self)@.insert(key, list@));
    }
}

} // verus!
