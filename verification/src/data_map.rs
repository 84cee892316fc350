use vstd::prelude::*;
use crate::event::Event;
use crate::handler::PairGuard;

verus! {

/// The payload handed to a map's events: one key-value pair.
#[derive(Clone, Debug, PartialEq, Eq)]
pub struct MapItem<K, V> {
    pub key: K,
    pub value: V,
}

/// An observable insertion-ordered map.  Keys are unique; setting an
/// existing key updates its value in place.  The `guard` may veto writes.
#[verifier::reject_recursive_types(K)]
#[verifier::reject_recursive_types(V)]
pub struct DataMap<K: Eq + Clone, V: Clone> {
    entries: Vec<(K, V)>,
    pub on_item_set: Event<MapItem<K, V>>,
    pub on_item_updated: Event<MapItem<K, V>>,
    pub on_item_deleted: Event<K>,
    pub on_before_delete: Event<MapItem<K, V>>,
    pub on_cleared: Event<()>,
    pub guard: Box<dyn PairGuard<K, V>>,
}

impl<K: Eq + Clone, V: Clone> View for DataMap<K, V> {
    type V = Seq<(K, V)>;

    closed spec fn view(&self) -> Seq<(K, V)> {
        self.entries@
    }
}

/// Whether some entry carries the key.
pub open spec fn has_entry_key<K, V>(s: Seq<(K, V)>, k: K) -> bool {
    exists|j: int| 0 <= j < s.len() && s[j].0 == k
}

impl<K: Eq + Clone, V: Clone> DataMap<K, V> {
    /// Whether the guard can be asked about every pair.
    pub closed spec fn guard_ready(&self) -> bool {
        (*self.guard).ready()
    }

    /// Whether every event's enabled flag equals `value`.
    pub closed spec fn events_match(&self, value: bool) -> bool {
        &&& self.on_item_set.is_enabled() == value
        &&& self.on_item_updated.is_enabled() == value
        &&& self.on_item_deleted.is_enabled() == value
        &&& self.on_before_delete.is_enabled() == value
        &&& self.on_cleared.is_enabled() == value
    }

    pub fn new() -> (r: DataMap<K, V>)
        ensures
            r@ == Seq::<(K, V)>::empty(),
            r.guard_ready(),
    {
        Self::with_guard(|_key: &K, _value: &V| true)
    }

    /// Builds an empty map whose guard is the given predicate.
    fn with_guard<F: Fn(&K, &V) -> bool + 'static>(f: F) -> (r: DataMap<K, V>)
        requires
            forall|k: &K, v: &V| call_requires(f, (k, v)),
        ensures
            r@ == Seq::<(K, V)>::empty(),
            r.guard_ready(),
    {
        DataMap {
            entries: Vec::new(),
            on_item_set: Event::new(),
            on_item_updated: Event::new(),
            on_item_deleted: Event::new(),
            on_before_delete: Event::new(),
            on_cleared: Event::new(),
            guard: Box::new(f),
        }
    }

    /// Builds a map from the pairs: a repeated key keeps its last value, at
    /// the position of its first occurrence.  No events fire.
    pub fn with_iter(items: Vec<(K, V)>) -> (r: DataMap<K, V>)
        ensures
            r.guard_ready(),
            r@.len() <= items@.len(),
    {
        let mut map: DataMap<K, V> = DataMap::new();
        let mut items = items;
        let total = items.len();
        let ghost all = items@;
        let mut i: usize = 0;
        loop
            invariant
                all.len() == total,
                map.guard_ready(),
                items@ == all.skip(i as int),
                0 <= i <= all.len(),
                map@.len() <= i,
            decreases all.len() - i,
        {
            if items.len() == 0 {
                break;
            }
            let (key, value) = items.remove(0);
            let found = map.find_key(&key);
            match found {
                Some(j) => {
                    let (k0, _) = map.entries.remove(j);
                    map.entries.insert(j, (k0, value));
                },
                None => {
                    map.entries.push((key, value));
                },
            }
            proof {
                assert(items@ =~= all.skip(i + 1));
            }
            i = i + 1;
        }
        map
    }

    /// Turns all five events on or off at once.
    pub fn set_events_enabled(&mut self, value: bool)
        ensures
            final(self)@ == old(self)@,
            final(self).events_match(value),
            final(self).guard_ready() == old(self).guard_ready(),
    {
        self.on_item_set.set_enabled(value);
        self.on_item_updated.set_enabled(value);
        self.on_item_deleted.set_enabled(value);
        self.on_before_delete.set_enabled(value);
        self.on_cleared.set_enabled(value);
    }

    /// Empties the map, notifying `on_before_delete` per pair and then
    /// `on_cleared`.
    pub fn clear(&mut self)
        ensures
            final(self)@ == Seq::<(K, V)>::empty(),
            final(self).guard_ready() == old(self).guard_ready(),
    {
        let mut i: usize = 0;
        while i < self.entries.len()
            invariant
                self.entries@ == old(self).entries@,
                self.guard_ready() == old(self).guard_ready(),
                0 <= i <= self.entries@.len(),
            decreases self.entries@.len() - i,
        {
            let payload = MapItem {
                key: self.entries[i].0.clone(),
                value: self.entries[i].1.clone(),
            };
            self.on_before_delete.trigger(&payload);
            i = i + 1;
        }
        self.entries = Vec::new();
        self.on_cleared.trigger(&());
    }

    /// Writes the pair, unless the guard vetoes it: an existing key keeps
    /// its position and takes the new value (`on_item_updated`), a fresh
    /// key is appended (`on_item_set`).
    pub fn set(&mut self, key: K, value: V)
        requires
            old(self).guard_ready(),
        ensures
            final(self).guard_ready(),
            final(self)@.len() <= old(self)@.len() + 1,
            vstd::laws_eq::obeys_concrete_eq::<K>() ==> final(self)@ == old(self)@ || ({
                ||| (exists|j: int|
                    0 <= j < old(self)@.len() && old(self)@[j].0 == key && final(self)@ == old(
                        self,
                    )@.update(j, (old(self)@[j].0, value)))
                ||| (!has_entry_key(old(self)@, key) && final(self)@ == old(self)@.push(
                    (key, value),
                ))
            }),
    {
        let admitted = (*self.guard).ok(&key, &value);
        if !admitted {
            return;
        }
        let payload = MapItem { key: key.clone(), value: value.clone() };
        let found = self.find_key(&key);
        match found {
            Some(j) => {
                let (k0, _) = self.entries.remove(j);
                self.entries.insert(j, (k0, value));
                self.on_item_updated.trigger(&payload);
                proof {
                    if vstd::laws_eq::obeys_concrete_eq::<K>() {
                        old(self)@.remove_ensures(j as int);
                        assert(self@ =~= old(self)@.update(j as int, (old(self)@[j as int].0, value)));
                    }
                }
            },
            None => {
                self.entries.push((key, value));
                self.on_item_set.trigger(&payload);
            },
        }
    }

    /// Removes the entry with the key, if present; reports whether anything
    /// was removed.
    pub fn delete(&mut self, key: &K) -> (r: bool)
        ensures
            final(self).guard_ready() == old(self).guard_ready(),
            vstd::laws_eq::obeys_concrete_eq::<K>() ==> match r {
                true => exists|j: int|
                    0 <= j < old(self)@.len() && old(self)@[j].0 == *key && final(self)@ == old(
                        self,
                    )@.remove(j),
                false => !has_entry_key(old(self)@, *key) && final(self)@ == old(self)@,
            },
    {
        let found = self.find_key(key);
        let index = match found {
            Some(index) => index,
            None => {
                return false;
            },
        };
        let payload = MapItem {
            key: self.entries[index].0.clone(),
            value: self.entries[index].1.clone(),
        };
        self.on_before_delete.trigger(&payload);
        let (entry_key, _) = self.entries.remove(index);
        self.on_item_deleted.trigger(&entry_key);
        true
    }

    /// The key of the first entry whose value equals `item`, if any.
    pub fn get_key(&self, item: &V) -> (r: Option<K>)
        where V: PartialEq
        ensures
            vstd::laws_eq::obeys_concrete_eq::<V>() ==> (r is Some == exists|j: int|
                0 <= j < self@.len() && (#[trigger] self@[j]).1 == *item),
            match r {
                Some(k) => exists|j: int|
                    0 <= j < self@.len() && cloned::<K>(
                        (#[trigger] self@[j]).0,
                        k,
                    ),
                None => true,
            },
    {
        let mut i: usize = 0;
        while i < self.entries.len()
            invariant
                0 <= i <= self.entries@.len(),
                self@ == self.entries@,
                vstd::laws_eq::obeys_concrete_eq::<V>() ==> forall|j: int|
                    0 <= j < i ==> (#[trigger] self.entries@[j]).1 != *item,
            decreases self.entries@.len() - i,
        {
            let hit = self.entries[i].1 == *item;
            proof {
                reveal(vstd::laws_eq::obeys_concrete_eq);
            }
            if hit {
                let k = self.entries[i].0.clone();
                proof {
                    assert(cloned::<K>(self@[i as int].0, k));
                }
                return Some(k);
            }
            i = i + 1;
        }
        None
    }

    /// Rewrites the entry holding this value (found by equality) with the
    /// same key, notifying `on_item_updated`.
    pub fn update(&mut self, item: &V)
        where V: PartialEq
        requires
            old(self).guard_ready(),
        ensures
            final(self).guard_ready(),
            final(self)@.len() <= old(self)@.len() + 1,
    {
        let found = self.get_key(item);
        match found {
            Some(key) => {
                self.set(key, item.clone());
            },
            None => {},
        }
    }

    /// Removes every entry the predicate selects.
    pub fn delete_if<F: Fn(&V, &K) -> bool>(&mut self, predicate: F)
        requires
            forall|v: &V, k: &K| call_requires(predicate, (v, k)),
        ensures
            final(self).guard_ready() == old(self).guard_ready(),
            final(self)@.len() <= old(self)@.len(),
    {
        let mut kept: Vec<(K, V)> = Vec::new();
        let ghost before = self@;
        loop
            invariant
                forall|v: &V, k: &K| call_requires(predicate, (v, k)),
                self.guard_ready() == old(self).guard_ready(),
                kept@.len() + self.entries@.len() <= before.len(),
                self@ == self.entries@,
            decreases self.entries@.len(),
        {
            if self.entries.len() == 0 {
                break;
            }
            let (key, value) = self.entries.remove(0);
            let doomed = predicate(&value, &key);
            if doomed {
                let payload = MapItem { key: key.clone(), value: value.clone() };
                self.on_before_delete.trigger(&payload);
                self.on_item_deleted.trigger(&key);
            } else {
                kept.push((key, value));
            }
        }
        self.entries = kept;
    }

    /// Moves the value under `old_key` to `new_key`.  Nothing happens when
    /// `old_key` is absent, or when `new_key` is already taken and
    /// `full_replace` is not set.
    pub fn replace_key(&mut self, old_key: &K, new_key: K, full_replace: bool) -> (r: bool)
        requires
            old(self).guard_ready(),
        ensures
            final(self).guard_ready(),
            !r ==> final(self)@ == old(self)@,
    {
        let found = self.find_key(old_key);
        let index = match found {
            Some(index) => index,
            None => {
                return false;
            },
        };
        if self.contains_key(&new_key) && !full_replace {
            return false;
        }
        self.set_events_enabled(false);
        let (_, old_value) = self.entries.remove(index);
        self.set_events_enabled(true);
        self.set(new_key, old_value);
        true
    }

    /// Empties the map and drops every handler of every event.
    pub fn dispose(&mut self)
        ensures
            final(self)@ == Seq::<(K, V)>::empty(),
            final(self).guard_ready() == old(self).guard_ready(),
    {
        self.clear();
        self.on_item_set.reset();
        self.on_item_deleted.reset();
        self.on_item_updated.reset();
        self.on_cleared.reset();
        self.on_before_delete.reset();
    }

    pub fn len(&self) -> (r: usize)
        ensures
            r == self@.len(),
    {
        self.entries.len()
    }

    /// Whether an entry carries the key.
    pub fn contains_key(&self, key: &K) -> (r: bool)
        ensures
            vstd::laws_eq::obeys_concrete_eq::<K>() ==> r == has_entry_key(self@, *key),
    {
        self.find_key(key).is_some()
    }

    /// The position of the first entry with the key, under the exec
    /// equality of `K`.
    fn find_key(&self, key: &K) -> (r: Option<usize>)
        ensures
            match r {
                Some(i) => i < self@.len(),
                None => true,
            },
            vstd::laws_eq::obeys_concrete_eq::<K>() ==> match r {
                Some(i) => self@[i as int].0 == *key && forall|j: int|
                    0 <= j < i ==> (#[trigger] self@[j]).0 != *key,
                None => !has_entry_key(self@, *key),
            },
    {
        let mut i: usize = 0;
        while i < self.entries.len()
            invariant
                0 <= i <= self.entries@.len(),
                self@ == self.entries@,
                vstd::laws_eq::obeys_concrete_eq::<K>() ==> forall|j: int|
                    0 <= j < i ==> (#[trigger] self.entries@[j]).0 != *key,
            decreases self.entries@.len() - i,
        {
            let hit = self.entries[i].0 == *key;
            proof {
                reveal(vstd::laws_eq::obeys_concrete_eq);
            }
            if hit {
                return Some(i);
            }
            i = i + 1;
        }
        None
    }
}

} // verus!
