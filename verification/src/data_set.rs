use vstd::prelude::*;
use crate::event::Event;
use crate::handler::Guard;

verus! {

/// An observable ordered set: keeps the first occurrence of each value, in
/// insertion order, and notifies its events on every change.  The `guard`
/// may veto insertions.
#[verifier::reject_recursive_types(T)]
pub struct DataSet<T: Eq + Clone> {
    data: Vec<T>,
    pub on_updated: Event<()>,
    pub on_item_added: Event<T>,
    pub on_before_delete: Event<T>,
    pub on_item_deleted: Event<()>,
    pub on_cleared: Event<()>,
    pub guard: Box<dyn Guard<T>>,
}

impl<T: Eq + Clone> View for DataSet<T> {
    type V = Seq<T>;

    closed spec fn view(&self) -> Seq<T> {
        self.data@
    }
}

impl<T: Eq + Clone> DataSet<T> {
    /// Whether the guard can be asked about every value.
    pub closed spec fn guard_ready(&self) -> bool {
        (*self.guard).ready()
    }

    pub fn new() -> (r: DataSet<T>)
        ensures
            r@ == Seq::<T>::empty(),
            r.guard_ready(),
    {
        Self::with_guard(|_value: &T| true)
    }

    /// Builds an empty set whose guard is the given predicate.
    fn with_guard<F: Fn(&T) -> bool + 'static>(f: F) -> (r: DataSet<T>)
        requires
            forall|v: &T| call_requires(f, (v,)),
        ensures
            r@ == Seq::<T>::empty(),
            r.guard_ready(),
    {
        DataSet {
            data: Vec::new(),
            on_updated: Event::new(),
            on_item_added: Event::new(),
            on_before_delete: Event::new(),
            on_item_deleted: Event::new(),
            on_cleared: Event::new(),
            guard: Box::new(f),
        }
    }

    /// Builds a set from the values, keeping the first occurrence of each.
    pub fn with_iter(items: Vec<T>) -> (r: DataSet<T>)
        ensures
            r.guard_ready(),
            r@.len() <= items@.len(),
            vstd::laws_eq::obeys_concrete_eq::<T>() ==> r@ == dedup_all(items@),
    {
        let mut set: DataSet<T> = DataSet::new();
        let mut items = items;
        let ghost all = items@;
        let total = items.len();
        let mut i: usize = 0;
        loop
            invariant
                all.len() == total,
                set.guard_ready(),
                items@ == all.skip(i as int),
                0 <= i <= all.len(),
                set@.len() <= i,
                vstd::laws_eq::obeys_concrete_eq::<T>() ==> set@ == dedup_all(all.take(i as int)),
            ensures
                items@.len() == 0,
            decreases all.len() - i,
        {
            if items.len() == 0 {
                break;
            }
            proof {
                assert(all.skip(i as int)[0] == all[i as int]);
            }
            let item = items.remove(0);
            let ghost before_set = set@;
            let present = set.contains(&item);
            if !present {
                set.data.push(item);
            }
            proof {
                assert(items@ =~= all.skip(i + 1));
                assert(all.take(i + 1).drop_last() =~= all.take(i as int));
                assert(all.take(i + 1).last() == all[i as int]);
                if vstd::laws_eq::obeys_concrete_eq::<T>() {
                    if present {
                        assert(set@ == dedup_all(all.take(i + 1)));
                    } else {
                        assert(set@ == before_set.push(all[i as int]));
                        assert(set@ == dedup_all(all.take(i + 1)));
                    }
                }
            }
            i = i + 1;
        }
        proof {
            assert(i == all.len());
            assert(all.take(all.len() as int) =~= all);
            if vstd::laws_eq::obeys_concrete_eq::<T>() {
                assert(set@ == dedup_all(all));
            }
        }
        set
    }

    /// Whether every event's enabled flag equals `value`.
    pub closed spec fn events_match(&self, value: bool) -> bool {
        &&& self.on_updated.is_enabled() == value
        &&& self.on_item_added.is_enabled() == value
        &&& self.on_item_deleted.is_enabled() == value
        &&& self.on_before_delete.is_enabled() == value
        &&& self.on_cleared.is_enabled() == value
    }

    /// Turns all five events on or off at once.
    pub fn set_events_enabled(&mut self, value: bool)
        ensures
            final(self)@ == old(self)@,
            final(self).events_match(value),
            final(self).guard_ready() == old(self).guard_ready(),
    {
        self.on_updated.set_enabled(value);
        self.on_item_added.set_enabled(value);
        self.on_item_deleted.set_enabled(value);
        self.on_before_delete.set_enabled(value);
        self.on_cleared.set_enabled(value);
    }

    /// Adds each value that is not yet present and that the guard admits,
    /// in order; notifies `on_item_added` per value and `on_updated` once.
    pub fn add(&mut self, values: Vec<T>)
        requires
            old(self).guard_ready(),
        ensures
            final(self).guard_ready(),
            old(self)@.is_prefix_of(final(self)@),
            final(self)@.len() <= old(self)@.len() + values@.len(),
            vstd::laws_eq::obeys_concrete_eq::<T>() ==> forall|x: T|
                #[trigger] final(self)@.contains(x) ==> old(self)@.contains(x)
                    || values@.contains(x),
    {
        let mut values = values;
        let ghost all = values@;
        let total = values.len();
        let mut i: usize = 0;
        loop
            invariant
                all.len() == total,
                self.guard_ready(),
                values@ == all.skip(i as int),
                0 <= i <= all.len(),
                old(self).guard_ready(),
                self.guard_ready(),
                old(self)@.is_prefix_of(self@),
                self@.len() <= old(self)@.len() + i,
                vstd::laws_eq::obeys_concrete_eq::<T>() ==> forall|x: T|
                    #[trigger] self@.contains(x) ==> old(self)@.contains(x) || all.contains(x),
            decreases all.len() - i,
        {
            if values.len() == 0 {
                break;
            }
            proof {
                assert(all.skip(i as int)[0] == all[i as int]);
                assert(all.contains(all[i as int]));
            }
            let value = values.remove(0);
            proof {
                assert(values@ =~= all.skip(i + 1));
            }
            let present = self.contains(&value);
            if !present {
                let admitted = (*self.guard).ok(&value);
                if admitted {
                    let ghost before = self@;
                    self.data.push(value);
                    let n = self.data.len();
                    self.on_item_added.trigger(&self.data[n - 1]);
                    proof {
                        assert(self@ == before.push(all[i as int]));
                        assert forall|x: T| #[trigger] self@.contains(x) implies before.contains(x)
                            || x == all[i as int] by {
                            let j = choose|j: int| 0 <= j < self@.len() && self@[j] == x;
                            if j < before.len() {
                                assert(before[j] == x);
                            }
                        }
                        assert(before.is_prefix_of(self@));
                    }
                }
            }
            i = i + 1;
        }
        self.on_updated.trigger(&());
    }

    /// Empties the set, notifying `on_before_delete` per value, then
    /// `on_cleared` and `on_updated`.
    pub fn clear(&mut self)
        ensures
            final(self)@ == Seq::<T>::empty(),
            final(self).guard_ready() == old(self).guard_ready(),
    {
        let mut i: usize = 0;
        while i < self.data.len()
            invariant
                self.data@ == old(self).data@,
                self.guard_ready() == old(self).guard_ready(),
                0 <= i <= self.data@.len(),
            decreases self.data@.len() - i,
        {
            self.on_before_delete.trigger(&self.data[i]);
            i = i + 1;
        }
        self.data = Vec::new();
        self.on_cleared.trigger(&());
        self.on_updated.trigger(&());
    }

    /// Removes the first occurrence of the value, if present; reports
    /// whether anything was removed.
    pub fn delete(&mut self, value: &T) -> (r: bool)
        ensures
            final(self).guard_ready() == old(self).guard_ready(),
            vstd::laws_eq::obeys_concrete_eq::<T>() ==> match old(self)@.index_of_first(*value) {
                Some(i) => r == true && final(self)@ == old(self)@.remove(i),
                None => r == false && final(self)@ == old(self)@,
            },
    {
        let found = self.find(value);
        match found {
            Some(index) => {
                proof {
                    if vstd::laws_eq::obeys_concrete_eq::<T>() {
                        assert(old(self)@.index_of_first(*value) == Some(index as int));
                    }
                }
                self.on_before_delete.trigger(&self.data[index]);
                self.data.remove(index);
                self.on_item_deleted.trigger(&());
                self.on_updated.trigger(&());
                true
            },
            None => false,
        }
    }

    /// Removes every value the predicate selects, in order, with the same
    /// notifications as `delete`.
    pub fn delete_if<F: Fn(&T) -> bool>(&mut self, predicate: F)
        requires
            forall|v: &T| call_requires(predicate, (v,)),
        ensures
            final(self).guard_ready() == old(self).guard_ready(),
            final(self)@.len() <= old(self)@.len(),
            forall|x: T| #[trigger] final(self)@.contains(x) ==> old(self)@.contains(x),
    {
        let mut kept: Vec<T> = Vec::new();
        let ghost before = self@;
        loop
            invariant
                forall|v: &T| call_requires(predicate, (v,)),
                self.guard_ready() == old(self).guard_ready(),
                kept@.len() + self.data@.len() <= before.len(),
                forall|x: T| #[trigger] kept@.contains(x) ==> before.contains(x),
                forall|x: T| #[trigger] self.data@.contains(x) ==> before.contains(x),
                self@ == self.data@,
            decreases self.data@.len(),
        {
            if self.data.len() == 0 {
                break;
            }
            let ghost pre_data = self.data@;
            let value = self.data.remove(0);
            proof {
                pre_data.remove_ensures(0);
                assert(self.data@ == pre_data.remove(0));
                assert(pre_data[0] == value);
                assert(pre_data.contains(value));
                assert forall|x: T| #[trigger] self.data@.contains(x) implies before.contains(
                    x,
                ) by {
                    let j = choose|j: int| 0 <= j < self.data@.len() && self.data@[j] == x;
                    assert(pre_data.remove(0)[j] == pre_data[j + 1]);
                    assert(pre_data[j + 1] == x);
                    assert(pre_data.contains(x));
                }
            }
            let doomed = predicate(&value);
            if doomed {
                self.on_before_delete.trigger(&value);
                self.on_item_deleted.trigger(&());
                self.on_updated.trigger(&());
            } else {
                let ghost pre_kept = kept@;
                kept.push(value);
                proof {
                    assert forall|x: T| #[trigger] kept@.contains(x) implies before.contains(x) by {
                        let j = choose|j: int| 0 <= j < kept@.len() && kept@[j] == x;
                        if j < pre_kept.len() {
                            assert(pre_kept[j] == x);
                            assert(pre_kept.contains(x));
                        } else {
                            assert(x == value);
                        }
                    }
                }
            }
        }
        self.data = kept;
    }

    /// The position of the value, or -1 when it is absent.
    pub fn get_index(&self, item: &T) -> (r: isize)
        requires
            self@.len() <= isize::MAX,
        ensures
            vstd::laws_eq::obeys_concrete_eq::<T>() ==> match self@.index_of_first(*item) {
                Some(i) => r == i,
                None => r == -1,
            },
    {
        let found = self.find(item);
        proof {
            if vstd::laws_eq::obeys_concrete_eq::<T>() {
                self@.index_of_first_ensures(*item);
            }
        }
        match found {
            Some(index) => index as isize,
            None => -1,
        }
    }

    /// Empties the set and drops every handler of every event.
    pub fn dispose(&mut self)
        ensures
            final(self)@ == Seq::<T>::empty(),
            final(self).guard_ready() == old(self).guard_ready(),
    {
        self.clear();
        self.on_item_added.reset();
        self.on_item_deleted.reset();
        self.on_cleared.reset();
        self.on_before_delete.reset();
        self.on_updated.reset();
    }

    /// Whether the value is present.
    pub fn contains(&self, item: &T) -> (r: bool)
        ensures
            vstd::laws_eq::obeys_concrete_eq::<T>() ==> r == self@.contains(*item),
    {
        let r = self.find(item).is_some();
        proof {
            if vstd::laws_eq::obeys_concrete_eq::<T>() {
                self@.index_of_first_ensures(*item);
            }
        }
        r
    }

    pub fn len(&self) -> (r: usize)
        ensures
            r == self@.len(),
    {
        self.data.len()
    }

    /// The values, in insertion order.
    pub fn iter(&self) -> (r: &[T])
        ensures
            r@ == self@,
    {
        self.data.as_slice()
    }

    /// The position of the first value equal to `item`, under the exec
    /// equality of `T`.
    fn find(&self, item: &T) -> (r: Option<usize>)
        ensures
            match r {
                Some(i) => i < self@.len(),
                None => true,
            },
            vstd::laws_eq::obeys_concrete_eq::<T>() ==> match r {
                Some(i) => self@.index_of_first(*item) == Some(i as int),
                None => self@.index_of_first(*item) is None,
            },
    {
        let mut i: usize = 0;
        while i < self.data.len()
            invariant
                0 <= i <= self.data@.len(),
                self@ == self.data@,
                vstd::laws_eq::obeys_concrete_eq::<T>() ==> forall|j: int|
                    0 <= j < i ==> self.data@[j] != *item,
            decreases self.data@.len() - i,
        {
            let hit = self.data[i] == *item;
            proof {
                reveal(vstd::laws_eq::obeys_concrete_eq);
            }
            if hit {
                proof {
                    if vstd::laws_eq::obeys_concrete_eq::<T>() {
                        self@.index_of_first_ensures(*item);
                        assert(self@[i as int] == *item);
                        assert(self@.contains(*item));
                        let spec_index = self@.index_of_first(*item)->Some_0;
                        assert(spec_index <= i as int);
                        assert(i as int <= spec_index);
                    }
                }
                return Some(i);
            }
            i = i + 1;
        }
        proof {
            if vstd::laws_eq::obeys_concrete_eq::<T>() {
                self@.index_of_first_ensures(*item);
            }
        }
        None
    }
}

/// The values with every repeated occurrence dropped, first occurrences in
/// order.
pub open spec fn dedup_all<T>(items: Seq<T>) -> Seq<T>
    decreases items.len(),
{
    if items.len() == 0 {
        Seq::empty()
    } else {
        let prior = dedup_all(items.drop_last());
        if prior.contains(items.last()) {
            prior
        } else {
            prior.push(items.last())
        }
    }
}

} // verus!
