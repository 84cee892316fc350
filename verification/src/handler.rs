use vstd::prelude::*;

verus! {

/// A callback an event notifies.  Any closure `Fn(&T)` is a listener; its
/// readiness is that it can be called on every payload.
pub trait Listener<T> {
    /// Whether the callback may be invoked on any payload.
    spec fn ready(&self) -> bool;

    fn on(&self, data: &T)
        requires
            self.ready(),
    ;
}

impl<T, F: Fn(&T)> Listener<T> for F {
    open spec fn ready(&self) -> bool {
        forall|v: &T| call_requires(*self, (v,))
    }

    fn on(&self, data: &T) {
        (*self)(data)
    }
}

/// A predicate over single values, used as the guard of a collection.  Any
/// closure `Fn(&T) -> bool` is a guard.
pub trait Guard<T> {
    /// Whether the guard may be asked about any value.
    spec fn ready(&self) -> bool;

    fn ok(&self, value: &T) -> bool
        requires
            self.ready(),
    ;
}

impl<T, F: Fn(&T) -> bool> Guard<T> for F {
    open spec fn ready(&self) -> bool {
        forall|v: &T| call_requires(*self, (v,))
    }

    fn ok(&self, value: &T) -> bool {
        (*self)(value)
    }
}

/// A predicate over key-value pairs, used as a map's guard.  Any closure
/// `Fn(&K, &V) -> bool` is a pair guard.
pub trait PairGuard<K, V> {
    /// Whether the guard may be asked about any pair.
    spec fn ready(&self) -> bool;

    fn ok(&self, key: &K, value: &V) -> bool
        requires
            self.ready(),
    ;
}

impl<K, V, F: Fn(&K, &V) -> bool> PairGuard<K, V> for F {
    open spec fn ready(&self) -> bool {
        forall|k: &K, v: &V| call_requires(*self, (k, v))
    }

    fn ok(&self, key: &K, value: &V) -> bool {
        (*self)(key, value)
    }
}

} // verus!
