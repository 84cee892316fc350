use vstd::prelude::*;
use crate::handler::Listener;

verus! {

/// Identifies one registered handler, for later removal.
#[derive(Clone, Copy, PartialEq, Eq, Structural, Debug, Hash)]
pub struct HandlerId(pub u64);

/// A registered handler, known to be callable on every payload.
#[verifier::reject_recursive_types(T)]
struct Slot<T> {
    h: Box<dyn Listener<T>>,
}

impl<T> Slot<T> {
    #[verifier::type_invariant]
    spec fn inv(&self) -> bool {
        (*self.h).ready()
    }

    /// Wraps a closure that can take every payload.
    fn of<F: Fn(&T) + 'static>(handler: F) -> Slot<T>
        requires
            forall|v: &T| call_requires(handler, (v,)),
    {
        Slot { h: Box::new(handler) }
    }
}

/// A synchronous observer list.  Handlers run in registration order on each
/// trigger while `enabled` holds; each carries an id for removal.
#[verifier::reject_recursive_types(T)]
pub struct Event<T> {
    pub enabled: bool,
    handlers: Vec<(HandlerId, Slot<T>)>,
    next_id: u64,
}

impl<T> Event<T> {
    /// How many handlers are registered.
    pub closed spec fn count(&self) -> nat {
        self.handlers@.len()
    }

    /// Whether triggering runs the handlers.
    pub closed spec fn is_enabled(&self) -> bool {
        self.enabled
    }

    pub fn new() -> (r: Event<T>)
        ensures
            r.is_enabled(),
            r.count() == 0,
    {
        Event { enabled: true, handlers: Vec::new(), next_id: 0 }
    }

    /// Registers a handler and returns its id for removal.  The handler
    /// must be callable on every payload.
    pub fn add<F: Fn(&T) + 'static>(&mut self, handler: F) -> (id: HandlerId)
        requires
            forall|v: &T| call_requires(handler, (v,)),
        ensures
            final(self).count() == old(self).count() + 1,
            final(self).is_enabled() == old(self).is_enabled(),
    {
        let id = HandlerId(self.next_id);
        if self.next_id < u64::MAX {
            self.next_id = self.next_id + 1;
        }
        let slot = Slot::of(handler);
        self.handlers.push((id, slot));
        id
    }

    /// Turns triggering on or off.
    pub fn set_enabled(&mut self, value: bool)
        ensures
            final(self).is_enabled() == value,
            final(self).count() == old(self).count(),
    {
        self.enabled = value;
    }

    /// Removes the handlers registered under `id`.
    pub fn remove(&mut self, id: HandlerId)
        ensures
            final(self).count() <= old(self).count(),
            final(self).is_enabled() == old(self).is_enabled(),
    {
        let mut kept: Vec<(HandlerId, Slot<T>)> = Vec::new();
        loop
            invariant
                kept@.len() + self.handlers@.len() <= old(self).handlers@.len(),
                self.enabled == old(self).enabled,
                self.next_id == old(self).next_id,
            decreases self.handlers@.len(),
        {
            if self.handlers.len() == 0 {
                break;
            }
            let (hid, slot) = self.handlers.remove(0);
            if !(hid.0 == id.0) {
                kept.push((hid, slot));
            }
        }
        self.handlers = kept;
    }

    /// Runs every handler on the payload, in registration order, unless the
    /// event is disabled.
    pub fn trigger(&mut self, data: &T)
        ensures
            final(self).count() == old(self).count(),
            final(self).is_enabled() == old(self).is_enabled(),
    {
        if !self.enabled {
            return;
        }
        let mut i: usize = 0;
        while i < self.handlers.len()
            invariant
                *self == *old(self),
                0 <= i <= self.handlers@.len(),
            decreases self.handlers@.len() - i,
        {
            let slot = &self.handlers[i].1;
            proof {
                use_type_invariant(&*slot);
            }
            (*slot.h).on(data);
            i = i + 1;
        }
    }

    /// Drops every handler.
    pub fn reset(&mut self)
        ensures
            final(self).count() == 0,
            final(self).is_enabled() == old(self).is_enabled(),
    {
        self.handlers = Vec::new();
    }
}

} // verus!
