//! Cooperative execution contexts, passed explicitly.
//!
//! The log runs on a caller-supplied execution context. Instead of ambient
//! per-thread state, every operation that needs the current context takes it
//! as a parameter, so the context a computation runs on is always visible in
//! its signature.

use vstd::prelude::*;

verus! {

/// One cooperative execution context, identified by its number.
#[derive(Clone, Copy, Debug, PartialEq, Eq, Structural)]
pub struct Reactor {
    /// The context's number.
    pub id: usize,
    /// The context's working value.
    pub val: usize,
}

impl Reactor {
    /// Runs `f` on this execution context: the context-passing form of
    /// reading an ambient current context.
    pub fn with<F, R>(&self, f: F) -> (r: R) where F: FnOnce(&Reactor) -> R
        requires
            call_requires(f, (self,)),
        ensures
            call_ensures(f, (self,), r),
    {
        f(self)
    }

    /// Builds the context numbered `id` and runs `f` inside it.
    pub fn allocate_reactor<F, R>(id: usize, f: F) where F: FnOnce(&Reactor) -> R
        requires
            id < usize::MAX,
            call_requires(f, (&(Reactor { id, val: (id + 1) as usize }),)),
    {
        let reactor = Reactor { id, val: id + 1 };
        f(&reactor);
    }
}

} // verus!
