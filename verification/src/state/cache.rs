//! State that is rebuilt periodically.

use vstd::prelude::*;

verus! {

/// If you want your state to be regenerated dynamically, for example in a [`CachedState`],
/// it should implement the ReloadableState trait. For this purpose, all the information
/// needed to rebuild the state should be owned by the structure when it is first created.
pub trait ReloadableState {
    /// Whether `self` is what reloading the state `before` may give.
    spec fn is_reload_of(&self, before: &Self) -> bool;

    /// Reload struct state
    fn reload_state(&mut self)
        ensures
            final(self).is_reload_of(old(self)),
    ;
}

/// An application state that is reloaded every `ttl` seconds (the timer runs
/// outside the library, and calls [`CachedState::reload`]).
pub struct CachedState<T: ReloadableState> {
    state: T,
    ttl: usize,
}

impl<T: ReloadableState> CachedState<T> {
    /// A cached state reloaded every `ttl` seconds.
    pub fn new(state: T, ttl: usize) -> (res: CachedState<T>)
        ensures
            res.current() == state,
            res.ttl() == ttl,
    {
        CachedState { state, ttl }
    }

    /// The cached value.
    pub closed spec fn current(&self) -> T {
        self.state
    }

    /// The reload period, in seconds.
    pub closed spec fn ttl(&self) -> usize {
        self.ttl
    }

    /// The current state.
    pub fn state(&self) -> (res: &T)
        ensures
            *res == self.current(),
    {
        &self.state
    }

    /// The reload period, in seconds.
    pub fn reload_period(&self) -> (res: usize)
        ensures
            res == self.ttl(),
    {
        self.ttl
    }

    /// Reloads the state with [`ReloadableState::reload_state`]; the period
    /// does not change.
    pub fn reload(&mut self)
        ensures
            final(self).current().is_reload_of(&old(self).current()),
            final(self).ttl() == old(self).ttl(),
    {
        self.state.reload_state();
    }
}

} // verus!
