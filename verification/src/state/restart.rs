//! Restart requests for the whole application.

use vstd::prelude::*;

verus! {

/// A handler for a restart request for the whole application: whether a
/// restart is pending. Sharing one handler between threads is done by
/// wrapping it in a lock.
pub struct RestartHandler {
    pending: bool,
}

impl View for RestartHandler {
    type V = bool;

    closed spec fn view(&self) -> bool {
        self.pending
    }
}

impl RestartHandler {
    /// A handler with no pending restart.
    pub fn new() -> (res: Self)
        ensures
            !res@,
    {
        RestartHandler { pending: false }
    }

    /// Request a restart.
    pub fn request(&mut self)
        ensures
            final(self)@,
    {
        self.pending = true;
    }

    /// Whether a restart was requested. A restart is reported once: the
    /// request is consumed so that the restart loop is left.
    pub fn requested(&mut self) -> (res: bool)
        ensures
            res == old(self)@,
            !final(self)@,
    {
        let requested = self.pending;
        if requested {
            self.no_more();
        }
        requested
    }

    /// Ensures there is no further restart request, but does not abort a current restart.
    pub fn no_more(&mut self)
        ensures
            !final(self)@,
    {
        self.pending = false;
    }
}

} // verus!
