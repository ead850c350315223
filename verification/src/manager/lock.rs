//! Asking for the session to be locked, and for the configuration to be read
//! again.
use super::store::Queues;
use super::{State, WindowManager};
use vstd::prelude::*;

verus! {

impl WindowManager {
    /// Asks for the session to be locked.
    pub fn request_lock(&mut self)
        requires
            old(self).wf(),
        ensures
            final(self)@ == (State { queues: Queues { lock: true, ..old(self)@.queues }, ..old(self)@ }),
            final(self).wf(),
    {
        self.put_lock_wanted(true);
    }

    /// Takes the request to lock the session, if there is one.
    pub fn drain_lock_request(&mut self) -> (r: bool)
        requires
            old(self).wf(),
        ensures
            r == old(self)@.queues.lock,
            final(self)@ == (State { queues: Queues { lock: false, ..old(self)@.queues }, ..old(self)@ }),
            final(self).wf(),
    {
        let r: bool = self.lock_wanted();
        self.put_lock_wanted(false);
        r
    }

    /// Asks for the configuration to be read again.
    pub fn request_refresh(&mut self)
        requires
            old(self).wf(),
        ensures
            final(self)@ == (State { queues: Queues { refresh: true, ..old(self)@.queues }, ..old(self)@ }),
            final(self).wf(),
    {
        self.put_refresh_wanted(true);
    }

    /// Takes the request to read the configuration again, if there is one.
    pub fn drain_refresh_request(&mut self) -> (r: bool)
        requires
            old(self).wf(),
        ensures
            r == old(self)@.queues.refresh,
            final(self)@ == (State { queues: Queues { refresh: false, ..old(self)@.queues }, ..old(self)@ }),
            final(self).wf(),
    {
        let r: bool = self.refresh_wanted();
        self.put_refresh_wanted(false);
        r
    }
}

} // verus!
