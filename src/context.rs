use vstd::prelude::*;

use crate::error::BridgeError;

verus! {

/// What the bridge knows of the current native thread: whether the host
/// invoked it with a live execution context, and whether a guard is held.
pub struct HostThread {
    has_context: bool,
    guard_live: bool,
}

/// The capability that proves a live host context on this thread. It cannot
/// be copied, cloned or built outside this module: only `acquire` makes one.
pub struct ContextGuard {
    token: (),
}

impl HostThread {
    /// True when the host invoked this thread with a live execution context.
    pub closed spec fn spec_has_context(&self) -> bool {
        self.has_context
    }

    /// True while a guard acquired on this thread has not been released.
    pub closed spec fn spec_guard_live(&self) -> bool {
        self.guard_live
    }

    /// Describes a thread; `has_context` is what the host runtime reports.
    pub fn new(has_context: bool) -> (t: HostThread)
        ensures
            t.spec_has_context() == has_context,
            !t.spec_guard_live(),
    {
        HostThread { has_context, guard_live: false }
    }

    pub fn has_context(&self) -> (r: bool)
        ensures
            r == self.spec_has_context(),
    {
        self.has_context
    }

    pub fn guard_live(&self) -> (r: bool)
        ensures
            r == self.spec_guard_live(),
    {
        self.guard_live
    }

    /// Acquires the thread's single guard. Fails with `NotCalledFromHost`
    /// when there is no live host context, and with `AlreadyEntered` when a
    /// guard is already live (the guard is not reentrant).
    pub fn acquire(&mut self) -> (r: Result<ContextGuard, BridgeError>)
        ensures
            final(self).spec_has_context() == old(self).spec_has_context(),
            !old(self).spec_has_context() ==> r == Err::<ContextGuard, BridgeError>(
                BridgeError::NotCalledFromHost,
            ),
            old(self).spec_has_context() && old(self).spec_guard_live() ==> r == Err::<
                ContextGuard,
                BridgeError,
            >(BridgeError::AlreadyEntered),
            r is Ok <==> (old(self).spec_has_context() && !old(self).spec_guard_live()),
            final(self).spec_guard_live() == (old(self).spec_guard_live() || r is Ok),
    {
        if !self.has_context {
            Err(BridgeError::NotCalledFromHost)
        } else if self.guard_live {
            Err(BridgeError::AlreadyEntered)
        } else {
            self.guard_live = true;
            Ok(ContextGuard { token: () })
        }
    }

    /// Gives the guard back at the end of the call; a new one may then be
    /// acquired.
    pub fn release(&mut self, guard: ContextGuard)
        ensures
            final(self).spec_has_context() == old(self).spec_has_context(),
            !final(self).spec_guard_live(),
    {
        let ContextGuard { token: _ } = guard;
        self.guard_live = false;
    }
}

} // verus!
