//! Waiting for a message: when to wake the waiting task.

use vstd::prelude::*;

verus! {

/// A task that waits for a message.
#[derive(Debug, Clone, Copy, PartialEq, Eq, Structural)]
pub struct WaitForMessage {
    /// A waker is stored.
    pub has_waker: bool,
}

/// What a poll of the task comes to.
#[derive(Debug, Clone, Copy, PartialEq, Eq, Structural)]
pub enum WaitPoll {
    /// The task goes on; a waker stored before stays.
    Ready,
    /// The task goes on; the stored waker is to be dropped.
    ReadyDropWaker,
    /// The task waits with its waker stored; the flag says that one stored
    /// before is to be dropped first.
    Pending(bool),
}

impl WaitForMessage {
    /// Nobody waits.
    pub fn new() -> (r: WaitForMessage)
        ensures
            !r.has_waker,
    {
        WaitForMessage { has_waker: false }
    }

    /// The waiting task is polled: `first` says whether a message was there
    /// before its waker was stored, `second` whether one was there after.
    pub fn poll(&mut self, first: bool, second: bool) -> (r: WaitPoll)
        ensures
            r == (if first {
                WaitPoll::Ready
            } else if second {
                WaitPoll::ReadyDropWaker
            } else {
                WaitPoll::Pending(old(self).has_waker)
            }),
            final(self).has_waker == (if first {
                old(self).has_waker
            } else {
                !second
            }),
    {
        if first {
            return WaitPoll::Ready;
        }
        let stale = self.has_waker;
        self.has_waker = true;
        if second {
            self.has_waker = false;
            return WaitPoll::ReadyDropWaker;
        }
        WaitPoll::Pending(stale)
    }

    /// A doorbell rang: `true` when the stored waker is to be woken, which
    /// takes it.
    pub fn notify_from_isr(&mut self, pending: bool) -> (r: bool)
        ensures
            r == (pending && old(self).has_waker),
            final(self).has_waker == (old(self).has_waker && !pending),
    {
        if !pending {
            return false;
        }
        let woken = self.has_waker;
        self.has_waker = false;
        woken
    }
}

} // verus!
