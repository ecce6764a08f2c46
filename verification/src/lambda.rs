//! The lock word in its earlier shape: one call that tests the queue and
//! takes the lock, with the three answers of the fast path.

use crate::rawlock::RawLock;
use crate::rawlock::LOCKED;
use crate::rawlock::POISONED;
use crate::rawlock::UNLOCKED;
use core::sync::atomic::Ordering;
use vstd::prelude::*;

verus! {

/// What `try_lock` answers for a queue that is empty or not and a lock word
/// `status`: `Some(true)` where the lock was taken, `None` where it is
/// poisoned, and `Some(false)` wherever the caller has to queue.
pub open spec fn try_lock_outcome(queue_empty: bool, status: u32) -> Option<bool> {
    if queue_empty && status == UNLOCKED {
        Some(true)
    } else if queue_empty && status == POISONED {
        None
    } else {
        Some(false)
    }
}

/// A raw lock that is entered through `try_lock`.
pub struct LambdaLock {
    raw: RawLock,
}

impl LambdaLock {
    /// The lock word.
    pub closed spec fn status(&self) -> u32 {
        self.raw.status()
    }

    /// The tail of the queue.
    pub closed spec fn tail(&self) -> Option<usize> {
        self.raw.tail()
    }

    /// An unlocked lock with no queue.
    pub fn new() -> (lock: Self)
        ensures
            lock.status() == UNLOCKED,
            lock.tail().is_none(),
    {
        LambdaLock { raw: RawLock::new() }
    }

    /// Enqueues `node` as the new tail and returns the tail it replaced.
    pub fn swap_tail(&mut self, node: usize) -> (previous: Option<usize>)
        ensures
            previous == old(self).tail(),
            final(self).tail() == Some(node),
            final(self).status() == old(self).status(),
    {
        self.raw.swap_tail(node)
    }

    /// The fast path: with an empty queue, one attempt to take the lock
    /// word.  The lock word changes only where the lock is taken.
    pub fn try_lock(&mut self) -> (taken: Option<bool>)
        ensures
            taken == try_lock_outcome(old(self).tail().is_none(), old(self).status()),
            final(self).tail() == old(self).tail(),
            final(self).status() == if taken == Some(true) {
                LOCKED
            } else {
                old(self).status()
            },
    {
        if !self.raw.has_tail(Ordering::Relaxed) {
            let poisoned = self.raw.is_poisoned(Ordering::Relaxed);
            match self.raw.try_acquire() {
                Ok(true) => {
                    return Some(true);
                },
                Ok(false) => {
                    return Some(false);
                },
                Err(_) => {
                    if poisoned {
                        return None;
                    }
                },
            }
        }
        Some(false)
    }

    /// Gives the lock back: the lock word becomes unlocked.
    pub fn release(&mut self)
        ensures
            final(self).status() == UNLOCKED,
            final(self).tail() == old(self).tail(),
    {
        self.raw.release();
    }
}

} // verus!
