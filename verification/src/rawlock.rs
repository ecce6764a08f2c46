//! The raw lock: a three-state lock word and the tail of the wait queue.

use crate::futex::Futex;
use core::sync::atomic::Ordering;
use vstd::prelude::*;

verus! {

/// Lock word of a lock that nobody holds.
pub const UNLOCKED: u32 = 0;

/// Lock word of a lock that is held, by a fast-path caller or by the
/// combiner.
pub const LOCKED: u32 = 1;

/// Lock word of a poisoned lock.
pub const POISONED: u32 = 2;

/// The lock was poisoned: a thunk panicked under it, or it was poisoned on
/// purpose.
#[derive(Debug, Clone, Copy, Default, PartialEq, Eq, Structural)]
pub struct LockPoisoned;

/// The lock was expected to be poisoned and is not.
#[derive(Debug, Clone, Copy, Default, PartialEq, Eq, Structural)]
pub struct LockNotPoisoned;

pub type LockResult<T> = Result<T, LockPoisoned>;

impl LockPoisoned {
    /// The text shown for this error.
    pub fn to_string(&self) -> (text: String)
        ensures
            text@ == "Lock is poisoned"@,
    {
        "Lock is poisoned".to_owned()
    }
}

impl LockNotPoisoned {
    /// The text shown for this error.
    pub fn to_string(&self) -> (text: String)
        ensures
            text@ == "Lock is not poisoned"@,
    {
        "Lock is not poisoned".to_owned()
    }
}

/// What one attempt to take a lock with the lock word `status` reports:
/// `Ok(true)` for an unlocked lock, `Ok(false)` for a held one, and poison
/// for every other word.
pub open spec fn try_acquire_outcome(status: u32) -> LockResult<bool> {
    if status == UNLOCKED {
        Ok(true)
    } else if status == LOCKED {
        Ok(false)
    } else {
        Err(LockPoisoned)
    }
}

/// The lock word together with the tail of the wait queue.  A queue node is
/// named by its index in the node table.
pub struct RawLock {
    status: Futex,
    tail: Option<usize>,
}

/// What an attempt to take the lock reports, given what the
/// compare-exchange of the lock word from unlocked to locked found.
pub fn acquired(found: Result<u32, u32>) -> (taken: LockResult<bool>)
    ensures
        taken == match found {
            Ok(_) => Ok::<bool, LockPoisoned>(true),
            Err(status) => if status == LOCKED {
                Ok::<bool, LockPoisoned>(false)
            } else {
                Err::<bool, LockPoisoned>(LockPoisoned)
            },
        },
{
    match found {
        Ok(_) => Ok(true),
        Err(status) => {
            if status == LOCKED {
                Ok(false)
            } else {
                Err(LockPoisoned)
            }
        },
    }
}

/// What an attempt to take a poisoned lock for inspection reports, given
/// what the compare-exchange of the lock word from poisoned to locked found.
pub fn inspected(found: Result<u32, u32>) -> (taken: Result<(), LockNotPoisoned>)
    ensures
        taken.is_ok() == found.is_ok(),
{
    match found {
        Ok(_) => Ok(()),
        Err(_) => Err(LockNotPoisoned),
    }
}

impl RawLock {
    /// The lock word.
    pub closed spec fn status(&self) -> u32 {
        self.status@
    }

    /// The node that was enqueued last, if the queue is open.
    pub closed spec fn tail(&self) -> Option<usize> {
        self.tail
    }

    /// An unlocked lock with no queue.
    pub fn new() -> (raw: Self)
        ensures
            raw.status() == UNLOCKED,
            raw.tail().is_none(),
    {
        RawLock { status: Futex::new(UNLOCKED), tail: None }
    }

    /// Marks the lock poisoned, whatever its state was.
    pub fn poison(&mut self)
        ensures
            final(self).status() == POISONED,
            final(self).tail() == old(self).tail(),
    {
        self.status.store(POISONED);
    }

    /// Whether the queue holds a node.  `ordering` is the memory ordering
    /// under which a concurrent binding reads the tail.
    pub fn has_tail(&self, ordering: Ordering) -> (present: bool)
        ensures
            present == self.tail().is_some(),
    {
        self.tail.is_some()
    }

    /// Makes `new_tail` the tail and returns the tail it replaced.
    pub fn swap_tail(&mut self, new_tail: usize) -> (previous: Option<usize>)
        ensures
            previous == old(self).tail(),
            final(self).tail() == Some(new_tail),
            final(self).status() == old(self).status(),
    {
        let previous = self.tail;
        self.tail = Some(new_tail);
        previous
    }

    /// Empties the queue if `expected` is still its tail.  The result says
    /// whether the queue was closed.
    pub fn try_close(&mut self, expected: usize) -> (closed: bool)
        ensures
            closed == (old(self).tail() == Some(expected)),
            final(self).tail() == if closed {
                None
            } else {
                old(self).tail()
            },
            final(self).status() == old(self).status(),
    {
        match self.tail {
            Some(tail) => {
                if tail == expected {
                    self.tail = None;
                    true
                } else {
                    false
                }
            },
            None => false,
        }
    }

    /// One attempt to take the lock.  An unlocked lock becomes locked and
    /// the result is `Ok(true)`; a locked lock stays as it is and the result
    /// is `Ok(false)`; any other lock word is reported as poison.
    pub fn try_acquire(&mut self) -> (taken: LockResult<bool>)
        ensures
            final(self).tail() == old(self).tail(),
            taken == try_acquire_outcome(old(self).status()),
            final(self).status() == if old(self).status() == UNLOCKED {
                LOCKED
            } else {
                old(self).status()
            },
    {
        acquired(self.status.compare_exchange(UNLOCKED, LOCKED))
    }

    /// Takes the lock.  A caller of `acquire` waits for as long as the lock
    /// is held; with exclusive access to the word nobody else can release
    /// it, so a held lock is not accepted here.
    pub fn acquire(&mut self) -> (taken: LockResult<()>)
        requires
            old(self).status() != LOCKED,
        ensures
            final(self).tail() == old(self).tail(),
            old(self).status() == UNLOCKED ==> taken.is_ok() && final(self).status() == LOCKED,
            old(self).status() != UNLOCKED ==> taken.is_err(),
            old(self).status() != UNLOCKED ==> final(self).status() == old(self).status(),
    {
        match self.try_acquire() {
            Ok(_) => Ok(()),
            Err(poisoned) => Err(poisoned),
        }
    }

    /// Takes a poisoned lock for inspection: the lock word goes from
    /// poisoned to locked.  Any other lock word is left as it is and
    /// reported.
    pub fn acquire_poison(&mut self) -> (taken: Result<(), LockNotPoisoned>)
        ensures
            final(self).tail() == old(self).tail(),
            old(self).status() == POISONED ==> taken.is_ok() && final(self).status() == LOCKED,
            old(self).status() != POISONED ==> taken.is_err(),
            old(self).status() != POISONED ==> final(self).status() == old(self).status(),
    {
        inspected(self.status.compare_exchange(POISONED, LOCKED))
    }

    /// Gives the lock back: the lock word becomes unlocked.
    pub fn release(&mut self)
        ensures
            final(self).status() == UNLOCKED,
            final(self).tail() == old(self).tail(),
    {
        self.status.store(UNLOCKED);
    }

    /// Whether the lock is poisoned.  `ordering` is the memory ordering
    /// under which a concurrent binding reads the lock word.
    pub fn is_poisoned(&self, ordering: Ordering) -> (poisoned: bool)
        ensures
            poisoned == (self.status() == POISONED),
    {
        self.status.load() == POISONED
    }
}

} // verus!
