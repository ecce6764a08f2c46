//! Queue nodes: one per enqueued invocation, carrying the status word its
//! owner waits on and the link to its successor.

use crate::futex::Futex;
use core::sync::atomic::Ordering;
use vstd::prelude::*;

verus! {

/// How often a waiter reads its status word before it parks.
pub const SPIN_LIMIT: usize = 100;

/// Status of a node that has received no message yet.
pub const WAITING: u32 = 0;

/// Message: the combiner has run this node's thunk.
pub const DONE: u32 = 1;

/// Message: this node's owner is the combiner from now on.
pub const HEAD: u32 = 2;

/// Status of a node whose owner has parked.
pub const SLEEPING: u32 = 3;

/// Message: the lock was poisoned before this node's thunk was run.
pub const POISONED: u32 = 4;

/// Whether `status` is a message, that is, neither of the two values a node
/// holds while its owner still waits.
pub open spec fn is_message(status: u32) -> bool {
    status != WAITING && status != SLEEPING
}

/// A node of the wait queue.  Nodes are named by their index in the node
/// table, and so is a node's successor.
pub struct Node {
    futex: Futex,
    next: Option<usize>,
}

/// What a node holds: its status word and its successor.
pub ghost struct NodeView {
    pub status: u32,
    pub next: Option<usize>,
}

impl View for Node {
    type V = NodeView;

    closed spec fn view(&self) -> NodeView {
        NodeView { status: self.futex@, next: self.next }
    }
}

impl Node {
    /// The status word.
    pub open spec fn status(&self) -> u32 {
        self@.status
    }

    /// The successor, once it has been published.
    pub open spec fn next(&self) -> Option<usize> {
        self@.next
    }

    /// A node that waits and has no successor.
    pub fn new() -> (node: Self)
        ensures
            node.status() == WAITING,
            node.next().is_none(),
    {
        Node { futex: Futex::new(WAITING), next: None }
    }

    /// Reads the status word.
    pub fn status_word(&self) -> (status: u32)
        ensures
            status == self.status(),
    {
        self.futex.load()
    }

    /// Goes to sleep until a message arrives.  A node that still waits is
    /// marked as sleeping; the result is the status word after that step, so
    /// `SLEEPING` says that the owner is parked and has to ask again, and
    /// every other result is the message that was received.
    pub fn wait(&mut self) -> (message: u32)
        ensures
            final(self).next() == old(self).next(),
            final(self).status() == if old(self).status() == WAITING {
                SLEEPING
            } else {
                old(self).status()
            },
            message == final(self).status(),
            message != WAITING,
    {
        match self.futex.compare_exchange(WAITING, SLEEPING) {
            Ok(_) => {
                let parked = self.futex.wait(SLEEPING);
                assert(parked);
                self.futex.load()
            },
            Err(value) => value,
        }
    }

    /// Leaves `message` in the status word.  The result says whether the
    /// owner is parked and has to be woken.
    pub fn wake(&mut self, message: u32) -> (parked: bool)
        ensures
            final(self).status() == message,
            final(self).next() == old(self).next(),
            parked == (old(self).status() == SLEEPING),
    {
        self.futex.notify(message, SLEEPING)
    }

    /// Wakes the owner with the message `DONE`.
    pub fn wake_as_done(&mut self) -> (parked: bool)
        ensures
            final(self).status() == DONE,
            final(self).next() == old(self).next(),
            parked == (old(self).status() == SLEEPING),
    {
        self.wake(DONE)
    }

    /// Wakes the owner with the message `HEAD`.
    pub fn wake_as_head(&mut self) -> (parked: bool)
        ensures
            final(self).status() == HEAD,
            final(self).next() == old(self).next(),
            parked == (old(self).status() == SLEEPING),
    {
        self.wake(HEAD)
    }

    /// Wakes the owner with the message `POISONED`.
    pub fn wake_as_poisoned(&mut self) -> (parked: bool)
        ensures
            final(self).status() == POISONED,
            final(self).next() == old(self).next(),
            parked == (old(self).status() == SLEEPING),
    {
        self.wake(POISONED)
    }

    /// The successor, if one has been published.  `ordering` is the memory
    /// ordering under which a concurrent binding performs the load.
    pub fn load_next(&self, ordering: Ordering) -> (next: Option<usize>)
        ensures
            next == self.next(),
    {
        self.next
    }

    /// Publishes `next` as the successor.
    pub fn store_next(&mut self, next: usize)
        ensures
            final(self).next() == Some(next),
            final(self).status() == old(self).status(),
    {
        self.next = Some(next);
    }
}

} // verus!
