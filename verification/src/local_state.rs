//! A rented state, and what a caller that fills buffers through it decides
//! between two calls of the kernel's function.

use crate::error::Error;
use crate::pool::Pool;
use crate::pool::Ptr;
use crate::pool::Rental;
use vstd::prelude::*;

verus! {

/// The error number for "try again".
pub const EAGAIN: i32 = 11;

/// The error number for "interrupted".
pub const EINTR: i32 = 4;

/// `linux_raw_sys::errno::EAGAIN`, which is 11 on every architecture the
/// crate knows.
#[verifier::external_body]
fn errno_again() -> (code: i32)
    ensures
        code == EAGAIN,
{
    linux_raw_sys::errno::EAGAIN as i32
}

/// `linux_raw_sys::errno::EINTR`, which is 4 on every architecture the
/// crate knows.
#[verifier::external_body]
fn errno_interrupted() -> (code: i32)
    ensures
        code == EINTR,
{
    linux_raw_sys::errno::EINTR as i32
}

/// What a call of the kernel's function that returned `result` reports:
/// the number of bytes it filled, or, for a negative result, the error
/// number that the result stands for.
pub open spec fn fill_outcome(result: i32) -> Result<usize, Error> {
    if result < 0 {
        Err(Error::Errno((-result) as i32))
    } else {
        Ok(result as usize)
    }
}

/// Whether a fill that failed with `error` is tried again: it is after an
/// interruption and after "try again".
pub open spec fn retried(error: Error) -> bool {
    error == Error::Errno(EAGAIN) || error == Error::Errno(EINTR)
}

/// How many bytes of a buffer are filled after a call that reported
/// `outcome`, when `filled` bytes were filled before it; or the error that
/// ends the filling.
pub open spec fn fill_progress(filled: usize, outcome: Result<usize, Error>) -> Result<
    usize,
    Error,
> {
    match outcome {
        Ok(count) => Ok((filled + count) as usize),
        Err(error) => if retried(error) {
            Ok(filled)
        } else {
            Err(error)
        },
    }
}

/// What is to be done next with a buffer.
#[derive(Debug, Clone, Copy, PartialEq, Eq, Structural)]
pub enum Filling {
    /// The buffer is full: the filling is over.
    Done,
    /// Call the kernel's function on the part of the buffer that starts at
    /// `from`.
    Call { from: usize },
}

/// What is to be done next with a buffer of `len` bytes of which `filled`
/// are filled: nothing when it is full, and a call on the rest otherwise.
pub open spec fn fill_action(len: usize, filled: usize) -> Filling {
    if filled >= len {
        Filling::Done
    } else {
        Filling::Call { from: filled }
    }
}

/// What follows a call that reported `outcome` while a buffer of `len`
/// bytes is filled of which `filled` were filled before the call: the next
/// thing to be done, or the error that ends the filling.
pub open spec fn fill_step(len: usize, filled: usize, outcome: Result<usize, Error>) -> Result<
    Filling,
    Error,
> {
    match fill_progress(filled, outcome) {
        Ok(now) => Ok(fill_action(len, now)),
        Err(error) => Err(error),
    }
}

/// A state that is rented from a pool.
pub struct LocalState {
    state: Ptr,
    inflight: bool,
}

impl LocalState {
    /// The address of the rented state.
    pub closed spec fn state(&self) -> Ptr {
        self.state
    }

    /// Whether a call of the kernel's function on this state is under way.
    pub closed spec fn inflight(&self) -> bool {
        self.inflight
    }

    /// Whether a call of the kernel's function on this state is under way.
    pub fn busy(&self) -> (busy: bool)
        ensures
            busy == self.inflight(),
    {
        self.inflight
    }

    /// The address of the rented state.
    pub fn address(&self) -> (state: Ptr)
        ensures
            state == self.state(),
    {
        self.state
    }

    /// Rents a state from `pool`.  With an empty free list there is nothing
    /// to rent and the result is `Ok(None)`: the pool has to grow first.
    pub fn new(pool: &mut Pool) -> (local: Result<Option<Self>, Error>)
        requires
            old(pool).wf(),
        ensures
            final(pool).wf(),
            final(pool).layout() == old(pool).layout(),
            final(pool).blocks() == old(pool).blocks(),
            final(pool).is_poisoned() == old(pool).is_poisoned(),
            old(pool).free().len() > 0 ==> {
                &&& local matches Ok(Some(rented))
                &&& rented.state() == Ptr(old(pool).free().first())
                &&& !rented.inflight()
                &&& final(pool).free() == old(pool).free().drop_first()
                &&& final(pool).rented() == old(pool).rented().insert(old(pool).free().first())
                &&& !old(pool).rented().contains(old(pool).free().first())
            },
            old(pool).free().len() == 0 ==> {
                &&& final(pool).free() == old(pool).free()
                &&& final(pool).rented() == old(pool).rented()
                &&& if old(pool).is_poisoned() {
                    local matches Err(Error::PoolPoisoned)
                } else {
                    local matches Ok(None)
                }
            },
    {
        match pool.get() {
            Ok(Rental::Rented(state)) => Ok(Some(LocalState { state, inflight: false })),
            Ok(Rental::Exhausted) => Ok(None),
            Err(error) => Err(error),
        }
    }

    /// Opens a call of the kernel's function: the state is marked as in
    /// use, and its address is returned for the call.  A state on which a
    /// call is under way is not accepted: that is a reentry.
    pub fn enter(&mut self) -> (state: Ptr)
        requires
            !old(self).inflight(),
        ensures
            final(self).inflight(),
            final(self).state() == old(self).state(),
            state == old(self).state(),
    {
        self.inflight = true;
        self.state
    }

    /// Closes a call of the kernel's function that returned `result` and
    /// reports it: the number of bytes that were filled, or the error.
    pub fn try_fill(&mut self, result: i32) -> (filled: Result<usize, Error>)
        requires
            old(self).inflight(),
            result > i32::MIN,
        ensures
            !final(self).inflight(),
            final(self).state() == old(self).state(),
            filled == fill_outcome(result),
    {
        self.inflight = false;
        if result < 0 {
            return Err(Error::Errno(-result));
        }
        Ok(result as usize)
    }

    /// Begins to fill a buffer of `len` bytes: says what is to be done
    /// first.  An empty buffer is full, and the kernel's function is not
    /// called for it.
    pub fn begin(&self, len: usize) -> (action: Filling)
        ensures
            action == fill_action(len, 0),
    {
        if len == 0 {
            Filling::Done
        } else {
            Filling::Call { from: 0 }
        }
    }

    /// What follows one call while a buffer of `len` bytes is filled, of
    /// which `filled` were filled before the call and which reported
    /// `outcome`.  The bytes that the call filled are counted in; the
    /// filling is over when the buffer is full, and goes on behind the bytes
    /// that are filled otherwise.  An interrupted call and one that says
    /// "try again" fill nothing and are repeated; every other error ends the
    /// filling.
    pub fn fill(&self, len: usize, filled: usize, outcome: Result<usize, Error>) -> (next:
        Result<Filling, Error>)
        requires
            filled < len,
            match outcome {
                Ok(count) => count <= len - filled,
                Err(_) => true,
            },
        ensures
            next == fill_step(len, filled, outcome),
            match next {
                Ok(Filling::Call { from }) => filled <= from < len,
                _ => true,
            },
    {
        let now = match outcome {
            Ok(count) => filled + count,
            Err(Error::Errno(code)) => {
                if code == errno_again() || code == errno_interrupted() {
                    filled
                } else {
                    return Err(Error::Errno(code));
                }
            },
            Err(error) => {
                return Err(error);
            },
        };
        if now >= len {
            Ok(Filling::Done)
        } else {
            Ok(Filling::Call { from: now })
        }
    }

    /// Gives the state back to `pool`, which has to be the pool it was
    /// rented from.
    pub fn release(self, pool: &mut Pool)
        requires
            old(pool).wf(),
            old(pool).rented().contains(self.state().0),
        ensures
            final(pool).wf(),
            final(pool).layout() == old(pool).layout(),
            final(pool).blocks() == old(pool).blocks(),
            final(pool).is_poisoned() == old(pool).is_poisoned(),
            final(pool).free() == old(pool).free().push(self.state().0),
            final(pool).rented() == old(pool).rented().remove(self.state().0),
    {
        pool.recycle(self.state);
    }
}

} // verus!
