//! The lock itself: a datum behind a raw lock and its wait queue, reached
//! by handing the lock a function to run on the datum.

use crate::node::Node;
use crate::protocol::Poll;
use crate::protocol::Stage;
use crate::queue::WaitQueue;
use crate::rawlock::LockNotPoisoned;
use crate::rawlock::LockPoisoned;
use crate::rawlock::LockResult;
use crate::rawlock::POISONED;
use crate::rawlock::UNLOCKED;
use core::ops::ControlFlow;
use vstd::prelude::*;

verus! {

/// A call that the owner of a lock makes.
pub enum Call {
    /// `run`, or `run_slowly`.
    Run,
    /// `poison`.
    Poison,
    /// `unpoison`, or `inspect_poison` with a function that breaks.
    Unpoison,
    /// `inspect_poison` with a function that continues.
    Inspect,
}

/// Whether `call` succeeds on a lock that is poisoned or not: `run` and
/// `poison` want a sound lock, the other two a poisoned one.
pub open spec fn succeeds(poisoned: bool, call: Call) -> bool {
    match call {
        Call::Run => !poisoned,
        Call::Poison => !poisoned,
        Call::Unpoison => poisoned,
        Call::Inspect => poisoned,
    }
}

/// Whether the lock is poisoned after `call`: `poison` leaves it poisoned,
/// `unpoison` sound, and the other two as it was.
pub open spec fn poisoned_after(poisoned: bool, call: Call) -> bool {
    match call {
        Call::Run => poisoned,
        Call::Poison => true,
        Call::Unpoison => false,
        Call::Inspect => poisoned,
    }
}

/// Whether the lock is poisoned after all of `calls`, made in order.
pub open spec fn poisoned_after_all(poisoned: bool, calls: Seq<Call>) -> bool
    decreases calls.len(),
{
    if calls.len() == 0 {
        poisoned
    } else {
        poisoned_after(poisoned_after_all(poisoned, calls.drop_last()), calls.last())
    }
}

/// A poisonable lock around a datum.  The datum is reached by `run`, which
/// takes the function to apply to it.
pub struct Lock<T> {
    queue: WaitQueue,
    data: T,
}

impl<T> View for Lock<T> {
    type V = T;

    closed spec fn view(&self) -> T {
        self.data
    }
}

impl<T> Lock<T> {
    /// The lock is at rest.
    pub closed spec fn wf(&self) -> bool {
        &&& self.queue.wf()
        &&& self.queue@.at_rest()
    }

    /// Whether the lock is poisoned.
    pub closed spec fn is_poisoned(&self) -> bool {
        self.queue@.lock == POISONED
    }

    /// A sound lock around `data`.
    pub fn new(data: T) -> (lock: Self)
        ensures
            lock.wf(),
            lock@ == data,
            !lock.is_poisoned(),
    {
        Lock { queue: WaitQueue::new(), data }
    }

    /// Poisons the lock.  A lock that is poisoned already reports so and
    /// stays as it is.
    pub fn poison(&mut self) -> (result: Result<(), LockPoisoned>)
        requires
            old(self).wf(),
        ensures
            final(self).wf(),
            final(self)@ == old(self)@,
            result.is_ok() == succeeds(old(self).is_poisoned(), Call::Poison),
            final(self).is_poisoned() == poisoned_after(old(self).is_poisoned(), Call::Poison),
    {
        match self.queue.acquire() {
            Ok(()) => {
                self.queue.abandon();
                Ok(())
            },
            Err(poisoned) => Err(poisoned),
        }
    }
}

impl<T> Lock<T> {
    /// Runs `f` on the datum through the queue: the caller enqueues a node of
    /// its own, becomes the head of the queue, takes the lock word, runs its
    /// thunk as the combiner and closes the queue.  On a poisoned lock the
    /// head's bomb goes off instead, and the thunk is not run.  The node
    /// table is emptied first: at rest it holds only what is over.
    pub fn run_slowly<F, R>(&mut self, f: F) -> (result: LockResult<R>) where
        F: FnOnce(&mut T) -> R,

        requires
            old(self).wf(),
            !old(self).is_poisoned() ==> forall|datum: &mut T|
                *datum == old(self)@ ==> call_requires(f, (datum,)),
        ensures
            final(self).wf(),
            result.is_ok() == succeeds(old(self).is_poisoned(), Call::Run),
            final(self).is_poisoned() == poisoned_after(old(self).is_poisoned(), Call::Run),
            old(self).is_poisoned() ==> final(self)@ == old(self)@,
            result.is_ok() ==> exists|datum: &mut T, out: R|
                *datum == old(self)@ && *final(datum) == final(self)@ && result == Ok::<
                    R,
                    LockPoisoned,
                >(out) && #[trigger] call_ensures(f, (datum,), out),
    {
        proof {
            self.queue.lemma_wf_view();
        }
        self.queue.clear();
        let this = match self.queue.enlist() {
            Some(this) => this,
            None => {
                return Err(LockPoisoned);
            },
        };
        let ghost enlisted = self.queue@;
        assert(enlisted.stage(this) == Stage::Fresh);
        assert(enlisted.node(this).next.is_none());
        let _ = Node::attach(this, &mut self.queue);
        let ghost enqueued = self.queue@;
        assert(enqueued == enlisted.step_fresh(this).0);
        assert(enqueued.stage(this) == Stage::Acquire);
        assert(enqueued.line =~= seq![this]);
        assert(enqueued.node(this).next.is_none());
        match Node::attach(this, &mut self.queue) {
            Poll::Run(_) => {
                let ghost acquired = self.queue@;
                assert(acquired == enqueued.step_acquire(this).0);
                assert(acquired.stage(this) == Stage::Running);
                assert(acquired.cursor(this) == this);
                assert(acquired.node(this).next.is_none());
                let datum = &mut self.data;
                let ghost witness = datum;
                let out = f(datum);
                assert(exists|datum: &mut T|
                    *datum == *witness && *final(datum) == *final(witness) && #[trigger] call_ensures(
                        f,
                        (datum,),
                        out,
                    ));
                let _ = Node::attach(this, &mut self.queue);
                let ghost closing = self.queue@;
                assert(closing == acquired.step_running(this).0);
                assert(closing.stage(this) == Stage::Close);
                assert(closing.cursor(this) == this);
                let _ = Node::attach(this, &mut self.queue);
                assert(self.queue@ == closing.step_close(this).0);
                assert(self.queue@.line =~= Seq::empty());
                let result = Ok(out);
                assert(exists|datum: &mut T, out: R|
                    *datum == old(self).data && *final(datum) == self.data && result == Ok::<
                        R,
                        LockPoisoned,
                    >(out) && #[trigger] call_ensures(f, (datum,), out));
                result
            },
            _ => {
                let ghost ignited = self.queue@;
                assert(ignited == enqueued.step_acquire(this).0);
                assert(ignited.stage(this) == (Stage::Walk { panicked: false }));
                assert(ignited.cursor(this) == this);
                assert(ignited.node(this).next.is_none());
                let _ = Node::attach(this, &mut self.queue);
                let ghost sealing = self.queue@;
                assert(sealing == ignited.step_walk(this, false).0);
                assert(sealing.stage(this) == (Stage::Seal { panicked: false }));
                assert(sealing.cursor(this) == this);
                let _ = Node::attach(this, &mut self.queue);
                assert(self.queue@ == sealing.step_seal(this, false).0);
                assert(self.queue@.line =~= Seq::empty());
                Err(LockPoisoned)
            },
        }
    }

    /// Runs `f` on the datum.  A caller that finds the queue empty and the
    /// lock free runs `f` itself, under a bomb, and releases the lock; every
    /// other caller goes through the queue.  On a poisoned lock `f` is not
    /// run.
    pub fn run<F, R>(&mut self, f: F) -> (result: LockResult<R>) where
        F: FnOnce(&mut T) -> R,

        requires
            old(self).wf(),
            !old(self).is_poisoned() ==> forall|datum: &mut T|
                *datum == old(self)@ ==> call_requires(f, (datum,)),
        ensures
            final(self).wf(),
            result.is_ok() == succeeds(old(self).is_poisoned(), Call::Run),
            final(self).is_poisoned() == poisoned_after(old(self).is_poisoned(), Call::Run),
            old(self).is_poisoned() ==> final(self)@ == old(self)@,
            result.is_ok() ==> exists|datum: &mut T, out: R|
                *datum == old(self)@ && *final(datum) == final(self)@ && result == Ok::<
                    R,
                    LockPoisoned,
                >(out) && #[trigger] call_ensures(f, (datum,), out),
    {
        match self.queue.try_enter() {
            Ok(true) => {
                let datum = &mut self.data;
                let ghost witness = datum;
                let out = f(datum);
                assert(exists|datum: &mut T|
                    *datum == *witness && *final(datum) == *final(witness) && #[trigger] call_ensures(
                        f,
                        (datum,),
                        out,
                    ));
                self.queue.leave();
                let result = Ok(out);
                assert(exists|datum: &mut T, out: R|
                    *datum == old(self).data && *final(datum) == self.data && result == Ok::<
                        R,
                        LockPoisoned,
                    >(out) && #[trigger] call_ensures(f, (datum,), out));
                result
            },
            Ok(false) => self.run_slowly(f),
            Err(poisoned) => Err(poisoned),
        }
    }

    /// Inspects a poisoned lock: `f` is run on the datum, and its result
    /// decides what becomes of the lock.  With `Continue` the lock stays
    /// poisoned, with `Break` it is sound again; either way the value that
    /// `f` gave is returned.  A lock that is not poisoned reports so, and
    /// `f` is not run.
    pub fn inspect_poison<F, R>(&mut self, f: F) -> (result: Result<R, LockNotPoisoned>) where
        F: FnOnce(&mut T) -> ControlFlow<R, R>,

        requires
            old(self).wf(),
            old(self).is_poisoned() ==> forall|datum: &mut T|
                *datum == old(self)@ ==> call_requires(f, (datum,)),
        ensures
            final(self).wf(),
            result.is_ok() == old(self).is_poisoned(),
            !old(self).is_poisoned() ==> final(self)@ == old(self)@ && !final(self).is_poisoned(),
            match result {
                Ok(out) => exists|datum: &mut T, flow: ControlFlow<R, R>|
                    *datum == old(self)@ && *final(datum) == final(self)@ && #[trigger] call_ensures(
                        f,
                        (datum,),
                        flow,
                    ) && match flow {
                        ControlFlow::Continue(kept) => out == kept && final(self).is_poisoned(),
                        ControlFlow::Break(kept) => out == kept && !final(self).is_poisoned(),
                    },
                Err(_) => true,
            },
    {
        match self.queue.acquire_poison() {
            Ok(()) => {},
            Err(sound) => {
                return Err(sound);
            },
        }
        let datum = &mut self.data;
        let ghost witness = datum;
        let flow = f(datum);
        assert(exists|datum: &mut T|
            *datum == *witness && *final(datum) == *final(witness) && #[trigger] call_ensures(
                f,
                (datum,),
                flow,
            ));
        match flow {
            ControlFlow::Continue(out) => {
                self.queue.abandon();
                Ok(out)
            },
            ControlFlow::Break(out) => {
                self.queue.leave();
                Ok(out)
            },
        }
    }

    /// Makes a poisoned lock sound again and leaves the datum as it is.  A
    /// lock that is not poisoned reports so.
    pub fn unpoison(&mut self) -> (result: Result<(), LockNotPoisoned>)
        requires
            old(self).wf(),
        ensures
            final(self).wf(),
            final(self)@ == old(self)@,
            result.is_ok() == succeeds(old(self).is_poisoned(), Call::Unpoison),
            final(self).is_poisoned() == poisoned_after(old(self).is_poisoned(), Call::Unpoison),
    {
        let release = |datum: &mut T| -> (flow: ControlFlow<(), ()>)
            ensures
                *final(datum) == *old(datum),
                flow is Break,
            {
                let flow = ControlFlow::Break(());
                flow
            };
        self.inspect_poison(release)
    }
}

/// Poison is sticky.  After `poison`, whatever the lock was before, every
/// `run` fails for as long as no call unpoisons the lock: not the first
/// `run` after any number of calls that are not `unpoison`.
pub proof fn lemma_poison_is_sticky(before: bool, calls: Seq<Call>)
    requires
        forall|i: int| 0 <= i < calls.len() ==> !((#[trigger] calls[i]) is Unpoison),
    ensures
        poisoned_after_all(poisoned_after(before, Call::Poison), calls),
        !succeeds(poisoned_after_all(poisoned_after(before, Call::Poison), calls), Call::Run),
    decreases calls.len(),
{
    if calls.len() > 0 {
        let earlier = calls.drop_last();
        assert forall|i: int| 0 <= i < earlier.len() implies !((#[trigger] earlier[i])
            is Unpoison) by {
            assert(earlier[i] == calls[i]);
        }
        lemma_poison_is_sticky(before, earlier);
        assert(!(calls[calls.len() - 1] is Unpoison));
    }
}

/// `unpoison` ends the poison: the `run` that follows it succeeds.
pub proof fn lemma_unpoison_heals(before: bool)
    ensures
        succeeds(poisoned_after(before, Call::Unpoison), Call::Run),
{
}

} // verus!
