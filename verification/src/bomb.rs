//! Poison bombs: what a caller owes the lock when it leaves a guarded
//! section without having defused.
//!
//! A bomb holds no reference to the lock it was armed on, so the lock stays
//! usable while the bomb is armed.  Leaving the section in order consumes
//! the bomb with `diffuse`; abandoning it hands the lock to the bomb.

use crate::frame::Effect;
use crate::rawlock::RawLock;
use crate::rawlock::POISONED;
use vstd::prelude::*;

verus! {

/// The bomb of the fast path: when it goes off, the lock is poisoned.
pub struct LightWeightBomb {}

impl LightWeightBomb {
    /// Arms a bomb on the lock `raw`, in whatever shape the lock is held.
    pub fn new<L>(raw: &L) -> (bomb: Self) {
        LightWeightBomb {}
    }

    /// Defuses the bomb: the guarded section was left in order and the lock
    /// is not touched.
    pub fn diffuse(self) {
    }

    /// Sets the bomb off where the lock is out of reach: the result is what
    /// has to be done to the lock.
    pub fn explode(self) -> (effect: Effect)
        ensures
            effect == Effect::Poison,
    {
        Effect::Poison
    }

    /// Sets the bomb off: `raw` becomes poisoned.
    pub fn detonate(self, raw: &mut RawLock)
        ensures
            final(raw).status() == POISONED,
            final(raw).tail() == old(raw).tail(),
    {
        raw.poison();
    }
}

/// The bomb of the slow path.  Besides the lock it knows the node at which
/// the combiner stands, the atom, from which the poison is carried along the
/// queue.
pub struct HeavyWeightBomb {
    ignitor: Option<LightWeightBomb>,
    atom: usize,
}

impl HeavyWeightBomb {
    /// The node at which a detonation starts.
    pub closed spec fn atom(&self) -> usize {
        self.atom
    }

    /// Whether the bomb has not yet poisoned its lock.
    pub closed spec fn loaded(&self) -> bool {
        self.ignitor.is_some()
    }

    /// Arms a bomb on the lock `lock`, in whatever shape the lock is held,
    /// standing at `atom`.
    pub fn new<L>(lock: &L, atom: usize) -> (bomb: Self)
        ensures
            bomb.atom() == atom,
            bomb.loaded(),
    {
        HeavyWeightBomb { ignitor: Some(LightWeightBomb::new(lock)), atom }
    }

    /// Defuses the bomb: the attachment ended in order.
    pub fn diffuse(self) {
    }

    /// Moves the bomb to `new_atom`, the node the combiner has advanced to.
    pub fn reset(&mut self, new_atom: usize)
        ensures
            final(self).atom() == new_atom,
            final(self).loaded() == old(self).loaded(),
    {
        self.atom = new_atom;
    }

    /// The node at which the bomb stands.
    pub fn position(&self) -> (atom: usize)
        ensures
            atom == self.atom(),
    {
        self.atom
    }

    /// First part of a detonation: the bomb demands that the lock be
    /// poisoned.  A bomb that has done so already demands nothing.  What
    /// follows, carrying the poison from the atom along the queue, is the
    /// work of the bomb's owner.
    pub fn ignite(&mut self) -> (effect: Option<Effect>)
        ensures
            final(self).atom() == old(self).atom(),
            !final(self).loaded(),
            effect == if old(self).loaded() {
                Some(Effect::Poison)
            } else {
                None
            },
    {
        match self.ignitor.take() {
            Some(ignitor) => Some(ignitor.explode()),
            None => None,
        }
    }
}

} // verus!
