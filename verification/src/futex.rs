//! The futex word: a 32-bit cell that a participant parks on and that a
//! waker rewrites.

use vstd::prelude::*;

verus! {

/// A 32-bit word with the two operations the wait queue needs: parking while
/// the word holds a given value, and rewriting the word while learning
/// whether somebody is parked on it.
pub struct Futex {
    word: u32,
}

impl View for Futex {
    type V = u32;

    closed spec fn view(&self) -> u32 {
        self.word
    }
}

impl Futex {
    /// A word that holds `value`.
    pub fn new(value: u32) -> (futex: Self)
        ensures
            futex@ == value,
    {
        Futex { word: value }
    }

    /// The value the word holds.
    pub fn load(&self) -> (value: u32)
        ensures
            value == self@,
    {
        self.word
    }

    /// Writes `value` into the word.
    pub fn store(&mut self, value: u32)
        ensures
            final(self)@ == value,
    {
        self.word = value;
    }

    /// Writes `value` into the word and returns the value it replaced.
    pub fn swap(&mut self, value: u32) -> (previous: u32)
        ensures
            final(self)@ == value,
            previous == old(self)@,
    {
        let previous = self.word;
        self.word = value;
        previous
    }

    /// Writes `new` if the word holds `current`.  `Ok` carries the value that
    /// was replaced, `Err` the value that was found instead.
    pub fn compare_exchange(&mut self, current: u32, new: u32) -> (found: Result<u32, u32>)
        ensures
            old(self)@ == current ==> found == Ok::<u32, u32>(current) && final(self)@ == new,
            old(self)@ != current ==> found == Err::<u32, u32>(old(self)@),
            old(self)@ != current ==> final(self)@ == old(self)@,
    {
        if self.word == current {
            self.word = new;
            Ok(current)
        } else {
            Err(self.word)
        }
    }

    /// Whether a caller that parks while the word equals `value` stays
    /// parked: it does exactly as long as the word still holds `value`.
    pub fn wait(&self, value: u32) -> (parked: bool)
        ensures
            parked == (self@ == value),
    {
        self.word == value
    }

    /// Rewrites the word to `new_val`.  The result says whether a parked
    /// waiter has to be woken, which is the case exactly when the word held
    /// `old_val`, the value a waiter leaves behind before it parks.
    pub fn notify(&mut self, new_val: u32, old_val: u32) -> (wake: bool)
        ensures
            final(self)@ == new_val,
            wake == (old(self)@ == old_val),
    {
        self.swap(new_val) == old_val
    }
}

} // verus!
