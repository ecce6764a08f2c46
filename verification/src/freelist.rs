//! The free list: an unbounded queue of state addresses, kept in a
//! `crossbeam_queue::SegQueue`.

use crossbeam_queue::SegQueue;
use vstd::prelude::*;

verus! {

/// `crossbeam_queue::SegQueue`, of which nothing is known but what the
/// functions below say.
#[verifier::external_type_specification]
#[verifier::external_body]
#[verifier::reject_recursive_types(T)]
pub struct ExSegQueue<T>(SegQueue<T>);

/// The addresses that a free list holds, the one that leaves next first.
pub uninterp spec fn queued(list: SegQueue<usize>) -> Seq<usize>;

/// `SegQueue::new`: a queue that holds nothing.
#[verifier::external_body]
pub(crate) fn new_list() -> (list: SegQueue<usize>)
    ensures
        queued(list) == Seq::<usize>::empty(),
{
    SegQueue::new()
}

/// `SegQueue::push`: the value is added at the tail of the queue, behind
/// everything the queue holds.
#[verifier::external_body]
pub(crate) fn push(list: &mut SegQueue<usize>, address: usize)
    ensures
        queued(*final(list)) == queued(*old(list)).push(address),
{
    list.push(address);
}

/// `SegQueue::pop`: the value at the head of the queue leaves it and is
/// returned; an empty queue stays empty and gives `None`.
#[verifier::external_body]
pub(crate) fn pop(list: &mut SegQueue<usize>) -> (address: Option<usize>)
    ensures
        queued(*old(list)).len() == 0 ==> address.is_none(),
        queued(*old(list)).len() == 0 ==> queued(*final(list)) == queued(*old(list)),
        queued(*old(list)).len() > 0 ==> address == Some(queued(*old(list)).first()),
        queued(*old(list)).len() > 0 ==> queued(*final(list)) == queued(*old(list)).drop_first(),
{
    list.pop()
}

} // verus!
