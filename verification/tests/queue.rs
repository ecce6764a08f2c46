use core::sync::atomic::Ordering;
use lamlock::node::Node;
use lamlock::node::DONE;
use lamlock::node::HEAD;
use lamlock::node::POISONED;
use lamlock::node::SLEEPING;
use lamlock::node::SPIN_LIMIT;
use lamlock::node::WAITING;
use lamlock::protocol::Poll;
use lamlock::protocol::Stage;
use lamlock::queue::WaitQueue;
use lamlock::LockPoisoned;

/// Steps the participants in turn, in the order given by `order`, until all
/// of them are done.  The thunk of node `i` adds `add(i)` to the datum; the
/// thunk of node `panics`, if any, panics after that.  Returns what each
/// participant was told at its end, and the nodes in the order in which
/// their thunks were run.
fn drive(
    queue: &mut WaitQueue,
    order: &[usize],
    datum: &mut usize,
    add: &dyn Fn(usize) -> usize,
    panics: Option<usize>,
) -> (Vec<Option<Poll>>, Vec<usize>) {
    let mut ends: Vec<Option<Poll>> = vec![None; queue.len()];
    let mut ran = Vec::new();
    let mut rounds = 0;
    while order.iter().any(|&this| ends[this].is_none()) {
        rounds += 1;
        assert!(rounds < 10_000, "somebody is left waiting");
        for &this in order {
            if ends[this].is_some() {
                continue;
            }
            match Node::attach(this, queue) {
                Poll::Pending => {}
                Poll::Run(node) => {
                    assert!(!queue.raw().is_poisoned(Ordering::Acquire));
                    *datum += add(node);
                    ran.push(node);
                    if panics == Some(node) {
                        Node::unwind(this, queue);
                    }
                }
                end => ends[this] = Some(end),
            }
        }
    }
    (ends, ran)
}

fn enlist(queue: &mut WaitQueue, count: usize) -> Vec<usize> {
    (0..count).map(|_| queue.enlist().unwrap()).collect()
}

#[test]
fn test_node_wait() {
    let mut node = Node::new();
    assert_eq!(node.status_word(), WAITING);
    assert!(!node.wake(HEAD));
    let result = node.wait();
    assert_eq!(result, HEAD);
}

#[test]
fn node_wait_parks_until_woken() {
    let mut node = Node::new();
    assert_eq!(node.wait(), SLEEPING);
    assert_eq!(node.wait(), SLEEPING);
    assert!(node.wake_as_done());
    assert_eq!(node.wait(), DONE);
    assert!(!node.wake_as_poisoned());
    assert_eq!(node.wait(), POISONED);
    assert!(!node.wake_as_head());
    assert_eq!(node.status_word(), HEAD);
}

#[test]
fn test_node_next() {
    let mut node = Node::new();
    let mut local_node = Node::new();
    assert_eq!(node.load_next(Ordering::Acquire), None);
    node.store_next(1);
    match node.load_next(Ordering::Acquire) {
        Some(next) => {
            assert_eq!(next, 1);
            local_node.wake(DONE);
        }
        None => unreachable!(),
    }
    assert_eq!(local_node.wait(), DONE);
}

#[test]
fn test_node_attach() {
    const NUM_THREADS: usize = 100;
    let mut counter = 0;
    let mut queue = WaitQueue::new();
    let order = enlist(&mut queue, NUM_THREADS);
    let (ends, ran) = drive(&mut queue, &order, &mut counter, &|_| 1, None);
    assert!(ends.iter().all(|end| *end == Some(Poll::Ready(Ok(())))));
    assert_eq!(ran.len(), NUM_THREADS);
    assert_eq!(counter, NUM_THREADS);
}

#[test]
fn lib_multi_thread_test() {
    let cnt = 100;
    let mut datum = 0;
    let mut queue = WaitQueue::new();
    let order = enlist(&mut queue, cnt);
    let (ends, _) = drive(&mut queue, &order, &mut datum, &|i| cnt - i, None);
    assert!(ends.iter().all(|end| *end == Some(Poll::Ready(Ok(())))));
    assert_eq!(datum, cnt * (cnt + 1) / 2);
    assert!(!queue.raw().is_poisoned(Ordering::Acquire));
    assert!(!queue.raw().has_tail(Ordering::Acquire));
    assert_eq!(queue.try_enter(), Ok(true));
}

#[test]
fn thunks_run_in_the_order_of_the_tail_swaps() {
    let mut datum = 0;
    let mut queue = WaitQueue::new();
    let nodes = enlist(&mut queue, 6);
    // The tail swaps happen in this order.
    let arrival = [3, 0, 5, 1, 4, 2];
    for &this in &arrival {
        assert_eq!(Node::attach(this, &mut queue), Poll::Pending);
    }
    // Afterwards the participants step in another order.
    let order = [2, 4, 1, 5, 0, 3];
    let (ends, ran) = drive(&mut queue, &order, &mut datum, &|i| 1 << i, None);
    assert_eq!(ran, arrival);
    assert_eq!(datum, 0b111111);
    assert!(ends.iter().all(|end| *end == Some(Poll::Ready(Ok(())))));
    assert_eq!(nodes.len(), 6);
}

#[test]
fn panic_chain_poisons_every_waiter() {
    let cnt = 100;
    let mut datum = 0;
    let mut queue = WaitQueue::new();
    let order = enlist(&mut queue, cnt);
    let (ends, ran) = drive(&mut queue, &order, &mut datum, &|i| cnt - i, Some(cnt / 2));
    assert_eq!(*ran.last().unwrap(), cnt / 2);
    let unwound = ends.iter().filter(|end| **end == Some(Poll::Unwound)).count();
    assert_eq!(unwound, 1);
    for (this, end) in ends.iter().enumerate() {
        let ran_before = ran.contains(&this) && this != cnt / 2;
        match end {
            Some(Poll::Ready(Ok(()))) => assert!(ran_before),
            Some(Poll::Ready(Err(LockPoisoned))) => assert!(!ran_before),
            Some(Poll::Unwound) => {}
            other => panic!("left waiting: {:?}", other),
        }
    }
    assert!(queue.raw().is_poisoned(Ordering::Acquire));
    assert!(!queue.raw().has_tail(Ordering::Acquire));
    // Whoever comes now is turned away.
    let late = queue.enlist().unwrap();
    assert_eq!(queue.try_enter(), Err(LockPoisoned));
    let mut end = Poll::Pending;
    for _ in 0..4 {
        end = Node::attach(late, &mut queue);
    }
    assert_eq!(end, Poll::Ready(Err(LockPoisoned)));
    assert_eq!(datum, ran.iter().map(|i| cnt - i).sum::<usize>());
}

#[test]
fn fast_path_panic_reaches_the_queue() {
    let mut queue = WaitQueue::new();
    let nodes = enlist(&mut queue, 2);
    let (b, c) = (nodes[0], nodes[1]);
    // A takes the lock on the fast path.
    assert_eq!(queue.try_enter(), Ok(true));
    // B enters the queue as its head and spins on the lock word.
    assert_eq!(queue.try_enter(), Ok(false));
    assert_eq!(Node::attach(b, &mut queue), Poll::Pending);
    assert_eq!(queue.stage(b), Stage::Acquire);
    assert_eq!(Node::attach(b, &mut queue), Poll::Pending);
    // C enters the queue behind B and waits.
    assert_eq!(Node::attach(c, &mut queue), Poll::Pending);
    assert_eq!(queue.stage(c), Stage::Link { prev: b });
    assert_eq!(Node::attach(c, &mut queue), Poll::Pending);
    assert_eq!(Node::attach(c, &mut queue), Poll::Pending);
    // A panics.
    queue.abandon();
    assert!(queue.raw().is_poisoned(Ordering::Acquire));
    // B finds the poison and tells C.
    assert_eq!(Node::attach(b, &mut queue), Poll::Pending);
    assert_eq!(queue.stage(b), Stage::Walk { panicked: false });
    assert_eq!(Node::attach(b, &mut queue), Poll::Pending);
    assert_eq!(queue.node(b).status_word(), POISONED);
    assert_eq!(Node::attach(b, &mut queue), Poll::Pending);
    assert_eq!(Node::attach(b, &mut queue), Poll::Ready(Err(LockPoisoned)));
    assert_eq!(queue.node(c).status_word(), POISONED);
    assert_eq!(Node::attach(c, &mut queue), Poll::Ready(Err(LockPoisoned)));
    assert!(!queue.raw().has_tail(Ordering::Acquire));
}

#[test]
fn waiter_parks_after_the_spin_limit() {
    let mut queue = WaitQueue::new();
    let nodes = enlist(&mut queue, 2);
    let (head, waiter) = (nodes[0], nodes[1]);
    assert_eq!(Node::attach(head, &mut queue), Poll::Pending);
    assert_eq!(Node::attach(head, &mut queue), Poll::Run(head));
    assert_eq!(Node::attach(waiter, &mut queue), Poll::Pending);
    assert_eq!(Node::attach(waiter, &mut queue), Poll::Pending);
    assert_eq!(queue.stage(waiter), Stage::Spin { left: SPIN_LIMIT });
    for read in 1..SPIN_LIMIT {
        assert_eq!(Node::attach(waiter, &mut queue), Poll::Pending);
        assert_eq!(queue.stage(waiter), Stage::Spin { left: SPIN_LIMIT - read });
        assert_eq!(queue.node(waiter).status_word(), WAITING);
    }
    assert_eq!(Node::attach(waiter, &mut queue), Poll::Pending);
    assert_eq!(queue.stage(waiter), Stage::Park);
    assert_eq!(queue.node(waiter).status_word(), WAITING);
    assert_eq!(Node::attach(waiter, &mut queue), Poll::Pending);
    assert_eq!(queue.node(waiter).status_word(), SLEEPING);
    assert_eq!(Node::attach(waiter, &mut queue), Poll::Pending);
    // The combiner moves on to the waiter and runs its thunk.
    assert_eq!(Node::attach(head, &mut queue), Poll::Run(waiter));
    assert_eq!(queue.node(head).status_word(), DONE);
    assert_eq!(queue.node(waiter).status_word(), SLEEPING);
    assert_eq!(Node::attach(head, &mut queue), Poll::Pending);
    assert_eq!(Node::attach(head, &mut queue), Poll::Ready(Ok(())));
    assert_eq!(queue.node(waiter).status_word(), DONE);
    assert_eq!(Node::attach(waiter, &mut queue), Poll::Ready(Ok(())));
    assert_eq!(queue.try_enter(), Ok(true));
}

#[test]
fn combiner_hands_over_to_a_late_successor() {
    let mut queue = WaitQueue::new();
    let nodes = enlist(&mut queue, 2);
    let (head, late) = (nodes[0], nodes[1]);
    assert_eq!(Node::attach(head, &mut queue), Poll::Pending);
    assert_eq!(Node::attach(head, &mut queue), Poll::Run(head));
    // The combiner sees no successor ...
    assert_eq!(Node::attach(head, &mut queue), Poll::Pending);
    assert_eq!(queue.stage(head), Stage::Close);
    // ... then the late one swaps the tail, but has not published itself.
    assert_eq!(Node::attach(late, &mut queue), Poll::Pending);
    assert_eq!(queue.stage(late), Stage::Link { prev: head });
    // The queue cannot be closed, and the combiner waits for the link.
    assert_eq!(Node::attach(head, &mut queue), Poll::Pending);
    assert_eq!(queue.stage(head), Stage::Handoff);
    assert_eq!(Node::attach(head, &mut queue), Poll::Pending);
    assert_eq!(queue.stage(head), Stage::Handoff);
    assert_eq!(Node::attach(late, &mut queue), Poll::Pending);
    assert_eq!(Node::attach(head, &mut queue), Poll::Ready(Ok(())));
    assert_eq!(queue.node(late).status_word(), HEAD);
    assert_eq!(queue.node(head).status_word(), DONE);
    // The lock stays held for the new combiner.
    assert_eq!(queue.try_enter(), Ok(false));
    assert_eq!(Node::attach(late, &mut queue), Poll::Run(late));
    assert_eq!(Node::attach(late, &mut queue), Poll::Pending);
    assert_eq!(Node::attach(late, &mut queue), Poll::Ready(Ok(())));
    assert_eq!(queue.try_enter(), Ok(true));
}

#[test]
fn detonation_waits_for_a_late_successor() {
    let mut queue = WaitQueue::new();
    let nodes = enlist(&mut queue, 2);
    let (head, late) = (nodes[0], nodes[1]);
    assert_eq!(Node::attach(head, &mut queue), Poll::Pending);
    assert_eq!(Node::attach(head, &mut queue), Poll::Run(head));
    Node::unwind(head, &mut queue);
    assert_eq!(queue.stage(head), Stage::Walk { panicked: true });
    assert_eq!(Node::attach(head, &mut queue), Poll::Pending);
    assert_eq!(queue.stage(head), Stage::Seal { panicked: true });
    assert_eq!(Node::attach(late, &mut queue), Poll::Pending);
    assert_eq!(Node::attach(head, &mut queue), Poll::Pending);
    assert_eq!(queue.stage(head), Stage::Chase { panicked: true });
    assert_eq!(Node::attach(head, &mut queue), Poll::Pending);
    assert_eq!(queue.stage(head), Stage::Chase { panicked: true });
    assert_eq!(Node::attach(late, &mut queue), Poll::Pending);
    assert_eq!(Node::attach(head, &mut queue), Poll::Pending);
    assert_eq!(queue.stage(head), Stage::Walk { panicked: true });
    assert_eq!(Node::attach(head, &mut queue), Poll::Pending);
    assert_eq!(queue.node(head).status_word(), POISONED);
    assert_eq!(Node::attach(head, &mut queue), Poll::Pending);
    assert_eq!(Node::attach(head, &mut queue), Poll::Unwound);
    assert_eq!(Node::attach(head, &mut queue), Poll::Unwound);
    assert_eq!(queue.node(late).status_word(), POISONED);
    assert_eq!(Node::attach(late, &mut queue), Poll::Ready(Err(LockPoisoned)));
}

#[test]
fn outside_callers_take_and_leave_the_lock_word() {
    let mut queue = WaitQueue::new();
    assert_eq!(queue.len(), 0);
    assert_eq!(queue.acquire_poison(), Err(lamlock::LockNotPoisoned));
    assert_eq!(queue.acquire(), Ok(()));
    assert_eq!(queue.try_enter(), Ok(false));
    queue.abandon();
    assert_eq!(queue.acquire(), Err(LockPoisoned));
    assert_eq!(queue.try_enter(), Err(LockPoisoned));
    assert_eq!(queue.acquire_poison(), Ok(()));
    queue.leave();
    assert_eq!(queue.try_enter(), Ok(true));
    queue.leave();
    assert_eq!(queue.enlist(), Some(0));
    assert_eq!(queue.enlist(), Some(1));
    assert_eq!(queue.len(), 2);
    assert_eq!(queue.stage(1), Stage::Fresh);
}

#[test]
fn leaving_and_unwinding_without_cause_change_nothing() {
    let mut queue = WaitQueue::new();
    let this = queue.enlist().unwrap();
    queue.leave();
    queue.abandon();
    assert!(!queue.raw().is_poisoned(Ordering::Acquire));
    Node::unwind(this, &mut queue);
    assert_eq!(queue.stage(this), Stage::Fresh);
    assert_eq!(Node::attach(this, &mut queue), Poll::Pending);
    Node::unwind(this, &mut queue);
    assert_eq!(queue.stage(this), Stage::Acquire);
    assert!(!queue.raw().is_poisoned(Ordering::Acquire));
    assert_eq!(Node::attach(this, &mut queue), Poll::Run(this));
    assert_eq!(Node::attach(this, &mut queue), Poll::Pending);
    assert_eq!(Node::attach(this, &mut queue), Poll::Ready(Ok(())));
    assert_eq!(Node::attach(this, &mut queue), Poll::Ready(Ok(())));
    assert_eq!(queue.node(this).status_word(), DONE);
}

#[test]
fn clear_empties_the_node_table_at_rest() {
    let mut datum = 0;
    let mut queue = WaitQueue::new();
    let order = enlist(&mut queue, 3);
    drive(&mut queue, &order, &mut datum, &|_| 1, None);
    assert_eq!(queue.len(), 3);
    queue.clear();
    assert_eq!(queue.len(), 0);
    assert_eq!(queue.enlist(), Some(0));
    assert_eq!(queue.stage(0), Stage::Fresh);
    assert_eq!(Node::attach(0, &mut queue), Poll::Pending);
    assert_eq!(Node::attach(0, &mut queue), Poll::Run(0));
}
