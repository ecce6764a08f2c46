use core::sync::atomic::Ordering;
use lamlock::bomb::HeavyWeightBomb;
use lamlock::bomb::LightWeightBomb;
use lamlock::frame::Effect;
use lamlock::node::Node;
use lamlock::node::POISONED;
use lamlock::protocol::Poll;
use lamlock::protocol::Stage;
use lamlock::queue::WaitQueue;
use lamlock::rawlock::RawLock;

#[test]
fn test_light_weight_bomb_diffuse() {
    let raw = RawLock::new();
    let bomb = LightWeightBomb::new(&raw);
    bomb.diffuse();
    assert!(!raw.is_poisoned(Ordering::Acquire));
}

#[test]
fn test_light_weight_bomb_poison() {
    let mut raw = RawLock::new();
    let bomb = LightWeightBomb::new(&raw);
    bomb.detonate(&mut raw);
    assert!(raw.is_poisoned(Ordering::Acquire));
}

#[test]
fn light_weight_bomb_keeps_the_tail() {
    let mut raw = RawLock::new();
    raw.swap_tail(3);
    let bomb = LightWeightBomb::new(&raw);
    bomb.detonate(&mut raw);
    assert!(raw.is_poisoned(Ordering::Acquire));
    assert!(raw.has_tail(Ordering::Acquire));
    assert!(raw.try_close(3));
}

#[test]
fn heavy_weight_bomb_reset_moves_the_atom() {
    let raw = RawLock::new();
    let mut bomb = HeavyWeightBomb::new(&raw, 4);
    assert_eq!(bomb.position(), 4);
    bomb.reset(9);
    assert_eq!(bomb.position(), 9);
    bomb.diffuse();
    assert!(!raw.is_poisoned(Ordering::Acquire));
}

#[test]
fn heavy_weight_bomb_ignites_once() {
    let raw = RawLock::new();
    let mut bomb = HeavyWeightBomb::new(&raw, 0);
    assert_eq!(bomb.ignite(), Some(Effect::Poison));
    assert_eq!(bomb.ignite(), None);
    assert_eq!(bomb.position(), 0);
    let light = LightWeightBomb::new(&raw);
    assert_eq!(light.explode(), Effect::Poison);
}

#[test]
fn test_heavy_weight_bomb() {
    const NUM_THREADS: usize = 10;
    let mut queue = WaitQueue::new();
    let mut nodes = Vec::new();
    for _ in 0..NUM_THREADS {
        nodes.push(queue.enlist().unwrap());
    }
    // Everybody swaps its node into the tail; the first finds the queue empty.
    for &this in &nodes {
        assert_eq!(Node::attach(this, &mut queue), Poll::Pending);
    }
    assert_eq!(queue.stage(nodes[0]), Stage::Acquire);
    // The others publish themselves and go to sleep.
    for &this in &nodes[1..] {
        let mut polls = 0;
        while queue.stage(this) != Stage::Park || queue.node(this).status_word() == 0 {
            assert_eq!(Node::attach(this, &mut queue), Poll::Pending);
            polls += 1;
            assert!(polls < 200);
        }
    }
    // The head takes the lock, is handed its own thunk, and the thunk panics.
    assert_eq!(Node::attach(nodes[0], &mut queue), Poll::Run(nodes[0]));
    Node::unwind(nodes[0], &mut queue);
    assert!(queue.raw().is_poisoned(Ordering::Acquire));
    let mut last = Poll::Pending;
    for _ in 0..NUM_THREADS + 1 {
        last = Node::attach(nodes[0], &mut queue);
    }
    assert_eq!(last, Poll::Unwound);
    assert!(!queue.raw().has_tail(Ordering::Acquire));
    for &this in &nodes[1..] {
        assert_eq!(queue.node(this).status_word(), POISONED);
        assert_eq!(
            Node::attach(this, &mut queue),
            Poll::Ready(Err(lamlock::LockPoisoned))
        );
    }
}
