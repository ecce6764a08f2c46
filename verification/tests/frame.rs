use lamlock::frame::Answer;
use lamlock::frame::Effect;
use lamlock::frame::Frame;
use lamlock::frame::Outcome;
use lamlock::frame::Query;
use lamlock::node::DONE;
use lamlock::node::HEAD;
use lamlock::node::POISONED;
use lamlock::node::SLEEPING;
use lamlock::node::SPIN_LIMIT;
use lamlock::node::WAITING;
use lamlock::protocol::Poll;
use lamlock::protocol::Stage;
use lamlock::rawlock::acquired;
use lamlock::rawlock::inspected;
use lamlock::LockNotPoisoned;
use lamlock::LockPoisoned;
use lamlock::RawLock;

fn told(poll: Poll) -> Outcome {
    Outcome { first: None, second: None, poll }
}

fn frame(this: usize) -> Frame {
    Frame::new(&RawLock::new(), this)
}

/// A frame that has become the combiner at its own node.
fn combiner(this: usize) -> Frame {
    let mut frame = frame(this);
    assert_eq!(frame.decide(Answer::Tail(None)), told(Poll::Pending));
    assert_eq!(frame.decide(Answer::Acquired(Ok(true))), told(Poll::Run(this)));
    assert_eq!(frame.stage(), Stage::Running);
    frame
}

#[test]
fn acquired_reads_the_compare_exchange() {
    assert_eq!(acquired(Ok(0)), Ok(true));
    assert_eq!(acquired(Err(1)), Ok(false));
    assert_eq!(acquired(Err(2)), Err(LockPoisoned));
    assert_eq!(acquired(Err(7)), Err(LockPoisoned));
}

#[test]
fn inspected_reads_the_compare_exchange() {
    assert_eq!(inspected(Ok(2)), Ok(()));
    assert_eq!(inspected(Err(0)), Err(LockNotPoisoned));
    assert_eq!(inspected(Err(1)), Err(LockNotPoisoned));
}

#[test]
fn frame_of_a_follower() {
    let mut frame = frame(3);
    assert_eq!(frame.stage(), Stage::Fresh);
    assert_eq!(frame.cursor(), 3);
    assert_eq!(frame.query(), Query::SwapTail);
    assert_eq!(frame.decide(Answer::Tail(Some(1))), told(Poll::Pending));
    assert_eq!(frame.query(), Query::Link { prev: 1 });
    assert_eq!(frame.decide(Answer::Linked), told(Poll::Pending));
    assert_eq!(frame.stage(), Stage::Spin { left: SPIN_LIMIT });
    assert_eq!(frame.query(), Query::LoadStatus);
    assert_eq!(frame.decide(Answer::Status(WAITING)), told(Poll::Pending));
    assert_eq!(frame.stage(), Stage::Spin { left: SPIN_LIMIT - 1 });
    for _ in 0..SPIN_LIMIT - 1 {
        assert_eq!(frame.decide(Answer::Status(WAITING)), told(Poll::Pending));
    }
    assert_eq!(frame.stage(), Stage::Park);
    assert_eq!(frame.query(), Query::Sleep);
    assert_eq!(frame.decide(Answer::Status(SLEEPING)), told(Poll::Pending));
    assert_eq!(frame.stage(), Stage::Park);
    assert_eq!(frame.decide(Answer::Status(DONE)), told(Poll::Ready(Ok(()))));
    assert_eq!(frame.stage(), Stage::Done);
    assert_eq!(frame.query(), Query::Nothing);
    assert_eq!(frame.decide(Answer::Nothing), told(Poll::Ready(Ok(()))));
}

#[test]
fn frame_takes_its_message_while_spinning() {
    let mut poisoned = frame(2);
    poisoned.decide(Answer::Tail(Some(0)));
    poisoned.decide(Answer::Linked);
    assert_eq!(
        poisoned.decide(Answer::Status(POISONED)),
        told(Poll::Ready(Err(LockPoisoned)))
    );
    assert_eq!(poisoned.stage(), Stage::Poisoned);
    assert_eq!(poisoned.decide(Answer::Nothing), told(Poll::Ready(Err(LockPoisoned))));
    let mut head = frame(2);
    head.decide(Answer::Tail(Some(0)));
    head.decide(Answer::Linked);
    assert_eq!(head.decide(Answer::Status(HEAD)), told(Poll::Run(2)));
    assert_eq!(head.stage(), Stage::Running);
    assert_eq!(head.query(), Query::LoadNext { of: 2 });
}

#[test]
fn frame_of_a_head_waits_for_the_lock_word() {
    let mut frame = frame(0);
    assert_eq!(frame.decide(Answer::Tail(None)), told(Poll::Pending));
    assert_eq!(frame.stage(), Stage::Acquire);
    assert_eq!(frame.query(), Query::TryAcquire);
    assert_eq!(frame.decide(Answer::Acquired(Ok(false))), told(Poll::Pending));
    assert_eq!(frame.stage(), Stage::Acquire);
    assert_eq!(
        frame.decide(Answer::Acquired(Err(LockPoisoned))),
        Outcome { first: Some(Effect::Poison), second: None, poll: Poll::Pending }
    );
    assert_eq!(frame.stage(), Stage::Walk { panicked: false });
    assert_eq!(frame.decide(Answer::Next(None)), told(Poll::Pending));
    assert_eq!(frame.query(), Query::TryClose { expected: 0 });
    assert_eq!(
        frame.decide(Answer::Closed(true)),
        Outcome {
            first: Some(Effect::Wake { node: 0, message: POISONED }),
            second: None,
            poll: Poll::Ready(Err(LockPoisoned)),
        }
    );
    assert_eq!(frame.stage(), Stage::Poisoned);
}

#[test]
fn frame_of_a_combiner() {
    let mut frame = combiner(4);
    assert_eq!(
        frame.decide(Answer::Next(Some(9))),
        Outcome {
            first: Some(Effect::Wake { node: 4, message: DONE }),
            second: None,
            poll: Poll::Run(9),
        }
    );
    assert_eq!(frame.cursor(), 9);
    assert_eq!(frame.stage(), Stage::Running);
    assert_eq!(frame.decide(Answer::Next(None)), told(Poll::Pending));
    assert_eq!(frame.stage(), Stage::Close);
    assert_eq!(frame.decide(Answer::Closed(false)), told(Poll::Pending));
    assert_eq!(frame.stage(), Stage::Handoff);
    assert_eq!(frame.decide(Answer::Next(None)), told(Poll::Pending));
    assert_eq!(
        frame.decide(Answer::Next(Some(6))),
        Outcome {
            first: Some(Effect::Wake { node: 6, message: HEAD }),
            second: Some(Effect::Wake { node: 9, message: DONE }),
            poll: Poll::Ready(Ok(())),
        }
    );
    assert_eq!(frame.stage(), Stage::Done);
    let mut alone = combiner(1);
    alone.decide(Answer::Next(None));
    assert_eq!(
        alone.decide(Answer::Closed(true)),
        Outcome {
            first: Some(Effect::Wake { node: 1, message: DONE }),
            second: Some(Effect::Release),
            poll: Poll::Ready(Ok(())),
        }
    );
}

#[test]
fn frame_unwinds_from_a_thunk_only() {
    let mut waiting = frame(5);
    assert_eq!(waiting.unwind(), None);
    assert_eq!(waiting.stage(), Stage::Fresh);
    let mut frame = combiner(5);
    assert_eq!(frame.unwind(), Some(Effect::Poison));
    assert_eq!(frame.stage(), Stage::Walk { panicked: true });
    assert_eq!(frame.unwind(), None);
    assert_eq!(
        frame.decide(Answer::Next(Some(8))),
        Outcome {
            first: Some(Effect::Wake { node: 5, message: POISONED }),
            second: None,
            poll: Poll::Pending,
        }
    );
    assert_eq!(frame.cursor(), 8);
    assert_eq!(frame.decide(Answer::Next(None)), told(Poll::Pending));
    assert_eq!(frame.decide(Answer::Closed(false)), told(Poll::Pending));
    assert_eq!(frame.stage(), Stage::Chase { panicked: true });
    assert_eq!(frame.decide(Answer::Next(None)), told(Poll::Pending));
    assert_eq!(frame.stage(), Stage::Chase { panicked: true });
    assert_eq!(frame.decide(Answer::Next(Some(2))), told(Poll::Pending));
    assert_eq!(frame.stage(), Stage::Walk { panicked: true });
    frame.decide(Answer::Next(Some(2)));
    frame.decide(Answer::Next(None));
    assert_eq!(
        frame.decide(Answer::Closed(true)),
        Outcome {
            first: Some(Effect::Wake { node: 2, message: POISONED }),
            second: None,
            poll: Poll::Unwound,
        }
    );
    assert_eq!(frame.decide(Answer::Nothing), told(Poll::Unwound));
}

#[test]
fn frame_ignores_an_answer_it_did_not_ask_for() {
    let mut frame = frame(0);
    assert_eq!(frame.decide(Answer::Closed(true)), told(Poll::Pending));
    assert_eq!(frame.decide(Answer::Status(DONE)), told(Poll::Pending));
    assert_eq!(frame.stage(), Stage::Fresh);
    let mut combiner = combiner(0);
    assert_eq!(combiner.decide(Answer::Closed(true)), told(Poll::Pending));
    assert_eq!(combiner.stage(), Stage::Running);
}
