//! One participant's side of the attach protocol: what it asks of the
//! shared words next, and what it does with the answer.
//!
//! A frame never touches a shared word.  It names the access it needs, is
//! told what the access found, and answers with its decision: the writes
//! that follow, and what the participant is told.  Whoever holds the shared
//! words performs the accesses: the wait queue on its plain fields, a
//! concurrent binding by atomic instructions.

use crate::bomb::HeavyWeightBomb;
use crate::node::DONE;
use crate::node::HEAD;
use crate::node::SLEEPING;
use crate::node::SPIN_LIMIT;
use crate::node::WAITING;
use crate::protocol::detonating;
use crate::protocol::live;
use crate::protocol::walked_out;
use crate::protocol::walked_out_poll;
use crate::protocol::FrameView;
use crate::protocol::Poll;
use crate::protocol::Stage;
use crate::rawlock::LockPoisoned;
use vstd::prelude::*;

verus! {

/// An access to the shared words whose result the participant needs.
#[derive(Clone, Copy, Debug, PartialEq, Eq, Structural)]
pub enum Query {
    /// Swap the own node into the tail.
    SwapTail,
    /// Publish the own node as the successor of `prev`.
    Link { prev: usize },
    /// Read the own status word.
    LoadStatus,
    /// Mark the own status word as sleeping if it still says waiting, park
    /// while it says sleeping, and read it.
    Sleep,
    /// Try once to take the lock word.
    TryAcquire,
    /// Read the successor of node `of`.
    LoadNext { of: usize },
    /// Empty the queue if `expected` is still its tail.
    TryClose { expected: usize },
    /// No access: the attachment is over.
    Nothing,
}

/// What an access found.
#[derive(Clone, Copy, Debug, PartialEq, Eq)]
pub enum Answer {
    /// The tail that the swap replaced.
    Tail(Option<usize>),
    /// The own node has been published.
    Linked,
    /// The own status word.
    Status(u32),
    /// What the attempt at the lock word reported.
    Acquired(Result<bool, LockPoisoned>),
    /// The successor that was read.
    Next(Option<usize>),
    /// Whether the queue was closed.
    Closed(bool),
    /// Nothing was asked.
    Nothing,
}

/// A write to the shared words that follows from a decision.
#[derive(Clone, Copy, Debug, PartialEq, Eq, Structural)]
pub enum Effect {
    /// Leave `message` in the status word of `node` and wake its owner.
    Wake { node: usize, message: u32 },
    /// Release the lock word.
    Release,
    /// Poison the lock word.
    Poison,
}

/// A decision: up to two writes, in this order, and what the participant is
/// told.
#[derive(Clone, Copy, Debug, PartialEq, Eq)]
pub struct Outcome {
    pub first: Option<Effect>,
    pub second: Option<Effect>,
    pub poll: Poll,
}

/// The access that a participant in stage `stage`, standing at `cursor`,
/// makes next.
pub open spec fn query_of(frame: FrameView) -> Query {
    match frame.stage {
        Stage::Fresh => Query::SwapTail,
        Stage::Link { prev } => Query::Link { prev },
        Stage::Spin { left } => Query::LoadStatus,
        Stage::Park => Query::Sleep,
        Stage::Acquire => Query::TryAcquire,
        Stage::Running => Query::LoadNext { of: frame.cursor },
        Stage::Close => Query::TryClose { expected: frame.cursor },
        Stage::Handoff => Query::LoadNext { of: frame.cursor },
        Stage::Walk { panicked } => Query::LoadNext { of: frame.cursor },
        Stage::Seal { panicked } => Query::TryClose { expected: frame.cursor },
        Stage::Chase { panicked } => Query::LoadNext { of: frame.cursor },
        Stage::Done => Query::Nothing,
        Stage::Poisoned => Query::Nothing,
        Stage::Unwound => Query::Nothing,
    }
}

/// A decision without writes.
pub open spec fn told(poll: Poll) -> Outcome {
    Outcome { first: None, second: None, poll }
}

/// The frame in another stage.
pub open spec fn staged(frame: FrameView, stage: Stage) -> FrameView {
    FrameView { stage, ..frame }
}

/// What a waiter decides on the status word `status`: to wait on, or what
/// its message says.
pub open spec fn decision_on_status(frame: FrameView, status: u32) -> (FrameView, Outcome) {
    if status == DONE {
        (staged(frame, Stage::Done), told(Poll::Ready(Ok(()))))
    } else if status == crate::node::POISONED {
        (staged(frame, Stage::Poisoned), told(Poll::Ready(Err(LockPoisoned))))
    } else if status == SLEEPING {
        (staged(frame, Stage::Park), told(Poll::Pending))
    } else if status == WAITING {
        match frame.stage {
            Stage::Spin { left } if left > 1 => (
                staged(frame, Stage::Spin { left: (left - 1) as usize }),
                told(Poll::Pending),
            ),
            _ => (staged(frame, Stage::Park), told(Poll::Pending)),
        }
    } else {
        (staged(frame, Stage::Running), told(Poll::Run(frame.cursor)))
    }
}

/// What a handler of the front decides on the successor `next` of its
/// cursor.
pub open spec fn decision_on_next(frame: FrameView, next: Option<usize>) -> (FrameView, Outcome) {
    let cursor = frame.cursor;
    match (frame.stage, next) {
        (Stage::Running, Some(next)) => (
            FrameView { cursor: next, ..frame },
            Outcome {
                first: Some(Effect::Wake { node: cursor, message: DONE }),
                second: None,
                poll: Poll::Run(next),
            },
        ),
        (Stage::Running, None) => (staged(frame, Stage::Close), told(Poll::Pending)),
        (Stage::Handoff, Some(next)) => (
            staged(frame, Stage::Done),
            Outcome {
                first: Some(Effect::Wake { node: next, message: HEAD }),
                second: Some(Effect::Wake { node: cursor, message: DONE }),
                poll: Poll::Ready(Ok(())),
            },
        ),
        (Stage::Walk { panicked }, Some(next)) => (
            FrameView { cursor: next, ..frame },
            Outcome {
                first: Some(Effect::Wake { node: cursor, message: crate::node::POISONED }),
                second: None,
                poll: Poll::Pending,
            },
        ),
        (Stage::Walk { panicked }, None) => (
            staged(frame, Stage::Seal { panicked }),
            told(Poll::Pending),
        ),
        (Stage::Chase { panicked }, Some(_)) => (
            staged(frame, Stage::Walk { panicked }),
            told(Poll::Pending),
        ),
        _ => (frame, told(Poll::Pending)),
    }
}

/// What a handler of the front decides when it has tried to close the
/// queue.
pub open spec fn decision_on_closed(frame: FrameView, closed: bool) -> (FrameView, Outcome) {
    let cursor = frame.cursor;
    match (frame.stage, closed) {
        (Stage::Close, true) => (
            staged(frame, Stage::Done),
            Outcome {
                first: Some(Effect::Wake { node: cursor, message: DONE }),
                second: Some(Effect::Release),
                poll: Poll::Ready(Ok(())),
            },
        ),
        (Stage::Close, false) => (staged(frame, Stage::Handoff), told(Poll::Pending)),
        (Stage::Seal { panicked }, true) => (
            staged(frame, walked_out(panicked)),
            Outcome {
                first: Some(Effect::Wake { node: cursor, message: crate::node::POISONED }),
                second: None,
                poll: walked_out_poll(panicked),
            },
        ),
        (Stage::Seal { panicked }, false) => (
            staged(frame, Stage::Chase { panicked }),
            told(Poll::Pending),
        ),
        _ => (frame, told(Poll::Pending)),
    }
}

/// What a participant decides when its access has found `answer`: the
/// frame after the decision, and the decision.  An answer to an access that
/// the participant did not make changes nothing.
pub open spec fn decision(frame: FrameView, answer: Answer) -> (FrameView, Outcome) {
    match (query_of(frame), answer) {
        (Query::SwapTail, Answer::Tail(Some(prev))) => (
            staged(frame, Stage::Link { prev }),
            told(Poll::Pending),
        ),
        (Query::SwapTail, Answer::Tail(None)) => (
            staged(frame, Stage::Acquire),
            told(Poll::Pending),
        ),
        (Query::Link { prev }, Answer::Linked) => (
            staged(frame, Stage::Spin { left: SPIN_LIMIT }),
            told(Poll::Pending),
        ),
        (Query::LoadStatus, Answer::Status(status)) => decision_on_status(frame, status),
        (Query::Sleep, Answer::Status(status)) => decision_on_status(frame, status),
        (Query::TryAcquire, Answer::Acquired(Ok(true))) => (
            staged(frame, Stage::Running),
            told(Poll::Run(frame.cursor)),
        ),
        (Query::TryAcquire, Answer::Acquired(Ok(false))) => (frame, told(Poll::Pending)),
        (Query::TryAcquire, Answer::Acquired(Err(_))) => (
            staged(frame, Stage::Walk { panicked: false }),
            Outcome { first: Some(Effect::Poison), second: None, poll: Poll::Pending },
        ),
        (Query::LoadNext { of }, Answer::Next(next)) => decision_on_next(frame, next),
        (Query::TryClose { expected }, Answer::Closed(closed)) => decision_on_closed(
            frame,
            closed,
        ),
        (Query::Nothing, _) => (
            frame,
            told(
                match frame.stage {
                    Stage::Done => Poll::Ready(Ok(())),
                    Stage::Poisoned => Poll::Ready(Err(LockPoisoned)),
                    _ => Poll::Unwound,
                },
            ),
        ),
        _ => (frame, told(Poll::Pending)),
    }
}

/// What a participant decides when the thunk it was handed panicked: its
/// bomb goes off.  Without a thunk in hand nothing happens.
pub open spec fn unwinding(frame: FrameView) -> (FrameView, Option<Effect>) {
    if frame.stage == Stage::Running {
        (staged(frame, Stage::Walk { panicked: true }), Some(Effect::Poison))
    } else {
        (frame, None)
    }
}

/// What one participant keeps on its own stack while it is attached: the
/// stage it has reached, the node it stands at, and its bomb.
pub struct Frame {
    stage: Stage,
    cursor: usize,
    bomb: Option<HeavyWeightBomb>,
    ticket: Ghost<nat>,
}

impl View for Frame {
    type V = FrameView;

    closed spec fn view(&self) -> FrameView {
        FrameView { stage: self.stage, cursor: self.cursor, ticket: self.ticket@ }
    }
}

impl Frame {
    /// The bomb is armed from the start of the attachment to its end,
    /// stands at the cursor, and has not gone off before a detonation.
    pub closed spec fn wf(&self) -> bool {
        &&& (live(self.stage) || self.stage == Stage::Fresh) == self.bomb.is_some()
        &&& match self.bomb {
            Some(bomb) => bomb.atom() == self.cursor && (!detonating(self.stage) ==> bomb.loaded()),
            None => true,
        }
    }

    /// The frame of an attachment of node `this` to the lock `raw` that has
    /// not begun: the bomb is armed, and nothing else has happened.
    pub fn new<L>(raw: &L, this: usize) -> (frame: Self)
        ensures
            frame.wf(),
            frame@ == (FrameView { stage: Stage::Fresh, cursor: this, ticket: 0 }),
    {
        Frame {
            stage: Stage::Fresh,
            cursor: this,
            bomb: Some(HeavyWeightBomb::new(raw, this)),
            ticket: Ghost(0),
        }
    }

    /// The stage of the attachment.
    pub fn stage(&self) -> (stage: Stage)
        ensures
            stage == self@.stage,
    {
        self.stage
    }

    /// The node at which the participant stands.
    pub fn cursor(&self) -> (cursor: usize)
        ensures
            cursor == self@.cursor,
    {
        self.cursor
    }

    /// The access that the participant makes next.
    pub fn query(&self) -> (query: Query)
        ensures
            query == query_of(self@),
    {
        match self.stage {
            Stage::Fresh => Query::SwapTail,
            Stage::Link { prev } => Query::Link { prev },
            Stage::Spin { left } => Query::LoadStatus,
            Stage::Park => Query::Sleep,
            Stage::Acquire => Query::TryAcquire,
            Stage::Running => Query::LoadNext { of: self.cursor },
            Stage::Close => Query::TryClose { expected: self.cursor },
            Stage::Handoff => Query::LoadNext { of: self.cursor },
            Stage::Walk { panicked } => Query::LoadNext { of: self.cursor },
            Stage::Seal { panicked } => Query::TryClose { expected: self.cursor },
            Stage::Chase { panicked } => Query::LoadNext { of: self.cursor },
            Stage::Done => Query::Nothing,
            Stage::Poisoned => Query::Nothing,
            Stage::Unwound => Query::Nothing,
        }
    }

    /// Enters the ticket of the own node.
    pub(crate) fn stamp(&mut self, ticket: Ghost<nat>)
        requires
            old(self).wf(),
        ensures
            final(self).wf(),
            final(self)@ == (FrameView { ticket: ticket@, ..old(self)@ }),
    {
        self.ticket = ticket;
    }

    /// Moves to `stage`, which is not an end, keeping the bomb as it is.
    fn proceed(&mut self, stage: Stage)
        requires
            old(self).wf(),
            old(self).bomb.is_some(),
            live(stage),
            detonating(old(self).stage) ==> detonating(stage),
        ensures
            final(self).wf(),
            final(self)@ == staged(old(self)@, stage),
    {
        self.stage = stage;
    }

    /// Ends the attachment in `stage`: the bomb is defused.
    fn finish(&mut self, stage: Stage)
        requires
            !live(stage),
            stage != Stage::Fresh,
        ensures
            final(self).wf(),
            final(self)@ == staged(old(self)@, stage),
    {
        self.stage = stage;
        match self.bomb.take() {
            Some(bomb) => bomb.diffuse(),
            None => {},
        }
    }

    /// Moves the cursor and the bomb to `next`.
    fn advance(&mut self, next: usize)
        requires
            old(self).wf(),
        ensures
            final(self).wf(),
            final(self)@ == (FrameView { cursor: next, ..old(self)@ }),
    {
        self.cursor = next;
        match &mut self.bomb {
            Some(bomb) => bomb.reset(next),
            None => {},
        }
    }

    /// Sets the bomb off and starts to carry the poison along the queue.
    fn detonate(&mut self, panicked: bool) -> (effect: Option<Effect>)
        requires
            old(self).wf(),
            old(self).bomb.is_some(),
            !detonating(old(self).stage),
        ensures
            final(self).wf(),
            final(self)@ == staged(old(self)@, Stage::Walk { panicked }),
            effect == Some(Effect::Poison),
    {
        self.stage = Stage::Walk { panicked };
        match &mut self.bomb {
            Some(bomb) => bomb.ignite(),
            None => None,
        }
    }
}

impl Frame {
    /// The decision on the own status word.
    fn decide_on_status(&mut self, status: u32) -> (outcome: Outcome)
        requires
            old(self).wf(),
            old(self)@.stage is Spin || old(self)@.stage == Stage::Park,
        ensures
            final(self).wf(),
            (final(self)@, outcome) == decision_on_status(old(self)@, status),
    {
        if status == DONE {
            self.finish(Stage::Done);
            Outcome { first: None, second: None, poll: Poll::Ready(Ok(())) }
        } else if status == crate::node::POISONED {
            self.finish(Stage::Poisoned);
            Outcome { first: None, second: None, poll: Poll::Ready(Err(LockPoisoned)) }
        } else if status == SLEEPING {
            self.proceed(Stage::Park);
            Outcome { first: None, second: None, poll: Poll::Pending }
        } else if status == WAITING {
            match self.stage {
                Stage::Spin { left } => {
                    if left > 1 {
                        self.proceed(Stage::Spin { left: left - 1 });
                    } else {
                        self.proceed(Stage::Park);
                    }
                },
                _ => {
                    self.proceed(Stage::Park);
                },
            }
            Outcome { first: None, second: None, poll: Poll::Pending }
        } else {
            self.proceed(Stage::Running);
            Outcome { first: None, second: None, poll: Poll::Run(self.cursor) }
        }
    }

    /// The decision on the successor of the cursor.
    fn decide_on_next(&mut self, next: Option<usize>) -> (outcome: Outcome)
        requires
            old(self).wf(),
            query_of(old(self)@) is LoadNext,
        ensures
            final(self).wf(),
            (final(self)@, outcome) == decision_on_next(old(self)@, next),
    {
        let cursor = self.cursor;
        match (self.stage, next) {
            (Stage::Running, Some(next)) => {
                self.advance(next);
                Outcome {
                    first: Some(Effect::Wake { node: cursor, message: DONE }),
                    second: None,
                    poll: Poll::Run(next),
                }
            },
            (Stage::Running, None) => {
                self.proceed(Stage::Close);
                Outcome { first: None, second: None, poll: Poll::Pending }
            },
            (Stage::Handoff, Some(next)) => {
                self.finish(Stage::Done);
                Outcome {
                    first: Some(Effect::Wake { node: next, message: HEAD }),
                    second: Some(Effect::Wake { node: cursor, message: DONE }),
                    poll: Poll::Ready(Ok(())),
                }
            },
            (Stage::Walk { panicked }, Some(next)) => {
                self.advance(next);
                Outcome {
                    first: Some(Effect::Wake { node: cursor, message: crate::node::POISONED }),
                    second: None,
                    poll: Poll::Pending,
                }
            },
            (Stage::Walk { panicked }, None) => {
                self.proceed(Stage::Seal { panicked });
                Outcome { first: None, second: None, poll: Poll::Pending }
            },
            (Stage::Chase { panicked }, Some(_)) => {
                self.proceed(Stage::Walk { panicked });
                Outcome { first: None, second: None, poll: Poll::Pending }
            },
            _ => Outcome { first: None, second: None, poll: Poll::Pending },
        }
    }

    /// The decision on an attempt to close the queue.
    fn decide_on_closed(&mut self, closed: bool) -> (outcome: Outcome)
        requires
            old(self).wf(),
            query_of(old(self)@) is TryClose,
        ensures
            final(self).wf(),
            (final(self)@, outcome) == decision_on_closed(old(self)@, closed),
    {
        let cursor = self.cursor;
        match (self.stage, closed) {
            (Stage::Close, true) => {
                self.finish(Stage::Done);
                Outcome {
                    first: Some(Effect::Wake { node: cursor, message: DONE }),
                    second: Some(Effect::Release),
                    poll: Poll::Ready(Ok(())),
                }
            },
            (Stage::Close, false) => {
                self.proceed(Stage::Handoff);
                Outcome { first: None, second: None, poll: Poll::Pending }
            },
            (Stage::Seal { panicked }, true) => {
                let first = Some(Effect::Wake { node: cursor, message: crate::node::POISONED });
                if panicked {
                    self.finish(Stage::Unwound);
                    Outcome { first, second: None, poll: Poll::Unwound }
                } else {
                    self.finish(Stage::Poisoned);
                    Outcome { first, second: None, poll: Poll::Ready(Err(LockPoisoned)) }
                }
            },
            (Stage::Seal { panicked }, false) => {
                self.proceed(Stage::Chase { panicked });
                Outcome { first: None, second: None, poll: Poll::Pending }
            },
            _ => Outcome { first: None, second: None, poll: Poll::Pending },
        }
    }

    /// Takes the answer to the access that `query` named and decides: the
    /// frame moves on, and the result holds the writes that follow and what
    /// the participant is told.  An answer to another access changes
    /// nothing.
    pub fn decide(&mut self, answer: Answer) -> (outcome: Outcome)
        requires
            old(self).wf(),
        ensures
            final(self).wf(),
            (final(self)@, outcome) == decision(old(self)@, answer),
    {
        match (self.query(), answer) {
            (Query::SwapTail, Answer::Tail(Some(prev))) => {
                self.proceed(Stage::Link { prev });
                Outcome { first: None, second: None, poll: Poll::Pending }
            },
            (Query::SwapTail, Answer::Tail(None)) => {
                self.proceed(Stage::Acquire);
                Outcome { first: None, second: None, poll: Poll::Pending }
            },
            (Query::Link { prev }, Answer::Linked) => {
                self.proceed(Stage::Spin { left: SPIN_LIMIT });
                Outcome { first: None, second: None, poll: Poll::Pending }
            },
            (Query::LoadStatus, Answer::Status(status)) => self.decide_on_status(status),
            (Query::Sleep, Answer::Status(status)) => self.decide_on_status(status),
            (Query::TryAcquire, Answer::Acquired(Ok(true))) => {
                self.proceed(Stage::Running);
                Outcome { first: None, second: None, poll: Poll::Run(self.cursor) }
            },
            (Query::TryAcquire, Answer::Acquired(Ok(false))) => Outcome {
                first: None,
                second: None,
                poll: Poll::Pending,
            },
            (Query::TryAcquire, Answer::Acquired(Err(_))) => {
                let first = self.detonate(false);
                Outcome { first, second: None, poll: Poll::Pending }
            },
            (Query::LoadNext { of }, Answer::Next(next)) => self.decide_on_next(next),
            (Query::TryClose { expected }, Answer::Closed(closed)) => self.decide_on_closed(
                closed,
            ),
            (Query::Nothing, _) => {
                let poll = match self.stage {
                    Stage::Done => Poll::Ready(Ok(())),
                    Stage::Poisoned => Poll::Ready(Err(LockPoisoned)),
                    _ => Poll::Unwound,
                };
                Outcome { first: None, second: None, poll }
            },
            _ => Outcome { first: None, second: None, poll: Poll::Pending },
        }
    }

    /// Reports that the thunk which was handed to the participant panicked.
    /// The bomb goes off: the result is the write that it demands, and the
    /// following decisions carry the poison along the queue.  Without a
    /// thunk in hand nothing happens.
    pub fn unwind(&mut self) -> (effect: Option<Effect>)
        requires
            old(self).wf(),
        ensures
            final(self).wf(),
            (final(self)@, effect) == unwinding(old(self)@),
    {
        match self.stage {
            Stage::Running => self.detonate(true),
            _ => None,
        }
    }
}

} // verus!
