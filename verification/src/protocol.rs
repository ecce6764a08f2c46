//! The attach protocol as a state machine over plain values.
//!
//! A state holds everything the participants share (the lock word, the tail,
//! the nodes) and, for each participant, how far its attachment has come.
//! One step of the machine is one access of one participant to the shared
//! words.  The executable queue performs these steps.  The invariant that
//! is stated here holds of every state that steps can reach, in whatever
//! order the participants take them; that, and the laws of the protocol,
//! are proved in `laws`.

use crate::node::NodeView;
use crate::node::DONE;
use crate::node::HEAD;
use crate::node::SLEEPING;
use crate::node::SPIN_LIMIT;
use crate::node::WAITING;
use crate::rawlock::try_acquire_outcome;
use crate::rawlock::LockNotPoisoned;
use crate::rawlock::LockPoisoned;
use crate::rawlock::LOCKED;
use crate::rawlock::UNLOCKED;
use vstd::prelude::*;

verus! {

/// How far one participant's attachment has come.  Each stage names the
/// access the participant makes next.
#[derive(Clone, Copy, Debug, PartialEq, Eq, Structural)]
pub enum Stage {
    /// The node exists and has not been enqueued.  Next: swap it into the
    /// tail.
    Fresh,
    /// The tail swap returned `prev`.  Next: publish this node as the
    /// successor of `prev`.
    Link { prev: usize },
    /// Linked behind a predecessor.  Next: read the own status word, which
    /// is done up to `left` more times before parking.
    Spin { left: usize },
    /// Done spinning.  Next: mark the own status word as sleeping and stay
    /// parked until a message arrives.
    Park,
    /// The tail swap found the queue empty.  Next: try to take the lock
    /// word.
    Acquire,
    /// Combiner; the thunk of the cursor has been handed out.  Next, once
    /// that thunk has returned: read the cursor's successor.
    Running,
    /// Combiner; the cursor had no successor.  Next: try to close the queue.
    Close,
    /// Combiner; the queue could not be closed because a successor is about
    /// to publish itself.  Next: read the cursor's successor again.
    Handoff,
    /// Detonating.  Next: read the cursor's successor.  `panicked` says
    /// that a thunk panicked, so that the participant unwinds when the walk
    /// is over.
    Walk { panicked: bool },
    /// Detonating; the cursor had no successor.  Next: try to close the
    /// queue.
    Seal { panicked: bool },
    /// Detonating; the queue could not be closed.  Next: read the cursor's
    /// successor again.
    Chase { panicked: bool },
    /// The attachment ended with the thunk run.
    Done,
    /// The attachment ended with the lock reported as poisoned.
    Poisoned,
    /// The participant unwound: a thunk that it ran as combiner panicked.
    Unwound,
}

/// What one call of `attach` tells the participant.
#[derive(Clone, Copy, Debug, PartialEq, Eq)]
pub enum Poll {
    /// Nothing to report: the attachment waits for another participant, or
    /// has more steps to take.  Call again.
    Pending,
    /// The caller is the combiner and has to run the thunk of this node,
    /// then call again; if the thunk panics, it has to call `unwind`.
    Run(usize),
    /// The attachment is over.
    Ready(Result<(), LockPoisoned>),
    /// The attachment is over and the caller goes on unwinding.
    Unwound,
}

/// One participant's private state.
pub ghost struct FrameView {
    /// The stage of the attachment.
    pub stage: Stage,
    /// The node at which the participant stands as combiner or while
    /// detonating: the atom of its bomb.  The own node before that.
    pub cursor: usize,
    /// The number of nodes that were enqueued before this one.
    pub ticket: nat,
}

/// A state of the machine.
pub ghost struct QueueView {
    /// The lock word.
    pub lock: u32,
    /// The tail of the queue.
    pub tail: Option<usize>,
    /// The node table.
    pub nodes: Seq<NodeView>,
    /// The participants, one for each node.
    pub frames: Seq<FrameView>,
    /// Whether a caller holds the lock from outside the queue: through the
    /// fast path, to poison it, or to inspect its poison.
    pub fast: bool,
    /// The nodes that have been enqueued and not yet passed by a combiner
    /// or a detonation, oldest first.
    pub line: Seq<usize>,
    /// How many nodes have been enqueued so far.
    pub arrived: nat,
    /// The tickets of the nodes whose thunks have been handed out, in the
    /// order in which that happened.
    pub served: Seq<nat>,
}

/// Whether a participant in stage `stage` runs thunks for the queue.
pub open spec fn combining(stage: Stage) -> bool {
    stage == Stage::Running || stage == Stage::Close || stage == Stage::Handoff
}

/// Whether a participant in stage `stage` carries poison along the queue.
pub open spec fn detonating(stage: Stage) -> bool {
    stage is Walk || stage is Seal || stage is Chase
}

/// Whether a participant in stage `stage` handles the front of the queue.
pub open spec fn active(stage: Stage) -> bool {
    combining(stage) || detonating(stage)
}

/// Whether a participant in stage `stage` waits behind a predecessor.
pub open spec fn queued(stage: Stage) -> bool {
    stage is Spin || stage is Park
}

/// Whether an attachment in stage `stage` has begun and is not over.
pub open spec fn live(stage: Stage) -> bool {
    stage != Stage::Fresh && stage != Stage::Done && stage != Stage::Poisoned && stage
        != Stage::Unwound
}

/// The stage in which a detonation ends.
pub open spec fn walked_out(panicked: bool) -> Stage {
    if panicked {
        Stage::Unwound
    } else {
        Stage::Poisoned
    }
}

/// What the participant is told when a detonation ends.
pub open spec fn walked_out_poll(panicked: bool) -> Poll {
    if panicked {
        Poll::Unwound
    } else {
        Poll::Ready(Err(LockPoisoned))
    }
}

/// A bound on the steps that a handler of the front in stage `stage` has
/// to take until it passes the front or ends, the waiting for a late
/// successor not counted; `linked` says whether the front has a successor
/// published.
pub open spec fn weight(stage: Stage, linked: bool) -> nat {
    match stage {
        Stage::Running => if linked {
            1
        } else {
            6
        },
        Stage::Walk { panicked } => if linked {
            1
        } else {
            6
        },
        Stage::Close => 5,
        Stage::Seal { panicked } => 5,
        Stage::Handoff => if linked {
            3
        } else {
            4
        },
        Stage::Chase { panicked } => if linked {
            3
        } else {
            4
        },
        _ => 0,
    }
}

impl QueueView {
    /// A bound on the work that is left for the participant `handler` while
    /// nobody new arrives: seven for each node of the line, and the weight
    /// of the handler's stage.
    pub open spec fn work(self, handler: usize) -> nat {
        7 * self.line.len() + weight(
            self.stage(handler),
            self.node(self.cursor(handler)).next.is_some(),
        )
    }

    /// The state of a new queue: unlocked, empty, without participants.
    pub open spec fn empty() -> QueueView {
        QueueView {
            lock: UNLOCKED,
            tail: None,
            nodes: Seq::empty(),
            frames: Seq::empty(),
            fast: false,
            line: Seq::empty(),
            arrived: 0,
            served: Seq::empty(),
        }
    }

    /// The number of participants.
    pub open spec fn len(self) -> nat {
        self.nodes.len()
    }

    /// The node `i`.
    pub open spec fn node(self, i: usize) -> NodeView {
        self.nodes[i as int]
    }

    /// The stage of participant `i`.
    pub open spec fn stage(self, i: usize) -> Stage {
        self.frames[i as int].stage
    }

    /// The cursor of participant `i`.
    pub open spec fn cursor(self, i: usize) -> usize {
        self.frames[i as int].cursor
    }

    /// The ticket of node `i`.
    pub open spec fn ticket(self, i: usize) -> nat {
        self.frames[i as int].ticket
    }

    /// The state with the status word of node `i` set to `status`.
    pub open spec fn with_status(self, i: usize, status: u32) -> QueueView {
        QueueView {
            nodes: self.nodes.update(i as int, NodeView { status, ..self.nodes[i as int] }),
            ..self
        }
    }

    /// The state with `next` published as the successor of node `i`.
    pub open spec fn with_next(self, i: usize, next: usize) -> QueueView {
        QueueView {
            nodes: self.nodes.update(i as int, NodeView { next: Some(next), ..self.nodes[i as int] }),
            ..self
        }
    }

    /// The state with participant `i` in stage `stage`.
    pub open spec fn with_stage(self, i: usize, stage: Stage) -> QueueView {
        QueueView {
            frames: self.frames.update(i as int, FrameView { stage, ..self.frames[i as int] }),
            ..self
        }
    }

    /// The state with participant `i` standing at `cursor`.
    pub open spec fn with_cursor(self, i: usize, cursor: usize) -> QueueView {
        QueueView {
            frames: self.frames.update(i as int, FrameView { cursor, ..self.frames[i as int] }),
            ..self
        }
    }

    /// The state after the front of the line has been passed.
    pub open spec fn passed(self) -> QueueView {
        QueueView { line: self.line.drop_first(), ..self }
    }

    /// The state after the thunk of node `i` has been handed out.
    pub open spec fn serving(self, i: usize) -> QueueView {
        QueueView { served: self.served.push(self.ticket(i)), ..self }
    }

    /// The state after one more participant has been enlisted, with a node
    /// that waits and a frame that has not begun.
    pub open spec fn enlist(self) -> QueueView {
        QueueView {
            nodes: self.nodes.push(NodeView { status: WAITING, next: None }),
            frames: self.frames.push(
                FrameView { stage: Stage::Fresh, cursor: self.nodes.len() as usize, ticket: 0 },
            ),
            ..self
        }
    }

    /// Fast path, entering.  The lock is taken only if the queue is empty
    /// and the lock word is unlocked.
    pub open spec fn try_enter(self) -> (QueueView, Result<bool, LockPoisoned>) {
        if self.tail.is_some() {
            (self, Ok(false))
        } else if self.lock == UNLOCKED {
            (QueueView { lock: LOCKED, fast: true, ..self }, Ok(true))
        } else {
            (self, try_acquire_outcome(self.lock))
        }
    }

    /// A caller outside the queue takes the lock word, whatever the queue
    /// holds.  This is defined for a lock that is not held.
    pub open spec fn acquire(self) -> (QueueView, Result<(), LockPoisoned>) {
        if self.lock == UNLOCKED {
            (QueueView { lock: LOCKED, fast: true, ..self }, Ok(()))
        } else {
            (self, Err(LockPoisoned))
        }
    }

    /// A caller outside the queue takes a poisoned lock for inspection.
    pub open spec fn acquire_poison(self) -> (QueueView, Result<(), LockNotPoisoned>) {
        if self.lock == crate::rawlock::POISONED {
            (QueueView { lock: LOCKED, fast: true, ..self }, Ok(()))
        } else {
            (self, Err(LockNotPoisoned))
        }
    }

    /// The caller that holds the lock from outside the queue releases it:
    /// the lock word becomes unlocked.  Where nobody holds the lock from
    /// outside, nothing happens.
    pub open spec fn leave(self) -> QueueView {
        if self.fast {
            QueueView { lock: UNLOCKED, fast: false, ..self }
        } else {
            self
        }
    }

    /// The caller that holds the lock from outside the queue leaves it
    /// poisoned, by a panic of its thunk or on purpose.  Where nobody holds
    /// the lock from outside, nothing happens.
    pub open spec fn abandon(self) -> QueueView {
        if self.fast {
            QueueView { lock: crate::rawlock::POISONED, fast: false, ..self }
        } else {
            self
        }
    }

    /// The thunk that was handed to `this` panicked: the bomb of `this`
    /// poisons the lock, and `this` starts to carry the poison along the
    /// queue.  Where `this` has no thunk in hand, nothing happens.
    pub open spec fn unwind(self, this: usize) -> QueueView {
        if self.stage(this) == Stage::Running {
            QueueView { lock: crate::rawlock::POISONED, ..self }.with_stage(
                this,
                Stage::Walk { panicked: true },
            )
        } else {
            self
        }
    }

    /// The tail swap of a fresh participant.
    pub open spec fn step_fresh(self, this: usize) -> (QueueView, Poll) {
        let stage = match self.tail {
            Some(prev) => Stage::Link { prev },
            None => Stage::Acquire,
        };
        let frame = FrameView { stage, cursor: this, ticket: self.arrived };
        (
            QueueView {
                tail: Some(this),
                frames: self.frames.update(this as int, frame),
                line: self.line.push(this),
                arrived: self.arrived + 1,
                ..self
            },
            Poll::Pending,
        )
    }

    /// What a waiter does with the status word `status` that it has found
    /// to be a message: it ends on `DONE` and on `POISONED`, and becomes
    /// the combiner on every other message.
    pub open spec fn step_received(self, this: usize, status: u32) -> (QueueView, Poll) {
        if status == DONE {
            (self.with_stage(this, Stage::Done), Poll::Ready(Ok(())))
        } else if status == crate::node::POISONED {
            (self.with_stage(this, Stage::Poisoned), Poll::Ready(Err(LockPoisoned)))
        } else {
            (self.with_stage(this, Stage::Running).serving(this), Poll::Run(this))
        }
    }

    /// One read of the own status word while spinning.
    pub open spec fn step_spin(self, this: usize, left: usize) -> (QueueView, Poll) {
        let status = self.node(this).status;
        if status == WAITING {
            if left > 1 {
                (self.with_stage(this, Stage::Spin { left: (left - 1) as usize }), Poll::Pending)
            } else {
                (self.with_stage(this, Stage::Park), Poll::Pending)
            }
        } else {
            self.step_received(this, status)
        }
    }

    /// Parking: a waiting status word becomes sleeping, a sleeping one
    /// stays, and a message is taken.
    pub open spec fn step_park(self, this: usize) -> (QueueView, Poll) {
        let status = self.node(this).status;
        if status == WAITING {
            (self.with_status(this, SLEEPING), Poll::Pending)
        } else if status == SLEEPING {
            (self, Poll::Pending)
        } else {
            self.step_received(this, status)
        }
    }

    /// One attempt of the head of the queue to take the lock word.  On
    /// poison its bomb goes off.
    pub open spec fn step_acquire(self, this: usize) -> (QueueView, Poll) {
        match try_acquire_outcome(self.lock) {
            Ok(true) => (
                QueueView { lock: LOCKED, ..self }.with_stage(this, Stage::Running).serving(this),
                Poll::Run(this),
            ),
            Ok(false) => (self, Poll::Pending),
            Err(_) => (
                QueueView { lock: crate::rawlock::POISONED, ..self }.with_stage(
                    this,
                    Stage::Walk { panicked: false },
                ),
                Poll::Pending,
            ),
        }
    }

    /// The combiner after a thunk has returned: with a successor, the
    /// cursor is woken as done and the successor's thunk is handed out.
    pub open spec fn step_running(self, this: usize) -> (QueueView, Poll) {
        let cursor = self.cursor(this);
        match self.node(cursor).next {
            Some(next) => (
                self.with_status(cursor, DONE).with_cursor(this, next).passed().serving(next),
                Poll::Run(next),
            ),
            None => (self.with_stage(this, Stage::Close), Poll::Pending),
        }
    }

    /// The combiner closing the queue: if the cursor is still the tail, the
    /// queue is emptied, the cursor woken as done and the lock released.
    pub open spec fn step_close(self, this: usize) -> (QueueView, Poll) {
        let cursor = self.cursor(this);
        if self.tail == Some(cursor) {
            (
                QueueView { tail: None, lock: UNLOCKED, ..self }.with_status(cursor, DONE).with_stage(
                    this,
                    Stage::Done,
                ).passed(),
                Poll::Ready(Ok(())),
            )
        } else {
            (self.with_stage(this, Stage::Handoff), Poll::Pending)
        }
    }

    /// The combiner handing over: once the successor has published itself,
    /// it is woken as head and the cursor as done.
    pub open spec fn step_handoff(self, this: usize) -> (QueueView, Poll) {
        let cursor = self.cursor(this);
        match self.node(cursor).next {
            Some(next) => (
                self.with_status(next, HEAD).with_status(cursor, DONE).with_stage(
                    this,
                    Stage::Done,
                ).passed(),
                Poll::Ready(Ok(())),
            ),
            None => (self, Poll::Pending),
        }
    }

    /// A detonation at the cursor: with a successor, the cursor is woken as
    /// poisoned and the walk moves on.
    pub open spec fn step_walk(self, this: usize, panicked: bool) -> (QueueView, Poll) {
        let cursor = self.cursor(this);
        match self.node(cursor).next {
            Some(next) => (
                self.with_status(cursor, crate::node::POISONED).with_cursor(this, next).passed(),
                Poll::Pending,
            ),
            None => (self.with_stage(this, Stage::Seal { panicked }), Poll::Pending),
        }
    }

    /// A detonation closing the queue: if the cursor is still the tail, the
    /// queue is emptied and the cursor woken as poisoned, which ends the
    /// walk.
    pub open spec fn step_seal(self, this: usize, panicked: bool) -> (QueueView, Poll) {
        let cursor = self.cursor(this);
        if self.tail == Some(cursor) {
            (
                QueueView { tail: None, ..self }.with_status(
                    cursor,
                    crate::node::POISONED,
                ).with_stage(this, walked_out(panicked)).passed(),
                walked_out_poll(panicked),
            )
        } else {
            (self.with_stage(this, Stage::Chase { panicked }), Poll::Pending)
        }
    }

    /// A detonation waiting for a late successor to publish itself.
    pub open spec fn step_chase(self, this: usize, panicked: bool) -> (QueueView, Poll) {
        let cursor = self.cursor(this);
        match self.node(cursor).next {
            Some(_) => (self.with_stage(this, Stage::Walk { panicked }), Poll::Pending),
            None => (self, Poll::Pending),
        }
    }

    /// One step of participant `this`: the state after it and what the
    /// participant is told.
    pub open spec fn step(self, this: usize) -> (QueueView, Poll) {
        match self.stage(this) {
            Stage::Fresh => self.step_fresh(this),
            Stage::Link { prev } => (
                self.with_next(prev, this).with_stage(this, Stage::Spin { left: SPIN_LIMIT }),
                Poll::Pending,
            ),
            Stage::Spin { left } => self.step_spin(this, left),
            Stage::Park => self.step_park(this),
            Stage::Acquire => self.step_acquire(this),
            Stage::Running => self.step_running(this),
            Stage::Close => self.step_close(this),
            Stage::Handoff => self.step_handoff(this),
            Stage::Walk { panicked } => self.step_walk(this, panicked),
            Stage::Seal { panicked } => self.step_seal(this, panicked),
            Stage::Chase { panicked } => self.step_chase(this, panicked),
            Stage::Done => (self, Poll::Ready(Ok(()))),
            Stage::Poisoned => (self, Poll::Ready(Err(LockPoisoned))),
            Stage::Unwound => (self, Poll::Unwound),
        }
    }

    /// The state after `count` steps of participant `this`, with no step of
    /// anybody else in between.
    pub open spec fn alone(self, this: usize, count: nat) -> QueueView
        decreases count,
    {
        if count == 0 {
            self
        } else {
            self.step(this).0.alone(this, (count - 1) as nat)
        }
    }

    /// Whether every name in `schedule` is that of a participant.
    pub open spec fn admits(self, schedule: Seq<usize>) -> bool {
        forall|turn: int| 0 <= turn < schedule.len() ==> (#[trigger] schedule[turn]) < self.len()
    }

    /// The state after the participants have taken one step each time
    /// `schedule` names them, in the order of `schedule`.
    pub open spec fn played(self, schedule: Seq<usize>) -> QueueView
        decreases schedule.len(),
    {
        if schedule.len() == 0 {
            self
        } else {
            self.step(schedule.first()).0.played(schedule.drop_first())
        }
    }

    /// Whether everybody in the line has published itself to its
    /// predecessor.
    pub open spec fn all_linked(self) -> bool {
        forall|k: int|
            0 <= k < self.line.len() ==> !(self.frames[(#[trigger] self.line[k]) as int].stage
                is Link)
    }

    /// Whether nobody holds the lock and nobody is attached to the queue:
    /// the state of a lock between two calls of its only owner.
    pub open spec fn at_rest(self) -> bool {
        &&& self.lock == UNLOCKED || self.lock == crate::rawlock::POISONED
        &&& self.tail.is_none()
        &&& !self.fast
        &&& self.line.len() == 0
        &&& forall|i: int|
            0 <= i < self.frames.len() ==> !live((#[trigger] self.frames[i]).stage)
                && self.frames[i].stage != Stage::Fresh
    }

    /// The state without its participants, which is what is left of a
    /// state at rest when the node table is emptied.
    pub open spec fn cleared(self) -> QueueView {
        QueueView { nodes: Seq::empty(), frames: Seq::empty(), ..self }
    }

    /// Every index that the state holds names a node.
    pub open spec fn in_bounds(self) -> bool {
        &&& self.frames.len() == self.nodes.len()
        &&& self.nodes.len() <= usize::MAX
        &&& match self.tail {
            Some(tail) => tail < self.len(),
            None => true,
        }
        &&& forall|i: int|
            0 <= i < self.nodes.len() ==> match (#[trigger] self.nodes[i]).next {
                Some(next) => next < self.len(),
                None => true,
            }
        &&& forall|i: int|
            0 <= i < self.frames.len() ==> {
                &&& (#[trigger] self.frames[i]).cursor < self.len()
                &&& match self.frames[i].stage {
                    Stage::Link { prev } => prev < self.len(),
                    _ => true,
                }
            }
    }
}

impl QueueView {
    /// The number of nodes that have been enqueued and passed: the ticket
    /// of the node at the front of the line.
    pub open spec fn base(self) -> int {
        self.arrived - self.line.len()
    }

    /// Whether the front of the line waits for a handler that has been
    /// chosen and has not yet begun: the front's owner, which still has to
    /// take the lock word or to find the message that makes it the head.
    pub open spec fn unclaimed(self) -> bool {
        &&& self.line.len() > 0
        &&& {
            let front = self.line[0] as int;
            ||| self.frames[front].stage == Stage::Acquire
            ||| queued(self.frames[front].stage) && self.nodes[front].status == HEAD
        }
    }

    /// The line holds no node twice, and the tail is its last node.
    pub open spec fn line_wf(self) -> bool {
        &&& self.line.no_duplicates()
        &&& forall|k: int| 0 <= k < self.line.len() ==> (#[trigger] self.line[k]) < self.len()
        &&& self.tail == if self.line.len() == 0 {
            None
        } else {
            Some(self.line.last())
        }
    }

    /// Each node of the line but the last has the node behind it as its
    /// successor, unless that node has not published itself yet; the last
    /// has no successor.
    pub open spec fn links_wf(self) -> bool {
        &&& forall|k: int|
            0 <= k && k + 1 < self.line.len() ==> {
                let ahead = (#[trigger] self.line[k]) as int;
                let behind = self.line[k + 1];
                if self.frames[behind as int].stage is Link {
                    &&& self.frames[behind as int].stage == (Stage::Link { prev: ahead as usize })
                    &&& self.nodes[ahead].next.is_none()
                } else {
                    self.nodes[ahead].next == Some(behind)
                }
            }
        &&& self.line.len() > 0 ==> self.nodes[self.line.last() as int].next.is_none()
    }

    /// Behind the front everybody waits: linking, spinning or parked, and
    /// without a message.
    pub open spec fn waiters_wf(self) -> bool {
        forall|k: int|
            1 <= k < self.line.len() ==> {
                let waiter = (#[trigger] self.line[k]) as int;
                &&& self.frames[waiter].stage is Link || queued(self.frames[waiter].stage)
                &&& self.nodes[waiter].status == WAITING || self.nodes[waiter].status == SLEEPING
            }
    }

    /// At most one participant handles the front of the line, it stands at
    /// the front, and the front is then neither acquiring nor about to find
    /// that it is the head.  Who waits for a late successor has one.  The
    /// owner of the front acquires, waits, or handles the front itself.
    pub open spec fn front_wf(self) -> bool {
        &&& forall|i: int, j: int|
            0 <= i < self.frames.len() && 0 <= j < self.frames.len() && active(
                (#[trigger] self.frames[i]).stage,
            ) && active((#[trigger] self.frames[j]).stage) ==> i == j
        &&& forall|i: int|
            0 <= i < self.frames.len() && active((#[trigger] self.frames[i]).stage) ==> {
                &&& self.line.len() > 0
                &&& self.frames[i].cursor == self.line[0]
                &&& !self.unclaimed()
            }
        &&& forall|i: int|
            0 <= i < self.frames.len() && ((#[trigger] self.frames[i]).stage == Stage::Handoff
                || self.frames[i].stage is Chase) ==> self.line.len() >= 2
        &&& self.line.len() > 0 ==> {
            let front = self.line[0] as int;
            &&& self.frames[front].stage == Stage::Acquire || queued(self.frames[front].stage)
                || active(self.frames[front].stage)
            &&& queued(self.frames[front].stage) ==> self.nodes[front].status == WAITING
                || self.nodes[front].status == SLEEPING || self.nodes[front].status == HEAD
        }
    }

    /// What a participant's stage says of its node: a fresh node is
    /// untouched and not in the line; whoever links or acquires is in the
    /// line; whoever waits outside the line has its final message; whoever
    /// is done is not in the line; and while a participant waits it stands
    /// at its own node.
    pub open spec fn stages_wf(self) -> bool {
        forall|i: int|
            0 <= i < self.frames.len() ==> {
                let stage = (#[trigger] self.frames[i]).stage;
                let status = self.nodes[i].status;
                let inside = self.line.contains(i as usize);
                &&& stage == Stage::Fresh ==> !inside && status == WAITING
                    && self.nodes[i].next.is_none()
                &&& stage is Link || stage == Stage::Acquire ==> inside && status == WAITING
                &&& stage is Spin ==> status != SLEEPING
                &&& queued(stage) && !inside ==> status == DONE || status
                    == crate::node::POISONED
                &&& queued(stage) && inside ==> status == WAITING || status == SLEEPING
                    || status == HEAD
                &&& !live(stage) ==> !inside
                &&& stage == Stage::Fresh || stage is Link || stage == Stage::Acquire || queued(
                    stage,
                ) ==> self.frames[i].cursor == i
            }
    }

    /// Who holds the lock word: a caller outside the queue, the combiner,
    /// or the waiter that has been told to become the combiner; and never
    /// two of them.
    pub open spec fn lock_wf(self) -> bool {
        &&& self.fast ==> self.lock == LOCKED
        &&& forall|i: int|
            0 <= i < self.frames.len() && combining((#[trigger] self.frames[i]).stage)
                ==> self.lock == LOCKED && !self.fast
        &&& self.line.len() > 0 && queued(self.frames[self.line[0] as int].stage)
            && self.nodes[self.line[0] as int].status == HEAD ==> self.lock == LOCKED
            && !self.fast
    }

    /// The nodes of the line hold consecutive tickets, and thunks have been
    /// handed out by rising tickets, none beyond the front of the line.
    pub open spec fn tickets_wf(self) -> bool {
        &&& self.base() >= 0
        &&& forall|k: int|
            0 <= k < self.line.len() ==> self.frames[(#[trigger] self.line[k]) as int].ticket
                == self.base() + k
        &&& forall|a: int, b: int|
            0 <= a < b < self.served.len() ==> (#[trigger] self.served[a]) < (
            #[trigger] self.served[b])
        &&& forall|a: int|
            0 <= a < self.served.len() ==> (#[trigger] self.served[a]) < self.base() || (
            self.served[a] == self.base() && self.line.len() > 0 && !self.unclaimed())
    }

    /// The thunk that the combiner has in hand is the one that was handed
    /// out last, and it is that of the front of the line; and a node is left
    /// as done only after its thunk was handed out.
    pub open spec fn served_wf(self) -> bool {
        &&& forall|i: int|
            0 <= i < self.frames.len() && combining((#[trigger] self.frames[i]).stage)
                ==> self.served.len() > 0 && self.served.last() == self.base()
        &&& forall|i: int|
            0 <= i < self.nodes.len() && (#[trigger] self.nodes[i]).status == DONE
                ==> self.served.contains(self.frames[i].ticket)
    }

    /// What holds of every state that the machine reaches from the state of
    /// a new queue.
    pub open spec fn wf(self) -> bool {
        &&& self.in_bounds()
        &&& self.line_wf()
        &&& self.links_wf()
        &&& self.waiters_wf()
        &&& self.front_wf()
        &&& self.stages_wf()
        &&& self.lock_wf()
        &&& self.tickets_wf()
        &&& self.served_wf()
    }
}

} // verus!
