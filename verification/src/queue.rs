//! The wait queue: the lock word, the node table and the participants'
//! frames, advanced one protocol step at a time.

use crate::bomb::LightWeightBomb;
use crate::frame::decision;
use crate::frame::query_of;
use crate::frame::unwinding;
use crate::frame::Answer;
use crate::frame::Effect;
use crate::frame::Frame;
use crate::frame::Query;
use crate::laws::lemma_cleared_wf;
use crate::laws::lemma_enlist_wf;
use crate::laws::lemma_outside_wf;
use crate::laws::lemma_step_wf;
use crate::laws::lemma_unwind_wf;
use crate::node::Node;
use crate::node::NodeView;
use crate::node::SLEEPING;
use crate::node::WAITING;
use crate::protocol::FrameView;
use crate::protocol::Poll;
use crate::protocol::QueueView;
use crate::protocol::Stage;
use crate::rawlock::try_acquire_outcome;
use crate::rawlock::LockNotPoisoned;
use crate::rawlock::LockPoisoned;
use crate::rawlock::RawLock;
use crate::rawlock::LOCKED;
use crate::rawlock::UNLOCKED;
use core::sync::atomic::Ordering;
use vstd::prelude::*;

verus! {

/// The shared words after participant `this` has made the access `query`,
/// and what the access found.
pub open spec fn answered(pre: QueueView, this: usize, query: Query) -> (QueueView, Answer) {
    match query {
        Query::SwapTail => (QueueView { tail: Some(this), ..pre }, Answer::Tail(pre.tail)),
        Query::Link { prev } => (pre.with_next(prev, this), Answer::Linked),
        Query::LoadStatus => (pre, Answer::Status(pre.node(this).status)),
        Query::Sleep => {
            let status = if pre.node(this).status == WAITING {
                SLEEPING
            } else {
                pre.node(this).status
            };
            (pre.with_status(this, status), Answer::Status(status))
        },
        Query::TryAcquire => (
            QueueView {
                lock: if pre.lock == UNLOCKED {
                    LOCKED
                } else {
                    pre.lock
                },
                ..pre
            },
            Answer::Acquired(try_acquire_outcome(pre.lock)),
        ),
        Query::LoadNext { of } => (pre, Answer::Next(pre.node(of).next)),
        Query::TryClose { expected } => (
            QueueView {
                tail: if pre.tail == Some(expected) {
                    None
                } else {
                    pre.tail
                },
                ..pre
            },
            Answer::Closed(pre.tail == Some(expected)),
        ),
        Query::Nothing => (pre, Answer::Nothing),
    }
}

/// The shared words after the write `effect`.
pub open spec fn effected(pre: QueueView, effect: Option<Effect>) -> QueueView {
    match effect {
        Some(Effect::Wake { node, message }) => pre.with_status(node, message),
        Some(Effect::Release) => QueueView { lock: UNLOCKED, ..pre },
        Some(Effect::Poison) => QueueView { lock: crate::rawlock::POISONED, ..pre },
        None => pre,
    }
}

/// Whether `effect` names a node of `pre`, if it names one.
pub open spec fn in_reach(pre: QueueView, effect: Option<Effect>) -> bool {
    match effect {
        Some(Effect::Wake { node, message }) => node < pre.len(),
        _ => true,
    }
}

/// A step of the protocol is an access, the decision of the participant's
/// frame on what the access found, and the writes that the decision
/// demands.  What the step adds to that is bookkeeping: the line, the
/// tickets, and the record of the thunks that were handed out.
pub proof fn lemma_step_is_decision(pre: QueueView, this: usize)
    requires
        pre.wf(),
        this < pre.len(),
    ensures
        ({
            let frame = pre.frames[this as int];
            let (asked, answer) = answered(pre, this, query_of(frame));
            let (decided, outcome) = decision(frame, answer);
            let written = effected(effected(asked, outcome.first), outcome.second);
            let post = pre.step(this).0;
            &&& match query_of(frame) {
                Query::Link { prev } => prev < pre.len(),
                Query::LoadNext { of } => of < pre.len(),
                _ => true,
            }
            &&& in_reach(pre, outcome.first)
            &&& in_reach(pre, outcome.second)
            &&& post.lock == written.lock
            &&& post.tail == written.tail
            &&& post.fast == written.fast
            &&& post.nodes =~= written.nodes
            &&& post.frames =~= pre.frames.update(
                this as int,
                FrameView { ticket: post.frames[this as int].ticket, ..decided },
            )
            &&& pre.step(this).1 == outcome.poll
        }),
{
    let frame = pre.frames[this as int];
    assert(frame.cursor < pre.len());
    assert(match pre.nodes[frame.cursor as int].next {
        Some(next) => next < pre.len(),
        None => true,
    });
    assert(frame.stage is Spin ==> pre.nodes[this as int].status != SLEEPING);
    assert(frame.stage == Stage::Fresh || frame.stage is Link || frame.stage == Stage::Acquire
        || crate::protocol::queued(frame.stage) ==> frame.cursor == this);
}

/// A lock word with its wait queue and the participants attached to it.
pub struct WaitQueue {
    raw: RawLock,
    nodes: Vec<Node>,
    frames: Vec<Frame>,
    guard: Option<LightWeightBomb>,
    line: Ghost<Seq<usize>>,
    arrived: Ghost<nat>,
    served: Ghost<Seq<nat>>,
}

impl View for WaitQueue {
    type V = QueueView;

    closed spec fn view(&self) -> QueueView {
        QueueView {
            lock: self.raw.status(),
            tail: self.raw.tail(),
            nodes: self.nodes@.map_values(|node: Node| node@),
            frames: self.frames@.map_values(|frame: Frame| frame@),
            fast: self.guard.is_some(),
            line: self.line@,
            arrived: self.arrived@,
            served: self.served@,
        }
    }
}

impl WaitQueue {
    /// The frames are consistent with their bombs, and the invariant of the
    /// protocol holds of the state.
    pub closed spec fn wf(&self) -> bool {
        &&& self@.wf()
        &&& forall|i: int| 0 <= i < self.frames.len() ==> (#[trigger] self.frames[i]).wf()
    }

    /// The invariant of the protocol holds of a well-formed queue.
    pub proof fn lemma_wf_view(&self)
        requires
            self.wf(),
        ensures
            self@.wf(),
    {
    }

    /// A queue that nobody holds and nobody waits in.
    pub fn new() -> (queue: Self)
        ensures
            queue.wf(),
            queue@ == QueueView::empty(),
    {
        let queue = WaitQueue {
            raw: RawLock::new(),
            nodes: Vec::new(),
            frames: Vec::new(),
            guard: None,
            line: Ghost(Seq::empty()),
            arrived: Ghost(0),
            served: Ghost(Seq::empty()),
        };
        proof {
            assert(queue@.nodes =~= Seq::empty());
            assert(queue@.frames =~= Seq::empty());
        }
        queue
    }

    /// The number of participants that have been enlisted.
    pub fn len(&self) -> (len: usize)
        requires
            self.wf(),
        ensures
            len == self@.len(),
    {
        self.nodes.len()
    }

    /// The lock word and the tail.
    pub fn raw(&self) -> (raw: &RawLock)
        ensures
            raw.status() == self@.lock,
            raw.tail() == self@.tail,
    {
        &self.raw
    }

    /// The node `this`.
    pub fn node(&self, this: usize) -> (node: &Node)
        requires
            self.wf(),
            this < self@.len(),
        ensures
            node@ == self@.node(this),
    {
        &self.nodes[this]
    }

    /// The stage of participant `this`.
    pub fn stage(&self, this: usize) -> (stage: Stage)
        requires
            self.wf(),
            this < self@.len(),
        ensures
            stage == self@.stage(this),
    {
        self.frames[this].stage()
    }

    /// Enlists a participant: a new node that waits, and a frame whose
    /// attachment has not begun.  The result names both.  The table is full
    /// with `usize::MAX` participants, and the result is `None` then.
    pub fn enlist(&mut self) -> (this: Option<usize>)
        requires
            old(self).wf(),
        ensures
            final(self).wf(),
            old(self)@.len() < usize::MAX ==> this == Some(old(self)@.len() as usize),
            old(self)@.len() < usize::MAX ==> final(self)@ == old(self)@.enlist(),
            old(self)@.len() >= usize::MAX ==> this.is_none() && final(self)@ == old(self)@,
    {
        let this = self.nodes.len();
        if this == usize::MAX {
            return None;
        }
        self.nodes.push(Node::new());
        self.frames.push(Frame::new(&self.raw, this));
        proof {
            lemma_enlist_wf(old(self)@);
            assert(self@.nodes =~= old(self)@.enlist().nodes);
            assert(self@.frames =~= old(self)@.enlist().frames);
        }
        Some(this)
    }

    /// Empties the node table of a queue at rest, where every attachment
    /// is over and no node is in use.
    pub fn clear(&mut self)
        requires
            old(self).wf(),
            old(self)@.at_rest(),
        ensures
            final(self).wf(),
            final(self)@ == old(self)@.cleared(),
    {
        proof {
            lemma_cleared_wf(old(self)@);
        }
        self.nodes = Vec::new();
        self.frames = Vec::new();
        proof {
            assert(self@.nodes =~= old(self)@.cleared().nodes);
            assert(self@.frames =~= old(self)@.cleared().frames);
        }
    }

    /// Reads the successor of node `of`.
    fn successor(&self, of: usize) -> (next: Option<usize>)
        requires
            of < self.nodes.len(),
        ensures
            next == self@.node(of).next,
    {
        self.nodes[of].load_next(Ordering::Acquire)
    }

    /// Performs the access `query` for participant `this`.
    fn answer(&mut self, this: usize, query: Query) -> (answer: Answer)
        requires
            this < old(self).nodes.len(),
            match query {
                Query::Link { prev } => prev < old(self).nodes.len(),
                Query::LoadNext { of } => of < old(self).nodes.len(),
                _ => true,
            },
        ensures
            final(self).frames == old(self).frames,
            final(self).guard == old(self).guard,
            final(self).line == old(self).line,
            final(self).arrived == old(self).arrived,
            final(self).served == old(self).served,
            final(self)@ == answered(old(self)@, this, query).0,
            answer == answered(old(self)@, this, query).1,
    {
        let answer = match query {
            Query::SwapTail => Answer::Tail(self.raw.swap_tail(this)),
            Query::Link { prev } => {
                self.nodes[prev].store_next(this);
                Answer::Linked
            },
            Query::LoadStatus => Answer::Status(self.nodes[this].status_word()),
            Query::Sleep => Answer::Status(self.nodes[this].wait()),
            Query::TryAcquire => Answer::Acquired(self.raw.try_acquire()),
            Query::LoadNext { of } => Answer::Next(self.successor(of)),
            Query::TryClose { expected } => Answer::Closed(self.raw.try_close(expected)),
            Query::Nothing => Answer::Nothing,
        };
        proof {
            assert(self@.nodes =~= answered(old(self)@, this, query).0.nodes);
        }
        answer
    }

    /// Performs the write `effect`.
    fn perform(&mut self, effect: Option<Effect>)
        requires
            match effect {
                Some(Effect::Wake { node, message }) => node < old(self).nodes.len(),
                _ => true,
            },
        ensures
            final(self).frames == old(self).frames,
            final(self).guard == old(self).guard,
            final(self).line == old(self).line,
            final(self).arrived == old(self).arrived,
            final(self).served == old(self).served,
            final(self).nodes.len() == old(self).nodes.len(),
            final(self)@ == effected(old(self)@, effect),
    {
        match effect {
            Some(Effect::Wake { node, message }) => {
                self.nodes[node].wake(message);
            },
            Some(Effect::Release) => {
                self.raw.release();
            },
            Some(Effect::Poison) => {
                self.raw.poison();
            },
            None => {},
        }
        proof {
            assert(self@.nodes =~= effected(old(self)@, effect).nodes);
        }
    }

    /// Lets the frame of participant `this` decide on `answer`.
    fn decide(&mut self, this: usize, answer: Answer) -> (outcome: crate::frame::Outcome)
        requires
            this < old(self).frames.len(),
            old(self).frames[this as int].wf(),
        ensures
            final(self).raw == old(self).raw,
            final(self).nodes == old(self).nodes,
            final(self).guard == old(self).guard,
            final(self).line == old(self).line,
            final(self).arrived == old(self).arrived,
            final(self).served == old(self).served,
            final(self).frames@.len() == old(self).frames@.len(),
            forall|i: int|
                0 <= i < old(self).frames@.len() && i != this ==> final(self).frames@[i] == old(self).frames@[i],
            final(self).frames@[this as int].wf(),
            (final(self).frames@[this as int]@, outcome) == decision(
                old(self).frames@[this as int]@,
                answer,
            ),
    {
        self.frames[this].decide(answer)
    }

    /// Enters the bookkeeping of a step of participant `this`: its ticket,
    /// the line, and the record of the thunks that were handed out.
    fn book(&mut self, this: usize, Ghost(post): Ghost<QueueView>)
        requires
            this < old(self).frames.len(),
            old(self).frames[this as int].wf(),
        ensures
            final(self).raw == old(self).raw,
            final(self).nodes == old(self).nodes,
            final(self).guard == old(self).guard,
            final(self).line@ == post.line,
            final(self).arrived@ == post.arrived,
            final(self).served@ == post.served,
            final(self).frames@.len() == old(self).frames@.len(),
            forall|i: int|
                0 <= i < old(self).frames@.len() && i != this ==> final(self).frames@[i] == old(self).frames@[i],
            final(self).frames@[this as int].wf(),
            final(self).frames@[this as int]@ == (FrameView {
                ticket: post.frames[this as int].ticket,
                ..old(self).frames@[this as int]@
            }),
    {
        self.frames[this].stamp(Ghost(post.frames[this as int].ticket));
        self.line = Ghost(post.line);
        self.arrived = Ghost(post.arrived);
        self.served = Ghost(post.served);
    }

    /// The fast path, entering: with an empty queue, one attempt to take
    /// the lock word.  `Ok(true)` says that the caller holds the lock, under
    /// a bomb, and runs its thunk itself; `Ok(false)` sends it to the queue.
    pub fn try_enter(&mut self) -> (entered: Result<bool, LockPoisoned>)
        requires
            old(self).wf(),
        ensures
            final(self).wf(),
            final(self)@ == old(self)@.try_enter().0,
            entered == old(self)@.try_enter().1,
    {
        proof {
            lemma_outside_wf(old(self)@);
        }
        if self.raw.has_tail(Ordering::Relaxed) {
            return Ok(false);
        }
        let entered = self.raw.try_acquire();
        if let Ok(true) = entered {
            self.guard = Some(LightWeightBomb::new(&self.raw));
        }
        entered
    }

    /// Takes the lock word from outside the queue, whatever the queue
    /// holds, and arms a bomb.  A caller of this waits for as long as the
    /// lock is held; with exclusive access nobody else can release it, so a
    /// held lock is not accepted here.
    pub fn acquire(&mut self) -> (taken: Result<(), LockPoisoned>)
        requires
            old(self).wf(),
            old(self)@.lock != LOCKED,
        ensures
            final(self).wf(),
            final(self)@ == old(self)@.acquire().0,
            taken == old(self)@.acquire().1,
    {
        proof {
            lemma_outside_wf(old(self)@);
        }
        match self.raw.acquire() {
            Ok(()) => {
                self.guard = Some(LightWeightBomb::new(&self.raw));
                Ok(())
            },
            Err(poisoned) => Err(poisoned),
        }
    }

    /// Takes a poisoned lock for inspection, from outside the queue, and
    /// arms a bomb.
    pub fn acquire_poison(&mut self) -> (taken: Result<(), LockNotPoisoned>)
        requires
            old(self).wf(),
        ensures
            final(self).wf(),
            final(self)@ == old(self)@.acquire_poison().0,
            taken == old(self)@.acquire_poison().1,
    {
        proof {
            lemma_outside_wf(old(self)@);
        }
        match self.raw.acquire_poison() {
            Ok(()) => {
                self.guard = Some(LightWeightBomb::new(&self.raw));
                Ok(())
            },
            Err(sound) => Err(sound),
        }
    }

    /// The caller that holds the lock from outside the queue releases it
    /// and defuses its bomb.
    pub fn leave(&mut self)
        requires
            old(self).wf(),
        ensures
            final(self).wf(),
            final(self)@ == old(self)@.leave(),
    {
        proof {
            lemma_outside_wf(old(self)@);
        }
        match self.guard.take() {
            Some(bomb) => {
                self.raw.release();
                bomb.diffuse();
            },
            None => {},
        }
    }

    /// The caller that holds the lock from outside the queue leaves it
    /// poisoned: its bomb goes off when its thunk panics, and a caller that
    /// poisons on purpose sets it off itself.
    pub fn abandon(&mut self)
        requires
            old(self).wf(),
        ensures
            final(self).wf(),
            final(self)@ == old(self)@.abandon(),
    {
        proof {
            lemma_outside_wf(old(self)@);
        }
        match self.guard.take() {
            Some(bomb) => bomb.detonate(&mut self.raw),
            None => {},
        }
    }
}

impl Node {
    /// Attaches the node `this` to `queue`, one step for each call: the next
    /// access that the owner of `this` makes to the words it shares with the
    /// other participants, its decision on what the access found, and the
    /// writes that the decision demands.  The result says what the owner
    /// does then.
    pub fn attach(this: usize, queue: &mut WaitQueue) -> (poll: Poll)
        requires
            old(queue).wf(),
            this < old(queue)@.len(),
        ensures
            final(queue).wf(),
            final(queue)@ == old(queue)@.step(this).0,
            final(queue)@.len() == old(queue)@.len(),
            poll == old(queue)@.step(this).1,
    {
        let ghost pre = queue@;
        proof {
            lemma_step_wf(pre, this);
            lemma_step_is_decision(pre, this);
        }
        let query = queue.frames[this].query();
        let answer = queue.answer(this, query);
        let outcome = queue.decide(this, answer);
        queue.perform(outcome.first);
        queue.perform(outcome.second);
        queue.book(this, Ghost(pre.step(this).0));
        proof {
            assert(queue@.frames =~= pre.step(this).0.frames);
            assert(queue@.nodes =~= pre.step(this).0.nodes);
        }
        outcome.poll
    }

    /// Reports that the thunk which `attach` handed to the owner of `this`
    /// panicked.  The owner's bomb goes off: the lock is poisoned, and the
    /// following calls of `attach` carry the poison along the queue.  Where
    /// the owner of `this` has no thunk in hand, nothing happens.
    pub fn unwind(this: usize, queue: &mut WaitQueue)
        requires
            old(queue).wf(),
            this < old(queue)@.len(),
        ensures
            final(queue).wf(),
            final(queue)@ == old(queue)@.unwind(this),
            final(queue)@.len() == old(queue)@.len(),
    {
        proof {
            lemma_unwind_wf(old(queue)@, this);
        }
        let effect = queue.frames[this].unwind();
        queue.perform(effect);
        proof {
            assert(queue@.nodes =~= old(queue)@.unwind(this).nodes);
            assert(queue@.frames =~= old(queue)@.unwind(this).frames);
        }
    }
}

} // verus!
