//! The invariant of the attach protocol is kept by every step, and what
//! follows from it.

use crate::node::DONE;
use crate::node::HEAD;
use crate::node::SLEEPING;
use crate::node::WAITING;
use crate::protocol::active;
use crate::protocol::combining;
use crate::protocol::detonating;
use crate::protocol::live;
use crate::protocol::queued;
use crate::protocol::Poll;
use crate::protocol::QueueView;
use crate::protocol::Stage;
use crate::rawlock::LOCKED;
use crate::rawlock::UNLOCKED;
use vstd::prelude::*;

verus! {

/// The state of a new queue is well formed.
pub proof fn lemma_empty_wf()
    ensures
        QueueView::empty().wf(),
{
}

/// Enlisting a participant keeps the state well formed.
pub proof fn lemma_enlist_wf(pre: QueueView)
    requires
        pre.wf(),
        pre.len() < usize::MAX,
    ensures
        pre.enlist().wf(),
{
    let post = pre.enlist();
    assert forall|i: int| 0 <= i < post.frames.len() implies {
        let stage = (#[trigger] post.frames[i]).stage;
        !live(stage) ==> !post.line.contains(i as usize)
    } by {
        if i == pre.frames.len() {
            if pre.line.contains(i as usize) {
                let k = choose|k: int| 0 <= k < pre.line.len() && pre.line[k] == i as usize;
                assert(pre.line[k] < pre.len());
            }
        }
    }
}

/// Emptying the node table of a state at rest keeps the state well formed
/// and at rest.
pub proof fn lemma_cleared_wf(pre: QueueView)
    requires
        pre.wf(),
        pre.at_rest(),
    ensures
        pre.cleared().wf(),
        pre.cleared().at_rest(),
{
    let post = pre.cleared();
    assert(!pre.unclaimed());
    assert(!post.unclaimed());
}

/// What a caller does to the lock word from outside the queue keeps the
/// state well formed.
pub proof fn lemma_outside_wf(pre: QueueView)
    requires
        pre.wf(),
    ensures
        pre.try_enter().0.wf(),
        pre.lock != LOCKED ==> pre.acquire().0.wf(),
        pre.acquire_poison().0.wf(),
        pre.leave().wf(),
        pre.abandon().wf(),
{
}

/// A combiner that starts to unwind keeps the state well formed.
pub proof fn lemma_unwind_wf(pre: QueueView, this: usize)
    requires
        pre.wf(),
        this < pre.len(),
    ensures
        pre.unwind(this).wf(),
        pre.unwind(this).len() == pre.len(),
{
}

/// What was handed out stays handed out when one more thunk is.
proof fn lemma_served_more(served: Seq<nat>, ticket: nat)
    ensures
        served.push(ticket).contains(ticket),
        served.push(ticket).last() == ticket,
        forall|other: nat| served.contains(other) ==> #[trigger] served.push(ticket).contains(other),
{
    let more = served.push(ticket);
    assert(more[served.len() as int] == ticket);
    assert forall|other: nat| served.contains(other) implies #[trigger] more.contains(other) by {
        let at = choose|at: int| 0 <= at < served.len() && served[at] == other;
        assert(more[at] == other);
    }
}

/// What a line holds after its front has been passed.
proof fn lemma_passed_contains(line: Seq<usize>)
    requires
        line.no_duplicates(),
        line.len() > 0,
    ensures
        line.drop_first().no_duplicates(),
        !line.drop_first().contains(line[0]),
        forall|x: usize| #[trigger]
            line.drop_first().contains(x) <==> line.contains(x) && x != line[0],
{
    let rest = line.drop_first();
    assert forall|x: usize| #[trigger] rest.contains(x) <==> line.contains(x) && x
        != line[0] by {
        if rest.contains(x) {
            let k = choose|k: int| 0 <= k < rest.len() && rest[k] == x;
            assert(line[k + 1] == x);
        }
        if line.contains(x) && x != line[0] {
            let k = choose|k: int| 0 <= k < line.len() && line[k] == x;
            assert(rest[k - 1] == x);
        }
    }
}

/// What a line holds after a node has joined it.
proof fn lemma_joined_contains(line: Seq<usize>, node: usize)
    requires
        line.no_duplicates(),
        !line.contains(node),
    ensures
        line.push(node).no_duplicates(),
        forall|x: usize| #[trigger] line.push(node).contains(x) <==> line.contains(x) || x == node,
{
    let longer = line.push(node);
    assert forall|x: usize| #[trigger] longer.contains(x) <==> line.contains(x) || x == node by {
        if longer.contains(x) {
            let k = choose|k: int| 0 <= k < longer.len() && longer[k] == x;
            if k < line.len() {
                assert(line[k] == x);
            }
        }
        if line.contains(x) {
            let k = choose|k: int| 0 <= k < line.len() && line[k] == x;
            assert(longer[k] == x);
        }
        if x == node {
            assert(longer[line.len() as int] == x);
        }
    }
}

/// The tail swap keeps the state well formed.
proof fn lemma_step_fresh(pre: QueueView, this: usize)
    requires
        pre.wf(),
        this < pre.len(),
        pre.stage(this) == Stage::Fresh,
    ensures
        pre.step(this).0.wf(),
{
    let post = pre.step(this).0;
    let old_len = pre.line.len() as int;
    assert(pre.frames[this as int].stage == Stage::Fresh);
    assert(!pre.line.contains(this));
    lemma_joined_contains(pre.line, this);
    assert(post.line == pre.line.push(this));
    assert forall|k: int| 0 <= k < old_len implies pre.line[k] != this by {
        assert(pre.line.contains(pre.line[k]));
    }
    assert(post.in_bounds());
    assert(post.line_wf());
    assert(post.links_wf()) by {
        assert forall|k: int| 0 <= k && k + 1 < post.line.len() implies {
            let ahead = (#[trigger] post.line[k]) as int;
            let behind = post.line[k + 1];
            if post.frames[behind as int].stage is Link {
                &&& post.frames[behind as int].stage == (Stage::Link { prev: ahead as usize })
                &&& post.nodes[ahead].next.is_none()
            } else {
                post.nodes[ahead].next == Some(behind)
            }
        } by {
            if k + 1 < old_len {
                assert(post.line[k] == pre.line[k]);
                assert(post.line[k + 1] == pre.line[k + 1]);
            } else {
                assert(post.line[k] == pre.line.last());
                assert(post.line[k + 1] == this);
            }
        }
    }
    assert(post.waiters_wf()) by {
        assert forall|k: int| 1 <= k < post.line.len() implies {
            let waiter = (#[trigger] post.line[k]) as int;
            &&& post.frames[waiter].stage is Link || queued(post.frames[waiter].stage)
            &&& post.nodes[waiter].status == WAITING || post.nodes[waiter].status == SLEEPING
        } by {
            if k < old_len {
                assert(post.line[k] == pre.line[k]);
            }
        }
    }
    assert(post.front_wf()) by {
        if old_len > 0 {
            assert(post.line[0] == pre.line[0]);
            assert(pre.line[0] != this);
            assert(post.unclaimed() == pre.unclaimed());
        }
    }
    assert(post.stages_wf());
    assert(post.lock_wf()) by {
        if old_len > 0 {
            assert(post.line[0] == pre.line[0]);
        }
    }
    assert(post.tickets_wf()) by {
        assert(post.base() == pre.base());
        assert forall|k: int| 0 <= k < post.line.len() implies post.frames[(
        #[trigger] post.line[k]) as int].ticket == post.base() + k by {
            if k < old_len {
                assert(post.line[k] == pre.line[k]);
            }
        }
        if old_len > 0 {
            assert(post.line[0] == pre.line[0]);
            assert(post.unclaimed() == pre.unclaimed());
        }
    }
}

/// Publishing a node to its predecessor keeps the state well formed.
proof fn lemma_step_link(pre: QueueView, this: usize)
    requires
        pre.wf(),
        this < pre.len(),
        pre.stage(this) is Link,
    ensures
        pre.step(this).0.wf(),
{
    let post = pre.step(this).0;
    let prev = pre.stage(this)->prev;
    assert(pre.frames[this as int].stage is Link);
    assert(pre.line.contains(this));
    let at = choose|at: int| 0 <= at < pre.line.len() && pre.line[at] == this;
    assert(at >= 1);
    assert(pre.line[at - 1] == prev);
    assert(pre.nodes[prev as int].next.is_none());
    assert(prev != this);
    assert(post.line == pre.line);
    assert forall|k: int| 0 <= k < pre.line.len() && k != at implies pre.line[k] != this by {}
    assert forall|k: int| 0 <= k < pre.line.len() && k != at - 1 implies pre.line[k] != prev by {}
    assert(post.in_bounds());
    assert(post.line_wf());
    assert(post.links_wf()) by {
        assert forall|k: int| 0 <= k && k + 1 < post.line.len() implies {
            let ahead = (#[trigger] post.line[k]) as int;
            let behind = post.line[k + 1];
            if post.frames[behind as int].stage is Link {
                &&& post.frames[behind as int].stage == (Stage::Link { prev: ahead as usize })
                &&& post.nodes[ahead].next.is_none()
            } else {
                post.nodes[ahead].next == Some(behind)
            }
        } by {
            let ahead = pre.line[k];
            let behind = pre.line[k + 1];
            if k + 1 == at {
            } else {
                assert(behind != this);
                assert(ahead != prev);
            }
        }
        if at != pre.line.len() - 1 {
            assert(pre.line.last() != this);
        }
    }
    assert(post.waiters_wf()) by {
        assert forall|k: int| 1 <= k < post.line.len() implies {
            let waiter = (#[trigger] post.line[k]) as int;
            &&& post.frames[waiter].stage is Link || queued(post.frames[waiter].stage)
            &&& post.nodes[waiter].status == WAITING || post.nodes[waiter].status == SLEEPING
        } by {
            assert(post.nodes[pre.line[k] as int].status == pre.nodes[pre.line[k] as int].status);
        }
    }
    assert(post.front_wf()) by {
        assert(pre.line[0] != this);
        assert(post.nodes[pre.line[0] as int].status == pre.nodes[pre.line[0] as int].status);
        assert(post.unclaimed() == pre.unclaimed());
    }
    assert(post.stages_wf()) by {
        assert forall|i: int| 0 <= i < post.frames.len() implies post.nodes[i].status
            == pre.nodes[i].status by {}
        assert forall|i: int| 0 <= i < post.frames.len() && i != prev implies post.nodes[i].next
            == pre.nodes[i].next by {}
        assert(pre.line.contains(prev));
    }
    assert(post.lock_wf()) by {
        assert(pre.line[0] != this);
        assert(post.nodes[pre.line[0] as int].status == pre.nodes[pre.line[0] as int].status);
    }
    assert(post.tickets_wf()) by {
        assert(post.unclaimed() == pre.unclaimed());
    }
}

/// Where a waiter stands: in the line with no message or with the message
/// that makes it the head at the front, or outside the line with its final
/// message.
proof fn lemma_waiter(pre: QueueView, this: usize)
    requires
        pre.wf(),
        this < pre.len(),
        queued(pre.stage(this)),
    ensures
        pre.cursor(this) == this,
        pre.line.contains(this) ==> pre.node(this).status == WAITING || pre.node(this).status
            == SLEEPING || pre.node(this).status == HEAD,
        !pre.line.contains(this) ==> pre.node(this).status == DONE || pre.node(this).status
            == crate::node::POISONED,
        pre.node(this).status == HEAD ==> {
            &&& pre.line.len() > 0
            &&& pre.line[0] == this
            &&& pre.unclaimed()
            &&& pre.lock == LOCKED
            &&& !pre.fast
            &&& forall|i: int| 0 <= i < pre.frames.len() ==> !active((#[trigger] pre.frames[i]).stage)
            &&& forall|a: int| 0 <= a < pre.served.len() ==> (#[trigger] pre.served[a]) < pre.base()
        },
        pre.stage(this) is Spin ==> pre.node(this).status != SLEEPING,
{
    assert(queued(pre.frames[this as int].stage));
    if pre.nodes[this as int].status == HEAD {
        assert(pre.line.contains(this));
        let k = choose|k: int| 0 <= k < pre.line.len() && pre.line[k] == this;
        if k >= 1 {
            let waiter = pre.line[k] as int;
            assert(pre.nodes[waiter].status == WAITING || pre.nodes[waiter].status == SLEEPING);
        }
        assert(pre.line[0] == this);
        assert(pre.unclaimed());
    }
}

/// A waiter that goes on waiting keeps the state well formed.
proof fn lemma_waiting_on(pre: QueueView, this: usize, stage: Stage, status: u32)
    requires
        pre.wf(),
        this < pre.len(),
        queued(pre.stage(this)),
        queued(stage),
        pre.node(this).status == WAITING || pre.node(this).status == SLEEPING,
        status == pre.node(this).status || (status == SLEEPING && stage == Stage::Park),
        stage is Spin ==> pre.stage(this) is Spin,
    ensures
        pre.with_stage(this, stage).with_status(this, status).wf(),
{
    let post = pre.with_stage(this, stage).with_status(this, status);
    lemma_waiter(pre, this);
    assert(post.line == pre.line);
    assert(post.frames[this as int].stage == stage);
    assert(post.frames[this as int].cursor == this);
    assert forall|i: int| 0 <= i < pre.frames.len() && i != this implies (
    #[trigger] post.frames[i]) == pre.frames[i] by {}
    assert forall|i: int| 0 <= i < pre.nodes.len() implies (#[trigger] post.nodes[i]).next
        == pre.nodes[i].next && (i != this ==> post.nodes[i].status == pre.nodes[i].status) by {}
    assert(post.nodes[this as int].status == status);
    assert(post.in_bounds());
    assert(post.line_wf());
    assert(post.links_wf()) by {
        assert forall|k: int| 0 <= k && k + 1 < post.line.len() implies {
            let ahead = (#[trigger] post.line[k]) as int;
            let behind = post.line[k + 1];
            if post.frames[behind as int].stage is Link {
                &&& post.frames[behind as int].stage == (Stage::Link { prev: ahead as usize })
                &&& post.nodes[ahead].next.is_none()
            } else {
                post.nodes[ahead].next == Some(behind)
            }
        } by {
            let ahead = pre.line[k] as int;
            let behind = pre.line[k + 1];
            assert(post.nodes[ahead].next == pre.nodes[ahead].next);
            if behind != this {
                assert(post.frames[behind as int] == pre.frames[behind as int]);
            } else {
                assert(!(pre.frames[behind as int].stage is Link));
                assert(!(post.frames[behind as int].stage is Link));
            }
        }
    }
    assert(post.waiters_wf()) by {
        assert forall|k: int| 1 <= k < post.line.len() implies {
            let waiter = (#[trigger] post.line[k]) as int;
            &&& post.frames[waiter].stage is Link || queued(post.frames[waiter].stage)
            &&& post.nodes[waiter].status == WAITING || post.nodes[waiter].status == SLEEPING
        } by {
            let waiter = pre.line[k] as int;
            assert(pre.frames[waiter].stage is Link || queued(pre.frames[waiter].stage));
            if waiter != this {
                assert(post.frames[waiter] == pre.frames[waiter]);
                assert(post.nodes[waiter].status == pre.nodes[waiter].status);
            }
        }
    }
    assert(post.unclaimed() == pre.unclaimed()) by {
        if pre.line.len() > 0 {
            let front = pre.line[0] as int;
            if front == this {
                assert(queued(post.frames[front].stage));
                assert(post.nodes[front].status != HEAD);
                assert(pre.nodes[front].status != HEAD);
            } else {
                assert(post.frames[front] == pre.frames[front]);
                assert(post.nodes[front].status == pre.nodes[front].status);
            }
        }
    }
    assert(post.front_wf()) by {
        assert forall|i: int|
            0 <= i < post.frames.len() implies (active((#[trigger] post.frames[i]).stage)
            <==> active(pre.frames[i].stage)) && post.frames[i].cursor == pre.frames[i].cursor by {}
        if pre.line.len() > 0 {
            let front = pre.line[0] as int;
            if front != this {
                assert(post.frames[front] == pre.frames[front]);
                assert(post.nodes[front].status == pre.nodes[front].status);
            }
        }
    }
    assert(post.stages_wf()) by {
        assert forall|i: int| 0 <= i < post.frames.len() implies {
            let stage = (#[trigger] post.frames[i]).stage;
            let status = post.nodes[i].status;
            let inside = post.line.contains(i as usize);
            &&& stage == Stage::Fresh ==> !inside && status == WAITING
                && post.nodes[i].next.is_none()
            &&& stage is Link || stage == Stage::Acquire ==> inside && status == WAITING
            &&& stage is Spin ==> status != SLEEPING
            &&& queued(stage) && !inside ==> status == DONE || status == crate::node::POISONED
            &&& queued(stage) && inside ==> status == WAITING || status == SLEEPING || status
                == HEAD
            &&& !live(stage) ==> !inside
            &&& stage == Stage::Fresh || stage is Link || stage == Stage::Acquire || queued(stage)
                ==> post.frames[i].cursor == i
        } by {
            if i != this {
                assert(post.frames[i] == pre.frames[i]);
                assert(post.nodes[i] == pre.nodes[i]);
            }
        }
    }
    assert(post.lock_wf()) by {
        assert forall|i: int|
            0 <= i < post.frames.len() implies (combining((#[trigger] post.frames[i]).stage)
            <==> combining(pre.frames[i].stage)) by {}
        if pre.line.len() > 0 {
            let front = pre.line[0] as int;
            if front != this {
                assert(post.frames[front] == pre.frames[front]);
                assert(post.nodes[front].status == pre.nodes[front].status);
            }
        }
    }
    assert(post.tickets_wf()) by {
        assert forall|k: int| 0 <= k < post.line.len() implies post.frames[(
        #[trigger] post.line[k]) as int].ticket == post.base() + k by {
            assert(post.frames[pre.line[k] as int].ticket == pre.frames[pre.line[k] as int].ticket);
        }
    }
}

/// A waiter that ends on its final message keeps the state well formed.
proof fn lemma_waiter_ends(pre: QueueView, this: usize, stage: Stage)
    requires
        pre.wf(),
        this < pre.len(),
        queued(pre.stage(this)),
        pre.node(this).status == DONE || pre.node(this).status == crate::node::POISONED,
        stage == Stage::Done || stage == Stage::Poisoned,
    ensures
        pre.with_stage(this, stage).wf(),
{
    let post = pre.with_stage(this, stage);
    lemma_waiter(pre, this);
    assert(!pre.line.contains(this));
    assert(post.line == pre.line);
    assert(post.nodes == pre.nodes);
    assert(post.frames[this as int].stage == stage);
    assert forall|i: int| 0 <= i < pre.frames.len() && i != this implies (
    #[trigger] post.frames[i]) == pre.frames[i] by {}
    assert forall|k: int| 0 <= k < pre.line.len() implies (#[trigger] pre.line[k]) != this by {
        assert(pre.line.contains(pre.line[k]));
    }
    assert(post.in_bounds());
    assert(post.line_wf());
    assert(post.links_wf()) by {
        assert forall|k: int| 0 <= k && k + 1 < post.line.len() implies {
            let ahead = (#[trigger] post.line[k]) as int;
            let behind = post.line[k + 1];
            if post.frames[behind as int].stage is Link {
                &&& post.frames[behind as int].stage == (Stage::Link { prev: ahead as usize })
                &&& post.nodes[ahead].next.is_none()
            } else {
                post.nodes[ahead].next == Some(behind)
            }
        } by {
            assert(pre.line[k + 1] != this);
        }
    }
    assert(post.waiters_wf()) by {
        assert forall|k: int| 1 <= k < post.line.len() implies {
            let waiter = (#[trigger] post.line[k]) as int;
            &&& post.frames[waiter].stage is Link || queued(post.frames[waiter].stage)
            &&& post.nodes[waiter].status == WAITING || post.nodes[waiter].status == SLEEPING
        } by {
            assert(pre.line[k] != this);
        }
    }
    if pre.line.len() > 0 {
        assert(pre.line[0] != this);
    }
    assert(post.unclaimed() == pre.unclaimed());
    assert(post.front_wf());
    assert(post.stages_wf());
    assert(post.lock_wf());
    assert(post.tickets_wf());
}

/// A waiter that finds itself the head keeps the state well formed: it
/// becomes the combiner, and its own thunk is handed out.
proof fn lemma_waiter_heads(pre: QueueView, this: usize)
    requires
        pre.wf(),
        this < pre.len(),
        queued(pre.stage(this)),
        pre.node(this).status == HEAD,
    ensures
        pre.with_stage(this, Stage::Running).serving(this).wf(),
{
    let post = pre.with_stage(this, Stage::Running).serving(this);
    lemma_waiter(pre, this);
    assert(post.line == pre.line);
    assert(post.nodes == pre.nodes);
    assert(post.frames[this as int].stage == Stage::Running);
    assert(post.frames[this as int].cursor == this);
    assert(post.frames[this as int].ticket == pre.frames[this as int].ticket);
    assert forall|i: int| 0 <= i < pre.frames.len() && i != this implies (
    #[trigger] post.frames[i]) == pre.frames[i] by {}
    assert forall|k: int| 1 <= k < pre.line.len() implies (#[trigger] pre.line[k]) != this by {}
    assert(post.in_bounds());
    assert(post.line_wf());
    assert(post.links_wf()) by {
        assert forall|k: int| 0 <= k && k + 1 < post.line.len() implies {
            let ahead = (#[trigger] post.line[k]) as int;
            let behind = post.line[k + 1];
            if post.frames[behind as int].stage is Link {
                &&& post.frames[behind as int].stage == (Stage::Link { prev: ahead as usize })
                &&& post.nodes[ahead].next.is_none()
            } else {
                post.nodes[ahead].next == Some(behind)
            }
        } by {
            assert(pre.line[k + 1] != this);
        }
    }
    assert(post.waiters_wf()) by {
        assert forall|k: int| 1 <= k < post.line.len() implies {
            let waiter = (#[trigger] post.line[k]) as int;
            &&& post.frames[waiter].stage is Link || queued(post.frames[waiter].stage)
            &&& post.nodes[waiter].status == WAITING || post.nodes[waiter].status == SLEEPING
        } by {
            assert(pre.line[k] != this);
        }
    }
    assert(!post.unclaimed());
    assert(post.front_wf());
    assert(post.stages_wf());
    assert(post.lock_wf());
    assert(post.tickets_wf()) by {
        assert(pre.frames[pre.line[0] as int].ticket == pre.base() + 0);
    }
    assert(post.served_wf()) by {
        lemma_served_more(pre.served, pre.ticket(this));
        assert(pre.frames[pre.line[0] as int].ticket == pre.base() + 0);
        assert(post.served == pre.served.push(pre.ticket(this)));
        assert(post.base() == pre.base());
        assert forall|i: int|
            0 <= i < post.nodes.len() && (#[trigger] post.nodes[i]).status == DONE implies post.served.contains(
            post.frames[i].ticket,
        ) by {
            assert(pre.nodes[i].status == DONE);
            assert(post.frames[i].ticket == pre.frames[i].ticket);
        }
    }
}

/// Spinning and parking keep the state well formed, and so does the message
/// that ends them.
proof fn lemma_step_queued(pre: QueueView, this: usize)
    requires
        pre.wf(),
        this < pre.len(),
        queued(pre.stage(this)),
    ensures
        pre.step(this).0.wf(),
{
    lemma_waiter(pre, this);
    let status = pre.node(this).status;
    let post = pre.step(this).0;
    match pre.stage(this) {
        Stage::Spin { left } => {
            assert(post == pre.step_spin(this, left).0);
            if status == WAITING {
                let stage = if left > 1 {
                    Stage::Spin { left: (left - 1) as usize }
                } else {
                    Stage::Park
                };
                lemma_waiting_on(pre, this, stage, status);
                let expected = pre.with_stage(this, stage).with_status(this, status);
                assert(expected.nodes =~= pre.nodes);
                assert(post == pre.with_stage(this, stage));
                assert(post == expected);
            } else {
                assert(status != SLEEPING);
                lemma_received(pre, this);
            }
        },
        _ => {
            assert(pre.stage(this) == Stage::Park);
            assert(post == pre.step_park(this).0);
            if status == WAITING {
                lemma_waiting_on(pre, this, Stage::Park, SLEEPING);
                let expected = pre.with_stage(this, Stage::Park).with_status(this, SLEEPING);
                assert(pre.with_stage(this, Stage::Park).frames =~= pre.frames);
                assert(post == pre.with_status(this, SLEEPING));
                assert(post == expected);
            } else if status == SLEEPING {
                assert(post == pre);
            } else {
                lemma_received(pre, this);
            }
        },
    }
}

/// A waiter that takes its message keeps the state well formed.
proof fn lemma_received(pre: QueueView, this: usize)
    requires
        pre.wf(),
        this < pre.len(),
        queued(pre.stage(this)),
        pre.node(this).status != WAITING,
        pre.node(this).status != SLEEPING,
    ensures
        pre.step_received(this, pre.node(this).status).0.wf(),
{
    lemma_waiter(pre, this);
    let status = pre.node(this).status;
    if pre.line.contains(this) {
        assert(status == HEAD);
    }
    if status == DONE {
        lemma_waiter_ends(pre, this, Stage::Done);
    } else if status == crate::node::POISONED {
        lemma_waiter_ends(pre, this, Stage::Poisoned);
    } else {
        assert(status == HEAD);
        lemma_waiter_heads(pre, this);
    }
}

/// An attempt at the lock word keeps the state well formed.
proof fn lemma_step_acquire(pre: QueueView, this: usize)
    requires
        pre.wf(),
        this < pre.len(),
        pre.stage(this) == Stage::Acquire,
    ensures
        pre.step(this).0.wf(),
{
    let post = pre.step(this).0;
    assert(pre.frames[this as int].stage == Stage::Acquire);
    assert(pre.line.contains(this));
    let at = choose|at: int| 0 <= at < pre.line.len() && pre.line[at] == this;
    if at >= 1 {
        let waiter = pre.line[at] as int;
        assert(pre.frames[waiter].stage is Link || queued(pre.frames[waiter].stage));
    }
    assert(pre.line[0] == this);
    assert(pre.unclaimed());
    assert forall|i: int| 0 <= i < pre.frames.len() implies !active(
        (#[trigger] pre.frames[i]).stage,
    ) by {}
    assert forall|k: int| 1 <= k < pre.line.len() implies (#[trigger] pre.line[k]) != this by {}
    assert forall|a: int| 0 <= a < pre.served.len() implies (#[trigger] pre.served[a])
        < pre.base() by {}
    if pre.lock == LOCKED {
        assert(post == pre);
    } else {
        let stage = if pre.lock == UNLOCKED {
            Stage::Running
        } else {
            Stage::Walk { panicked: false }
        };
        assert(post.frames[this as int].stage == stage);
        assert(post.frames[this as int].cursor == this);
        assert(post.frames[this as int].ticket == pre.frames[this as int].ticket);
        assert forall|i: int| 0 <= i < pre.frames.len() && i != this implies (
        #[trigger] post.frames[i]) == pre.frames[i] by {}
        assert(post.nodes == pre.nodes);
        assert(post.line == pre.line);
        assert(post.in_bounds());
        assert(post.line_wf());
        assert(post.links_wf()) by {
            assert forall|k: int| 0 <= k && k + 1 < post.line.len() implies {
                let ahead = (#[trigger] post.line[k]) as int;
                let behind = post.line[k + 1];
                if post.frames[behind as int].stage is Link {
                    &&& post.frames[behind as int].stage == (Stage::Link { prev: ahead as usize })
                    &&& post.nodes[ahead].next.is_none()
                } else {
                    post.nodes[ahead].next == Some(behind)
                }
            } by {
                assert(pre.line[k + 1] != this);
            }
        }
        assert(post.waiters_wf()) by {
            assert forall|k: int| 1 <= k < post.line.len() implies {
                let waiter = (#[trigger] post.line[k]) as int;
                &&& post.frames[waiter].stage is Link || queued(post.frames[waiter].stage)
                &&& post.nodes[waiter].status == WAITING || post.nodes[waiter].status
                    == SLEEPING
            } by {
                assert(pre.line[k] != this);
            }
        }
        assert(!post.unclaimed());
        assert(post.front_wf());
        assert(post.stages_wf());
        assert(post.lock_wf());
        assert(pre.frames[pre.line[0] as int].ticket == pre.base() + 0);
        if pre.lock == UNLOCKED {
            lemma_served_more(pre.served, pre.ticket(this));
            assert(post.served == pre.served.push(pre.ticket(this)));
        } else {
            assert(post.served == pre.served);
        }
        assert(post.tickets_wf());
        assert(post.served_wf()) by {
            assert(post.base() == pre.base());
            assert forall|i: int|
                0 <= i < post.nodes.len() && (#[trigger] post.nodes[i]).status
                    == DONE implies post.served.contains(post.frames[i].ticket) by {
                assert(pre.nodes[i].status == DONE);
                assert(post.frames[i].ticket == pre.frames[i].ticket);
            }
        }
    }
}

/// What holds where a participant handles the front of the line: it stands
/// at the front; a successor of the front is the second node of the line and
/// waits there, linked; and a front that is the tail is the whole line.
proof fn lemma_front(pre: QueueView, this: usize)
    requires
        pre.wf(),
        this < pre.len(),
        active(pre.stage(this)),
    ensures
        pre.line.len() > 0,
        pre.cursor(this) == pre.line[0],
        pre.cursor(this) < pre.len(),
        !pre.unclaimed(),
        pre.cursor(this) != this ==> queued(pre.stage(pre.cursor(this))),
        forall|i: int|
            0 <= i < pre.frames.len() && i != this ==> !active((#[trigger] pre.frames[i]).stage),
        forall|k: int| 1 <= k < pre.line.len() ==> (#[trigger] pre.line[k]) != pre.line[0],
        forall|k: int| 0 <= k < pre.line.len() ==> (#[trigger] pre.line[k]) != this || k == 0,
        pre.tail == Some(pre.cursor(this)) ==> pre.line.len() == 1,
        pre.line.len() == 1 ==> pre.tail == Some(pre.cursor(this)) && pre.node(
            pre.cursor(this),
        ).next.is_none(),
        match pre.node(pre.cursor(this)).next {
            Some(next) => {
                &&& pre.line.len() >= 2
                &&& next == pre.line[1]
                &&& next < pre.len()
                &&& next != this
                &&& next != pre.cursor(this)
                &&& queued(pre.stage(next))
                &&& pre.node(next).status == WAITING || pre.node(next).status == SLEEPING
            },
            None => true,
        },
{
    assert(active(pre.frames[this as int].stage));
    let cursor = pre.cursor(this);
    assert(cursor == pre.line[0]);
    assert forall|k: int| 0 <= k < pre.line.len() implies pre.line[k] != this || k == 0 by {
        if k >= 1 && pre.line[k] == this {
            let waiter = pre.line[k] as int;
            assert(pre.frames[waiter].stage is Link || queued(pre.frames[waiter].stage));
        }
    }
    if cursor != this {
        assert(!active(pre.frames[cursor as int].stage));
    }
    if pre.line.len() >= 2 {
        let ahead = pre.line[0];
        let behind = pre.line[1];
        assert(pre.line[0int + 1] == behind);
        assert(behind != ahead);
        let waiter = pre.line[1] as int;
        assert(pre.frames[waiter].stage is Link || queued(pre.frames[waiter].stage));
    }
}

/// Moving between the stages of a combiner, or between those of a
/// detonation, keeps the state well formed.
proof fn lemma_restaged(pre: QueueView, this: usize, stage: Stage)
    requires
        pre.wf(),
        this < pre.len(),
        active(pre.stage(this)),
        active(stage),
        combining(stage) ==> combining(pre.stage(this)),
        stage == Stage::Handoff || stage is Chase ==> pre.line.len() >= 2,
    ensures
        pre.with_stage(this, stage).wf(),
{
    let post = pre.with_stage(this, stage);
    lemma_front(pre, this);
    assert(post.line == pre.line);
    assert(post.nodes == pre.nodes);
    assert(post.frames[this as int].stage == stage);
    assert forall|i: int| 0 <= i < pre.frames.len() && i != this implies post.frames[i]
        == pre.frames[i] by {}
    assert(post.in_bounds());
    assert(post.line_wf());
    assert(post.links_wf()) by {
        assert forall|k: int| 0 <= k && k + 1 < post.line.len() implies {
            let ahead = (#[trigger] post.line[k]) as int;
            let behind = post.line[k + 1];
            if post.frames[behind as int].stage is Link {
                &&& post.frames[behind as int].stage == (Stage::Link { prev: ahead as usize })
                &&& post.nodes[ahead].next.is_none()
            } else {
                post.nodes[ahead].next == Some(behind)
            }
        } by {
            assert(pre.line[k + 1] != this);
        }
    }
    assert(post.waiters_wf()) by {
        assert forall|k: int| 1 <= k < post.line.len() implies {
            let waiter = (#[trigger] post.line[k]) as int;
            &&& post.frames[waiter].stage is Link || queued(post.frames[waiter].stage)
            &&& post.nodes[waiter].status == WAITING || post.nodes[waiter].status == SLEEPING
        } by {
            assert(pre.line[k] != this);
        }
    }
    assert(post.unclaimed() == pre.unclaimed());
    assert(post.front_wf()) by {
        assert forall|i: int|
            0 <= i < post.frames.len() && ((#[trigger] post.frames[i]).stage == Stage::Handoff
                || post.frames[i].stage is Chase) implies post.line.len() >= 2 by {
            if i != this {
                assert(active(pre.frames[i].stage));
            }
        }
    }
    assert(post.stages_wf());
    assert(post.lock_wf());
    assert(post.tickets_wf());
    assert(post.served_wf()) by {
        assert(combining(stage) ==> combining(pre.frames[this as int].stage));
    }
}

/// The steps of the combiner keep the state well formed.
proof fn lemma_step_combining(pre: QueueView, this: usize)
    requires
        pre.wf(),
        this < pre.len(),
        combining(pre.stage(this)),
    ensures
        pre.step(this).0.wf(),
{
    lemma_front(pre, this);
    let cursor = pre.cursor(this);
    match pre.stage(this) {
        Stage::Running => {
            match pre.node(cursor).next {
                Some(next) => {
                    lemma_passed_on(pre, this, DONE, true);
                },
                None => {
                    lemma_restaged(pre, this, Stage::Close);
                },
            }
        },
        Stage::Close => {
            if pre.tail == Some(cursor) {
                lemma_closed(pre, this, DONE, Stage::Done, UNLOCKED);
            } else {
                lemma_restaged(pre, this, Stage::Handoff);
            }
        },
        _ => {
            match pre.node(cursor).next {
                Some(next) => {
                    lemma_handed_off(pre, this);
                },
                None => {},
            }
        },
    }
}

/// The steps of a detonation keep the state well formed.
proof fn lemma_step_detonating(pre: QueueView, this: usize)
    requires
        pre.wf(),
        this < pre.len(),
        detonating(pre.stage(this)),
    ensures
        pre.step(this).0.wf(),
{
    lemma_front(pre, this);
    let cursor = pre.cursor(this);
    match pre.stage(this) {
        Stage::Walk { panicked } => {
            match pre.node(cursor).next {
                Some(next) => {
                    lemma_passed_on(pre, this, crate::node::POISONED, false);
                },
                None => {
                    lemma_restaged(pre, this, Stage::Seal { panicked });
                },
            }
        },
        Stage::Seal { panicked } => {
            if pre.tail == Some(cursor) {
                lemma_closed(
                    pre,
                    this,
                    crate::node::POISONED,
                    crate::protocol::walked_out(panicked),
                    pre.lock,
                );
            } else {
                lemma_restaged(pre, this, Stage::Chase { panicked });
            }
        },
        Stage::Chase { panicked } => {
            match pre.node(cursor).next {
                Some(next) => {
                    lemma_restaged(pre, this, Stage::Walk { panicked });
                },
                None => {},
            }
        },
        _ => {},
    }
}

/// The state after the handler of the front has moved on to the front's
/// successor, leaving `status` in the front; with `serve`, the successor's
/// thunk is handed out.
pub open spec fn passed_on(pre: QueueView, this: usize, status: u32, serve: bool) -> QueueView {
    let cursor = pre.cursor(this);
    let next = pre.node(cursor).next->0;
    let moved = pre.with_status(cursor, status).with_cursor(this, next).passed();
    if serve {
        moved.serving(next)
    } else {
        moved
    }
}

/// Moving on to the front's successor keeps the state well formed.
proof fn lemma_passed_on(pre: QueueView, this: usize, status: u32, serve: bool)
    requires
        pre.wf(),
        this < pre.len(),
        active(pre.stage(this)),
        pre.node(pre.cursor(this)).next.is_some(),
        status == DONE || status == crate::node::POISONED,
        serve ==> pre.stage(this) == Stage::Running,
        status == DONE ==> combining(pre.stage(this)),
        pre.stage(this) == Stage::Running || pre.stage(this) is Walk,
        pre.stage(this) == Stage::Running ==> serve,
    ensures
        passed_on(pre, this, status, serve).wf(),
{
    let post = passed_on(pre, this, status, serve);
    let cursor = pre.cursor(this);
    let next = pre.node(cursor).next->0;
    lemma_front(pre, this);
    lemma_passed_contains(pre.line);
    assert(post.line == pre.line.drop_first());
    assert forall|k: int| 0 <= k < post.line.len() implies post.line[k] == pre.line[k + 1] by {}
    assert forall|i: int| 0 <= i < pre.frames.len() implies (#[trigger] post.frames[i]).stage
        == pre.frames[i].stage && post.frames[i].ticket == pre.frames[i].ticket && (i != this
        ==> post.frames[i].cursor == pre.frames[i].cursor) by {}
    assert forall|i: int| 0 <= i < pre.nodes.len() implies (#[trigger] post.nodes[i]).next
        == pre.nodes[i].next && (i != cursor ==> post.nodes[i].status == pre.nodes[i].status) by {}
    assert(post.nodes[cursor as int].status == status);
    assert(post.frames[this as int].cursor == next);
    assert(post.in_bounds());
    assert(post.line_wf()) by {
        assert(post.line.last() == pre.line.last());
    }
    assert(post.links_wf()) by {
        assert forall|k: int| 0 <= k && k + 1 < post.line.len() implies {
            let ahead = (#[trigger] post.line[k]) as int;
            let behind = post.line[k + 1];
            if post.frames[behind as int].stage is Link {
                &&& post.frames[behind as int].stage == (Stage::Link { prev: ahead as usize })
                &&& post.nodes[ahead].next.is_none()
            } else {
                post.nodes[ahead].next == Some(behind)
            }
        } by {
            let ahead = pre.line[k + 1] as int;
            assert(post.line[k + 1] == pre.line[k + 1 + 1]);
        }
        assert(post.line.last() == pre.line.last());
    }
    assert(post.waiters_wf()) by {
        assert forall|k: int| 1 <= k < post.line.len() implies {
            let waiter = (#[trigger] post.line[k]) as int;
            &&& post.frames[waiter].stage is Link || queued(post.frames[waiter].stage)
            &&& post.nodes[waiter].status == WAITING || post.nodes[waiter].status == SLEEPING
        } by {
            let waiter = pre.line[k + 1] as int;
            assert(pre.line[k + 1] != pre.line[0]);
        }
    }
    assert(post.line[0] == next);
    assert(!post.unclaimed());
    assert(post.front_wf()) by {
        assert forall|i: int|
            0 <= i < post.frames.len() implies !((#[trigger] post.frames[i]).stage
            == Stage::Handoff || post.frames[i].stage is Chase) by {
            if i != this {
                assert(!active(pre.frames[i].stage));
            }
        }
    }
    assert(post.stages_wf()) by {
        assert forall|i: int| 0 <= i < post.frames.len() implies {
            let stage = (#[trigger] post.frames[i]).stage;
            let status = post.nodes[i].status;
            let inside = post.line.contains(i as usize);
            &&& stage == Stage::Fresh ==> !inside && status == WAITING
                && post.nodes[i].next.is_none()
            &&& stage is Link || stage == Stage::Acquire ==> inside && status == WAITING
            &&& stage is Spin ==> status != SLEEPING
            &&& queued(stage) && !inside ==> status == DONE || status == crate::node::POISONED
            &&& queued(stage) && inside ==> status == WAITING || status == SLEEPING || status
                == HEAD
            &&& !live(stage) ==> !inside
            &&& stage == Stage::Fresh || stage is Link || stage == Stage::Acquire || queued(stage)
                ==> post.frames[i].cursor == i
        } by {
            assert(pre.line.contains(i as usize) && i != cursor <==> post.line.contains(
                i as usize,
            ));
            if i == cursor {
                assert(pre.line.contains(cursor));
            }
        }
    }
    assert(post.lock_wf());
    assert(post.tickets_wf()) by {
        assert(post.base() == pre.base() + 1);
        assert forall|a: int| 0 <= a < pre.served.len() implies (#[trigger] pre.served[a])
            < post.base() by {}
        assert(pre.frames[next as int].ticket == pre.base() + 1) by {
            assert(pre.line[1] == next);
        }
    }
    assert(post.served_wf()) by {
        assert(post.base() == pre.base() + 1);
        assert(pre.frames[pre.line[1] as int].ticket == pre.base() + 1);
        assert(pre.frames[pre.line[0] as int].ticket == pre.base() + 0);
        lemma_served_more(pre.served, pre.ticket(next));
        if serve {
            assert(post.served == pre.served.push(pre.ticket(next)));
        } else {
            assert(post.served == pre.served);
        }
        assert forall|i: int|
            0 <= i < post.frames.len() && combining((#[trigger] post.frames[i]).stage) implies serve by {
            if i != this {
                assert(active(pre.frames[i].stage));
            }
        }
        assert forall|i: int|
            0 <= i < post.nodes.len() && (#[trigger] post.nodes[i]).status == DONE implies post.served.contains(
            post.frames[i].ticket,
        ) by {
            if i == cursor {
                assert(combining(pre.frames[this as int].stage));
                assert(pre.served.last() == pre.base());
                assert(pre.served[pre.served.len() - 1] == pre.frames[i].ticket);
                assert(pre.served.contains(pre.frames[i].ticket));
            } else {
                assert(pre.nodes[i].status == DONE);
            }
        }
    }
}


/// The state after the handler of the front has closed the queue behind
/// it, leaving `status` in the front, and has ended in `stage`.
pub open spec fn closed(pre: QueueView, this: usize, status: u32, stage: Stage, lock: u32) -> QueueView {
    let cursor = pre.cursor(this);
    QueueView { tail: None, lock, ..pre }.with_status(cursor, status).with_stage(this, stage).passed()
}

/// Closing the queue keeps the state well formed.
proof fn lemma_closed(pre: QueueView, this: usize, status: u32, stage: Stage, lock: u32)
    requires
        pre.wf(),
        this < pre.len(),
        active(pre.stage(this)),
        pre.tail == Some(pre.cursor(this)),
        status == DONE || status == crate::node::POISONED,
        !live(stage) && stage != Stage::Fresh,
        combining(pre.stage(this)) ==> lock == UNLOCKED,
        detonating(pre.stage(this)) ==> lock == pre.lock,
        status == DONE ==> combining(pre.stage(this)),
    ensures
        closed(pre, this, status, stage, lock).wf(),
{
    let post = closed(pre, this, status, stage, lock);
    let cursor = pre.cursor(this);
    lemma_front(pre, this);
    lemma_passed_contains(pre.line);
    assert(pre.line.len() == 1);
    assert(post.line =~= Seq::<usize>::empty());
    assert forall|i: int| 0 <= i < pre.frames.len() && i != this implies (
    #[trigger] post.frames[i]) == pre.frames[i] by {}
    assert(post.frames[this as int].stage == stage);
    assert(post.frames[this as int].cursor == cursor);
    assert forall|i: int| 0 <= i < pre.nodes.len() implies (#[trigger] post.nodes[i]).next
        == pre.nodes[i].next && (i != cursor ==> post.nodes[i].status == pre.nodes[i].status) by {}
    assert(post.nodes[cursor as int].status == status);
    assert forall|x: usize| pre.line.contains(x) implies x == cursor by {
        let k = choose|k: int| 0 <= k < pre.line.len() && pre.line[k] == x;
        assert(k == 0);
    }
    assert(post.in_bounds());
    assert(post.line_wf());
    assert(post.links_wf());
    assert(post.waiters_wf());
    assert(post.front_wf());
    assert(post.stages_wf()) by {
        assert forall|i: int| 0 <= i < post.frames.len() implies {
            let stage = (#[trigger] post.frames[i]).stage;
            let status = post.nodes[i].status;
            let inside = post.line.contains(i as usize);
            &&& stage == Stage::Fresh ==> !inside && status == WAITING
                && post.nodes[i].next.is_none()
            &&& stage is Link || stage == Stage::Acquire ==> inside && status == WAITING
            &&& stage is Spin ==> status != SLEEPING
            &&& queued(stage) && !inside ==> status == DONE || status == crate::node::POISONED
            &&& queued(stage) && inside ==> status == WAITING || status == SLEEPING || status
                == HEAD
            &&& !live(stage) ==> !inside
            &&& stage == Stage::Fresh || stage is Link || stage == Stage::Acquire || queued(stage)
                ==> post.frames[i].cursor == i
        } by {
            assert(!post.line.contains(i as usize));
            if i == cursor {
                assert(pre.line.contains(cursor));
            } else {
                assert(!pre.line.contains(i as usize));
            }
        }
    }
    assert(post.lock_wf());
    assert(post.tickets_wf()) by {
        assert(post.base() == pre.base() + 1);
    }
    assert(post.served_wf()) by {
        assert(pre.frames[pre.line[0] as int].ticket == pre.base() + 0);
        assert forall|i: int|
            0 <= i < post.frames.len() implies !combining((#[trigger] post.frames[i]).stage) by {
            if i != this {
                assert(!active(pre.frames[i].stage));
            }
        }
        assert forall|i: int|
            0 <= i < post.nodes.len() && (#[trigger] post.nodes[i]).status == DONE implies post.served.contains(
            post.frames[i].ticket,
        ) by {
            if i == cursor {
                assert(combining(pre.frames[this as int].stage));
                assert(pre.served[pre.served.len() - 1] == pre.frames[i].ticket);
                assert(pre.served.contains(pre.frames[i].ticket));
            } else {
                assert(pre.nodes[i].status == DONE);
            }
        }
    }
}


/// Handing the combiner's role to the front's successor keeps the state
/// well formed.
proof fn lemma_handed_off(pre: QueueView, this: usize)
    requires
        pre.wf(),
        this < pre.len(),
        pre.stage(this) == Stage::Handoff,
        pre.node(pre.cursor(this)).next.is_some(),
    ensures
        pre.step(this).0.wf(),
{
    let post = pre.step(this).0;
    let cursor = pre.cursor(this);
    let next = pre.node(cursor).next->0;
    lemma_front(pre, this);
    lemma_passed_contains(pre.line);
    assert(post.line == pre.line.drop_first());
    assert forall|k: int| 0 <= k < post.line.len() implies post.line[k] == pre.line[k + 1] by {}
    assert forall|i: int| 0 <= i < pre.frames.len() && i != this implies (
    #[trigger] post.frames[i]) == pre.frames[i] by {}
    assert(post.frames[this as int].stage == Stage::Done);
    assert forall|i: int| 0 <= i < pre.nodes.len() implies (#[trigger] post.nodes[i]).next
        == pre.nodes[i].next && (i != cursor && i != next ==> post.nodes[i].status
        == pre.nodes[i].status) by {}
    assert(post.nodes[cursor as int].status == DONE);
    assert(post.nodes[next as int].status == HEAD);
    assert(post.in_bounds());
    assert(post.line_wf()) by {
        assert(post.line.last() == pre.line.last());
    }
    assert(post.links_wf()) by {
        assert forall|k: int| 0 <= k && k + 1 < post.line.len() implies {
            let ahead = (#[trigger] post.line[k]) as int;
            let behind = post.line[k + 1];
            if post.frames[behind as int].stage is Link {
                &&& post.frames[behind as int].stage == (Stage::Link { prev: ahead as usize })
                &&& post.nodes[ahead].next.is_none()
            } else {
                post.nodes[ahead].next == Some(behind)
            }
        } by {
            assert(post.line[k + 1] == pre.line[k + 1 + 1]);
            assert(pre.line[k + 2] != this);
        }
        assert(post.line.last() == pre.line.last());
    }
    assert(post.waiters_wf()) by {
        assert forall|k: int| 1 <= k < post.line.len() implies {
            let waiter = (#[trigger] post.line[k]) as int;
            &&& post.frames[waiter].stage is Link || queued(post.frames[waiter].stage)
            &&& post.nodes[waiter].status == WAITING || post.nodes[waiter].status == SLEEPING
        } by {
            assert(pre.line[k + 1] != pre.line[0]);
            assert(pre.line[k + 1] != pre.line[1]);
            assert(pre.line[k + 1] != this);
        }
    }
    assert(post.line[0] == next);
    assert(post.front_wf());
    assert(post.stages_wf()) by {
        assert forall|i: int| 0 <= i < post.frames.len() implies {
            let stage = (#[trigger] post.frames[i]).stage;
            let status = post.nodes[i].status;
            let inside = post.line.contains(i as usize);
            &&& stage == Stage::Fresh ==> !inside && status == WAITING
                && post.nodes[i].next.is_none()
            &&& stage is Link || stage == Stage::Acquire ==> inside && status == WAITING
            &&& stage is Spin ==> status != SLEEPING
            &&& queued(stage) && !inside ==> status == DONE || status == crate::node::POISONED
            &&& queued(stage) && inside ==> status == WAITING || status == SLEEPING || status
                == HEAD
            &&& !live(stage) ==> !inside
            &&& stage == Stage::Fresh || stage is Link || stage == Stage::Acquire || queued(stage)
                ==> post.frames[i].cursor == i
        } by {
            assert(pre.line.contains(i as usize) && i != cursor <==> post.line.contains(
                i as usize,
            ));
            if i == cursor {
                assert(pre.line.contains(cursor));
            }
            if i == next {
                assert(post.line.contains(next));
            }
            if i == this && post.line.contains(this) {
                let k = choose|k: int| 0 <= k < post.line.len() && post.line[k] == this;
                assert(pre.line[k + 1] == this);
            }
        }
    }
    assert(post.lock_wf());
    assert(post.tickets_wf()) by {
        assert(post.base() == pre.base() + 1);
    }
}

/// A step keeps the state well formed.
pub proof fn lemma_step_wf(pre: QueueView, this: usize)
    requires
        pre.wf(),
        this < pre.len(),
    ensures
        pre.step(this).0.wf(),
        pre.step(this).0.len() == pre.len(),
{
    let stage = pre.stage(this);
    if stage == Stage::Fresh {
        lemma_step_fresh(pre, this);
    } else if stage is Link {
        lemma_step_link(pre, this);
    } else if queued(stage) {
        lemma_step_queued(pre, this);
    } else if stage == Stage::Acquire {
        lemma_step_acquire(pre, this);
    } else if combining(stage) {
        lemma_step_combining(pre, this);
    } else if detonating(stage) {
        lemma_step_detonating(pre, this);
    }
}

/// Mutual exclusion.  A thunk is run by the one participant that is the
/// combiner, under the locked lock word, and never while a caller holds the
/// lock from outside the queue.
pub proof fn lemma_one_at_a_time(state: QueueView, first: usize, second: usize)
    requires
        state.wf(),
        first < state.len(),
        second < state.len(),
        state.stage(first) == Stage::Running,
    ensures
        state.lock == LOCKED,
        !state.fast,
        state.stage(second) == Stage::Running ==> first == second,
{
    assert(combining(state.frames[first as int].stage));
    assert(active(state.frames[first as int].stage));
    if state.stage(second) == Stage::Running {
        assert(active(state.frames[second as int].stage));
    }
}

/// First come, first served.  The thunks are handed out by rising tickets,
/// that is, in the order in which their nodes were swapped into the tail.
pub proof fn lemma_served_in_order(state: QueueView, earlier: int, later: int)
    requires
        state.wf(),
        0 <= earlier < later < state.served.len(),
    ensures
        state.served[earlier] < state.served[later],
{
}

/// The thunk that a step hands out is that of the node at the front of the
/// line, which the caller stands at from then on as the combiner; the
/// node's ticket is entered as served.
pub proof fn lemma_run_is_front(pre: QueueView, this: usize, node: usize)
    requires
        pre.wf(),
        this < pre.len(),
        pre.step(this).1 == Poll::Run(node),
    ensures
        pre.step(this).0.line.len() > 0,
        pre.step(this).0.line[0] == node,
        pre.step(this).0.stage(this) == Stage::Running,
        pre.step(this).0.cursor(this) == node,
        pre.step(this).0.served == pre.served.push(pre.ticket(node)),
        pre.ticket(node) == pre.step(this).0.base(),
        pre.step(this).0.lock == LOCKED,
{
    let post = pre.step(this).0;
    lemma_step_wf(pre, this);
    assert(post.frames[this as int].stage == Stage::Running);
    assert(active(post.frames[this as int].stage));
    assert(combining(post.frames[this as int].stage));
    assert(post.line[0] == node);
    assert(post.frames[post.line[0] as int].ticket == post.base() + 0);
}

/// Poison is sticky.  While the lock word is poisoned, no step hands out a
/// thunk, no step takes the poison away, and an attachment ends well only
/// for a node whose thunk had been run before.
pub proof fn lemma_poison_stays(pre: QueueView, this: usize)
    requires
        pre.wf(),
        this < pre.len(),
        pre.lock == crate::rawlock::POISONED,
    ensures
        pre.step(this).0.lock == crate::rawlock::POISONED,
        pre.step(this).0.served == pre.served,
        !(pre.step(this).1 is Run),
        pre.step(this).1 == Poll::Ready(Ok(())) ==> pre.stage(this) == Stage::Done || pre.node(
            this,
        ).status == DONE,
{
    let stage = pre.frames[this as int].stage;
    if combining(stage) {
        assert(pre.lock == LOCKED);
    }
    if queued(stage) && pre.nodes[this as int].status == HEAD {
        if pre.line.contains(this) {
            let k = choose|k: int| 0 <= k < pre.line.len() && pre.line[k] == this;
            if k >= 1 {
                let waiter = pre.line[k] as int;
                assert(pre.nodes[waiter].status == WAITING || pre.nodes[waiter].status
                    == SLEEPING);
            }
            assert(pre.line[0] == this);
        }
    }
}

/// A node leaves the line with a final message.  The node that a step
/// passes is the front of the line; it is left as done by a combiner and as
/// poisoned by a detonation, so that its owner, parked or not, finds the
/// message and ends.
pub proof fn lemma_passed_with_message(pre: QueueView, this: usize)
    requires
        pre.wf(),
        this < pre.len(),
        pre.step(this).0.line.len() < pre.line.len(),
    ensures
        active(pre.stage(this)),
        pre.step(this).0.line == pre.line.drop_first(),
        pre.step(this).0.node(pre.line[0]).status == if combining(pre.stage(this)) {
            DONE
        } else {
            crate::node::POISONED
        },
{
    let stage = pre.frames[this as int].stage;
    if active(stage) {
        lemma_front(pre, this);
    }
}

/// No waiter is left behind by a detonation.  Where everybody in the line
/// has published itself, the participant that detonates needs no help: one
/// step for each node of the line and one more empty the line, leave every
/// node of it poisoned, and end the detonation.  The lock word is as the
/// bomb left it, and nodes outside the line are not touched.
pub proof fn lemma_walk_completes(pre: QueueView, this: usize, panicked: bool)
    requires
        pre.wf(),
        this < pre.len(),
        pre.stage(this) == (Stage::Walk { panicked }),
        pre.all_linked(),
    ensures
        ({
            let post = pre.alone(this, pre.line.len() + 1);
            &&& post.wf()
            &&& post.len() == pre.len()
            &&& post.line.len() == 0
            &&& post.tail.is_none()
            &&& post.lock == pre.lock
            &&& post.stage(this) == crate::protocol::walked_out(panicked)
            &&& forall|k: int|
                0 <= k < pre.line.len() ==> post.nodes[(#[trigger] pre.line[k]) as int].status
                    == crate::node::POISONED
            &&& forall|i: int|
                0 <= i < pre.len() && !pre.line.contains(i as usize) ==> (#[trigger] post.nodes[i])
                    == pre.nodes[i]
        }),
    decreases pre.line.len(),
{
    lemma_front(pre, this);
    let cursor = pre.cursor(this);
    let post = pre.alone(this, pre.line.len() + 1);
    assert(pre.line.contains(cursor));
    assert(active(pre.frames[this as int].stage));
    if pre.line.len() == 1 {
        let sealing = pre.step(this).0;
        lemma_step_wf(pre, this);
        assert(sealing == pre.with_stage(this, Stage::Seal { panicked }));
        assert(sealing.stage(this) == (Stage::Seal { panicked }));
        let sealed = sealing.step(this).0;
        lemma_step_wf(sealing, this);
        assert(pre.alone(this, 2) == sealing.alone(this, 1));
        assert(sealing.alone(this, 1) == sealed.alone(this, 0));
        assert(post == sealed);
        assert(sealed.line =~= Seq::<usize>::empty());
        assert forall|k: int| 0 <= k < pre.line.len() implies post.nodes[(
        #[trigger] pre.line[k]) as int].status == crate::node::POISONED by {
            assert(k == 0);
        }
    } else {
        let next = pre.node(cursor).next->0;
        assert(!(pre.frames[pre.line[1] as int].stage is Link));
        assert(pre.line[0int + 1] == pre.line[1]);
        assert(pre.node(cursor).next == Some(pre.line[1]));
        let moved = pre.step(this).0;
        lemma_step_wf(pre, this);
        lemma_passed_contains(pre.line);
        assert(moved == passed_on(pre, this, crate::node::POISONED, false));
        assert(moved.line == pre.line.drop_first());
        assert(moved.stage(this) == (Stage::Walk { panicked }));
        assert(moved.all_linked()) by {
            assert forall|k: int| 0 <= k < moved.line.len() implies !(moved.frames[(
            #[trigger] moved.line[k]) as int].stage is Link) by {
                assert(moved.line[k] == pre.line[k + 1]);
            }
        }
        lemma_walk_completes(moved, this, panicked);
        assert(pre.alone(this, pre.line.len() + 1) == moved.alone(this, moved.line.len() + 1));
        assert forall|k: int| 0 <= k < pre.line.len() implies post.nodes[(
        #[trigger] pre.line[k]) as int].status == crate::node::POISONED by {
            if k == 0 {
                assert(!moved.line.contains(cursor));
                assert(moved.nodes[cursor as int].status == crate::node::POISONED);
            } else {
                assert(moved.line[k - 1] == pre.line[k]);
            }
        }
        assert forall|i: int|
            0 <= i < pre.len() && !pre.line.contains(i as usize) implies (#[trigger] post.nodes[i])
            == pre.nodes[i] by {
            assert(!moved.line.contains(i as usize));
            assert(i != cursor);
        }
    }
}

/// The combiner serves the whole line.  Where everybody in the line has
/// published itself and each thunk returns, the combiner needs no help:
/// one step for each node of the line and one more hand out the thunks of
/// the line behind the front in their order, leave every node of the line
/// done, empty the line and release the lock.
pub proof fn lemma_combiner_completes(pre: QueueView, this: usize)
    requires
        pre.wf(),
        this < pre.len(),
        pre.stage(this) == Stage::Running,
        pre.all_linked(),
    ensures
        ({
            let post = pre.alone(this, pre.line.len() + 1);
            &&& post.wf()
            &&& post.len() == pre.len()
            &&& post.line.len() == 0
            &&& post.tail.is_none()
            &&& post.lock == UNLOCKED
            &&& post.stage(this) == Stage::Done
            &&& post.served == pre.served + Seq::new(
                (pre.line.len() - 1) as nat,
                |k: int| (pre.base() + 1 + k) as nat,
            )
            &&& forall|k: int|
                0 <= k < pre.line.len() ==> post.nodes[(#[trigger] pre.line[k]) as int].status
                    == DONE
            &&& forall|i: int|
                0 <= i < pre.len() && !pre.line.contains(i as usize) ==> (#[trigger] post.nodes[i])
                    == pre.nodes[i]
        }),
    decreases pre.line.len(),
{
    lemma_front(pre, this);
    let cursor = pre.cursor(this);
    let post = pre.alone(this, pre.line.len() + 1);
    let tickets = Seq::new((pre.line.len() - 1) as nat, |k: int| (pre.base() + 1 + k) as nat);
    assert(pre.line.contains(cursor));
    assert(active(pre.frames[this as int].stage));
    if pre.line.len() == 1 {
        let closing = pre.step(this).0;
        lemma_step_wf(pre, this);
        assert(closing == pre.with_stage(this, Stage::Close));
        assert(closing.stage(this) == Stage::Close);
        let closed = closing.step(this).0;
        lemma_step_wf(closing, this);
        assert(pre.alone(this, 2) == closing.alone(this, 1));
        assert(closing.alone(this, 1) == closed.alone(this, 0));
        assert(post == closed);
        assert(closed.line =~= Seq::<usize>::empty());
        assert(post.served =~= pre.served + tickets);
        assert forall|k: int| 0 <= k < pre.line.len() implies post.nodes[(
        #[trigger] pre.line[k]) as int].status == DONE by {
            assert(k == 0);
        }
    } else {
        let next = pre.node(cursor).next->0;
        assert(!(pre.frames[pre.line[1] as int].stage is Link));
        assert(pre.line[0int + 1] == pre.line[1]);
        assert(pre.node(cursor).next == Some(pre.line[1]));
        let moved = pre.step(this).0;
        lemma_step_wf(pre, this);
        lemma_passed_contains(pre.line);
        assert(moved == passed_on(pre, this, DONE, true));
        assert(moved.line == pre.line.drop_first());
        assert(moved.stage(this) == Stage::Running);
        assert(moved.base() == pre.base() + 1);
        assert(pre.frames[pre.line[1] as int].ticket == pre.base() + 1);
        assert(moved.served == pre.served.push((pre.base() + 1) as nat));
        assert(moved.all_linked()) by {
            assert forall|k: int| 0 <= k < moved.line.len() implies !(moved.frames[(
            #[trigger] moved.line[k]) as int].stage is Link) by {
                assert(moved.line[k] == pre.line[k + 1]);
            }
        }
        lemma_combiner_completes(moved, this);
        assert(pre.alone(this, pre.line.len() + 1) == moved.alone(this, moved.line.len() + 1));
        let rest = Seq::new((moved.line.len() - 1) as nat, |k: int| (moved.base() + 1 + k) as nat);
        assert(post.served =~= pre.served + tickets) by {
            assert(post.served == moved.served + rest);
            assert(tickets.len() == rest.len() + 1);
            assert forall|k: int| 0 <= k < post.served.len() implies post.served[k] == (pre.served
                + tickets)[k] by {
                if k < pre.served.len() {
                } else if k == pre.served.len() {
                    assert(tickets[0] == (pre.base() + 1) as nat);
                } else {
                    let at = k - pre.served.len();
                    assert(tickets[at] == (pre.base() + 1 + at) as nat);
                    assert(rest[at - 1] == (moved.base() + 1 + (at - 1)) as nat);
                }
            }
        }
        assert forall|k: int| 0 <= k < pre.line.len() implies post.nodes[(
        #[trigger] pre.line[k]) as int].status == DONE by {
            if k == 0 {
                assert(!moved.line.contains(cursor));
                assert(moved.nodes[cursor as int].status == DONE);
            } else {
                assert(moved.line[k - 1] == pre.line[k]);
            }
        }
        assert forall|i: int|
            0 <= i < pre.len() && !pre.line.contains(i as usize) implies (#[trigger] post.nodes[i])
            == pre.nodes[i] by {
            assert(!moved.line.contains(i as usize));
            assert(i != cursor);
        }
    }
}

/// Whatever order the participants step in, the state stays well formed.
pub proof fn lemma_played_wf(pre: QueueView, schedule: Seq<usize>)
    requires
        pre.wf(),
        pre.admits(schedule),
    ensures
        pre.played(schedule).wf(),
        pre.played(schedule).len() == pre.len(),
    decreases schedule.len(),
{
    if schedule.len() > 0 {
        let first = schedule.first();
        let rest = schedule.drop_first();
        lemma_step_wf(pre, first);
        assert forall|turn: int| 0 <= turn < rest.len() implies (#[trigger] rest[turn])
            < pre.len() by {
            assert(rest[turn] == schedule[turn + 1]);
        }
        lemma_played_wf(pre.step(first).0, rest);
    }
}

/// A node that has left the line is not touched again: no step changes its
/// status word or takes it back into the line.
pub proof fn lemma_left_alone(pre: QueueView, this: usize, node: usize)
    requires
        pre.wf(),
        this < pre.len(),
        node < pre.len(),
        !pre.line.contains(node),
        pre.stage(node) != Stage::Fresh,
    ensures
        !pre.step(this).0.line.contains(node),
        pre.step(this).0.stage(node) != Stage::Fresh,
        pre.step(this).0.node(node).status == pre.node(node).status,
{
    let post = pre.step(this).0;
    let stage = pre.frames[this as int].stage;
    assert(pre.frames[node as int].stage != Stage::Fresh);
    if stage == Stage::Fresh {
        lemma_joined_contains(pre.line, this);
        assert(this != node);
    } else if active(stage) {
        lemma_front(pre, this);
        lemma_passed_contains(pre.line);
        let cursor = pre.cursor(this);
        assert(pre.line.contains(cursor));
        assert(cursor != node);
        match pre.node(cursor).next {
            Some(next) => {
                assert(pre.line.contains(next));
                assert(next != node);
            },
            None => {},
        }
    } else if queued(stage) {
        lemma_waiter(pre, this);
    }
}

/// A node that has left the line is not touched again, whatever order the
/// participants step in.
pub proof fn lemma_left_alone_played(pre: QueueView, schedule: Seq<usize>, node: usize)
    requires
        pre.wf(),
        pre.admits(schedule),
        node < pre.len(),
        !pre.line.contains(node),
        pre.stage(node) != Stage::Fresh,
    ensures
        !pre.played(schedule).line.contains(node),
        pre.played(schedule).node(node).status == pre.node(node).status,
    decreases schedule.len(),
{
    if schedule.len() > 0 {
        let first = schedule.first();
        let rest = schedule.drop_first();
        lemma_step_wf(pre, first);
        lemma_left_alone(pre, first, node);
        assert forall|turn: int| 0 <= turn < rest.len() implies (#[trigger] rest[turn])
            < pre.len() by {
            assert(rest[turn] == schedule[turn + 1]);
        }
        lemma_left_alone_played(pre.step(first).0, rest, node);
    }
}

/// Poison stops the queue.  While no caller outside the queue takes the
/// poison away, the lock word stays poisoned and no thunk is handed out,
/// whatever order the participants step in.
pub proof fn lemma_poison_stays_played(pre: QueueView, schedule: Seq<usize>)
    requires
        pre.wf(),
        pre.admits(schedule),
        pre.lock == crate::rawlock::POISONED,
    ensures
        pre.played(schedule).lock == crate::rawlock::POISONED,
        pre.played(schedule).served == pre.served,
    decreases schedule.len(),
{
    if schedule.len() > 0 {
        let first = schedule.first();
        let rest = schedule.drop_first();
        lemma_step_wf(pre, first);
        lemma_poison_stays(pre, first);
        assert forall|turn: int| 0 <= turn < rest.len() implies (#[trigger] rest[turn])
            < pre.len() by {
            assert(rest[turn] == schedule[turn + 1]);
        }
        lemma_poison_stays_played(pre.step(first).0, rest);
    }
}

/// Under poison nobody leaves the line unpoisoned.  Whatever order the
/// participants step in, a node that is in the line while the lock word is
/// poisoned is either still in the line or has the message `POISONED` in
/// its status word; its thunk is not handed out.
pub proof fn lemma_poisoned_line(pre: QueueView, schedule: Seq<usize>, node: usize)
    requires
        pre.wf(),
        pre.admits(schedule),
        pre.lock == crate::rawlock::POISONED,
        pre.line.contains(node),
    ensures
        pre.played(schedule).line.contains(node) || pre.played(schedule).node(node).status
            == crate::node::POISONED,
        pre.played(schedule).served == pre.served,
    decreases schedule.len(),
{
    lemma_poison_stays_played(pre, schedule);
    if schedule.len() > 0 {
        let first = schedule.first();
        let rest = schedule.drop_first();
        let post = pre.step(first).0;
        lemma_step_wf(pre, first);
        lemma_poison_stays(pre, first);
        assert forall|turn: int| 0 <= turn < rest.len() implies (#[trigger] rest[turn])
            < pre.len() by {
            assert(rest[turn] == schedule[turn + 1]);
        }
        let at = choose|at: int| 0 <= at < pre.line.len() && pre.line[at] == node;
        assert(pre.line[at] < pre.len());
        if post.line.contains(node) {
            lemma_poisoned_line(post, rest, node);
        } else {
            lemma_line_moves(pre, first);
            assert(post.line.len() < pre.line.len());
            lemma_passed_with_message(pre, first);
            lemma_passed_contains(pre.line);
            assert(node == pre.line[0]);
            assert(!combining(pre.frames[first as int].stage));
            assert(post.frames[node as int].stage != Stage::Fresh) by {
                lemma_left_line(pre, first);
            }
            lemma_left_alone_played(post, rest, node);
        }
    }
}

/// How a step moves the line: a fresh participant joins it at the back, a
/// handler of the front may pass the front, and nothing else happens to
/// it.
proof fn lemma_line_moves(pre: QueueView, this: usize)
    requires
        pre.wf(),
        this < pre.len(),
    ensures
        ({
            let post = pre.step(this).0;
            ||| post.line == pre.line
            ||| pre.stage(this) == Stage::Fresh && post.line == pre.line.push(this)
            ||| active(pre.stage(this)) && pre.line.len() > 0 && post.line
                == pre.line.drop_first()
        }),
{
    let stage = pre.frames[this as int].stage;
    if active(stage) {
        lemma_front(pre, this);
    }
}

/// The owner of a node that a step passes has begun its attachment.
proof fn lemma_left_line(pre: QueueView, this: usize)
    requires
        pre.wf(),
        this < pre.len(),
        pre.line.len() > 0,
    ensures
        pre.step(this).0.stage(pre.line[0]) != Stage::Fresh,
{
    let stage = pre.frames[this as int].stage;
    let front = pre.line[0];
    assert(pre.line.contains(front));
    assert(pre.frames[front as int].stage != Stage::Fresh);
    if active(stage) {
        lemma_front(pre, this);
    }
}

/// Done means served.  A node has the message `DONE` only after its thunk
/// was handed out, so an attachment that ends well has had its thunk run.
pub proof fn lemma_done_was_served(state: QueueView, node: usize)
    requires
        state.wf(),
        node < state.len(),
        state.node(node).status == DONE,
    ensures
        state.served.contains(state.ticket(node)),
{
    assert(state.nodes[node as int].status == DONE);
}

/// Poisoned means not served, but for the thunk that panicked.  Of the
/// thunks that were handed out, only the last can be that of a node which a
/// detonation passes: every node behind it is poisoned without its thunk
/// having been handed out.
pub proof fn lemma_poisoned_unserved(pre: QueueView, this: usize, earlier: int)
    requires
        pre.wf(),
        this < pre.len(),
        detonating(pre.stage(this)),
        0 <= earlier < pre.served.len() - 1,
    ensures
        pre.line.len() > 0,
        pre.cursor(this) == pre.line[0],
        pre.served[earlier] != pre.ticket(pre.line[0]),
{
    lemma_front(pre, this);
    assert(pre.frames[pre.line[0] as int].ticket == pre.base() + 0);
    assert(pre.served[earlier] < pre.served[pre.served.len() - 1]);
}

/// The handler of the front gets on.  Each step of a combiner whose thunk
/// has returned, and each step of a detonation, lessens the work that is
/// left, with one exception: where the handler waits for a late successor,
/// its step changes nothing, and then that successor is in the line, about
/// to publish itself.
pub proof fn lemma_handler_gets_on(pre: QueueView, handler: usize)
    requires
        pre.wf(),
        handler < pre.len(),
        active(pre.stage(handler)),
    ensures
        ({
            let post = pre.step(handler).0;
            let cursor = pre.cursor(handler);
            ||| post.work(handler) < pre.work(handler)
            ||| {
                &&& pre.stage(handler) == Stage::Handoff || pre.stage(handler) is Chase
                &&& pre.node(cursor).next.is_none()
                &&& post == pre
                &&& pre.line.len() >= 2
                &&& pre.stage(pre.line[1]) == (Stage::Link { prev: cursor })
            }
        }),
{
    let post = pre.step(handler).0;
    let cursor = pre.cursor(handler);
    lemma_front(pre, handler);
    lemma_step_wf(pre, handler);
    assert(active(pre.frames[handler as int].stage));
    match pre.node(cursor).next {
        Some(next) => {},
        None => {
            if pre.stage(handler) == Stage::Handoff || pre.stage(handler) is Chase {
                assert(pre.line.len() >= 2);
                assert(pre.line[0int + 1] == pre.line[1]);
                assert(pre.frames[pre.line[1] as int].stage is Link);
            }
        },
    }
}

/// The late successor helps.  When the node behind the front publishes
/// itself, the work that is left for the handler of the front does not
/// grow, and it lessens where the handler was waiting for that.
pub proof fn lemma_link_helps(pre: QueueView, late: usize, handler: usize)
    requires
        pre.wf(),
        late < pre.len(),
        handler < pre.len(),
        active(pre.stage(handler)),
        pre.stage(late) == (Stage::Link { prev: pre.cursor(handler) }),
    ensures
        pre.step(late).0.work(handler) <= pre.work(handler),
        pre.stage(handler) != Stage::Close && !(pre.stage(handler) is Seal) ==> pre.step(
            late,
        ).0.work(handler) < pre.work(handler),
{
    let post = pre.step(late).0;
    lemma_front(pre, handler);
    assert(pre.frames[late as int].stage is Link);
    assert(late != handler);
    assert(pre.line.contains(late));
    let at = choose|at: int| 0 <= at < pre.line.len() && pre.line[at] == late;
    assert(at >= 1);
    assert(pre.line[at - 1] == pre.cursor(handler));
    assert(pre.nodes[pre.cursor(handler) as int].next.is_none());
    assert(post.frames[handler as int] == pre.frames[handler as int]);
    assert(post.nodes[pre.cursor(handler) as int].next == Some(late));
}

/// Nobody sets the handler back.  A step of another participant whose
/// attachment has begun leaves the handler of the front where it is and
/// does not add to the work that is left for it.
pub proof fn lemma_work_never_grows(pre: QueueView, other: usize, handler: usize)
    requires
        pre.wf(),
        other < pre.len(),
        handler < pre.len(),
        other != handler,
        active(pre.stage(handler)),
        pre.stage(other) != Stage::Fresh,
    ensures
        pre.step(other).0.stage(handler) == pre.stage(handler),
        pre.step(other).0.cursor(handler) == pre.cursor(handler),
        pre.step(other).0.line == pre.line,
        pre.step(other).0.work(handler) <= pre.work(handler),
{
    let post = pre.step(other).0;
    let stage = pre.frames[other as int].stage;
    let cursor = pre.cursor(handler);
    lemma_front(pre, handler);
    assert(active(pre.frames[handler as int].stage));
    assert(!active(stage));
    assert(post.frames[handler as int] == pre.frames[handler as int]);
    if stage == Stage::Acquire {
        assert(pre.line.contains(other));
        let at = choose|at: int| 0 <= at < pre.line.len() && pre.line[at] == other;
        if at >= 1 {
            let waiter = pre.line[at] as int;
            assert(pre.frames[waiter].stage is Link || queued(pre.frames[waiter].stage));
        }
        assert(pre.unclaimed());
    } else if stage is Link {
        let prev = stage->prev;
        if prev == cursor {
            lemma_link_helps(pre, other, handler);
        } else {
            assert(post.nodes[cursor as int].next == pre.nodes[cursor as int].next);
        }
    } else if queued(stage) {
        lemma_waiter(pre, other);
        assert(post.nodes[cursor as int].next == pre.nodes[cursor as int].next);
    }
}

/// Who arrives goes to the back.  A fresh participant joins the line
/// behind everybody who is in it and leaves the handler of the front where
/// it is: the work that is left for the handler grows by the one node, and
/// nobody's way to the front gets longer.
pub proof fn lemma_arrival_goes_behind(pre: QueueView, fresh: usize, handler: usize)
    requires
        pre.wf(),
        fresh < pre.len(),
        handler < pre.len(),
        active(pre.stage(handler)),
        pre.stage(fresh) == Stage::Fresh,
    ensures
        pre.step(fresh).0.line == pre.line.push(fresh),
        pre.step(fresh).0.stage(handler) == pre.stage(handler),
        pre.step(fresh).0.cursor(handler) == pre.cursor(handler),
        pre.step(fresh).0.work(handler) == pre.work(handler) + 7,
{
    let post = pre.step(fresh).0;
    assert(active(pre.frames[handler as int].stage));
    assert(fresh != handler);
    assert(post.frames[handler as int] == pre.frames[handler as int]);
    assert(post.nodes == pre.nodes);
}

} // verus!
