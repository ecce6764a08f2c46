//! The state pool: blocks of mapped pages carved into opaque states, a free
//! list of the states that nobody holds, and the lock that guards growth.

use crate::config::Config;
use crate::error::Error;
use crate::freelist::new_list;
use crate::freelist::pop;
use crate::freelist::push;
use crate::freelist::queued;
use crate::lock::Lock;
use core::ops::ControlFlow;
use crossbeam_queue::SegQueue;
use vstd::arithmetic::div_mod::lemma_fundamental_div_mod;
use vstd::arithmetic::div_mod::lemma_fundamental_div_mod_converse;
use vstd::prelude::*;

verus! {

/// The address of a state, or of a block of states.
#[derive(Debug, Clone, Copy, PartialEq, Eq, Structural)]
pub struct Ptr(pub usize);

/// The address of state `index` in the block at `base`: states fill a page
/// from its start and never straddle two pages.
pub open spec fn slot(config: Config, base: usize, index: int) -> int {
    base + (index / config.states_per_page as int) * config.page_size + (index
        % config.states_per_page as int) * config.state_size()
}

/// The addresses of all states in the block at `base`, in the order in which
/// a new block's states enter the free list.
pub open spec fn block_slots(config: Config, base: usize) -> Seq<usize> {
    Seq::new(config.block_states() as nat, |index: int| slot(config, base, index) as usize)
}

/// Whether `address` is the address of a state in one of `blocks`.
pub open spec fn is_slot(config: Config, blocks: Seq<usize>, address: usize) -> bool {
    exists|block: int, index: int|
        0 <= block < blocks.len() && 0 <= index < config.block_states() && address == #[trigger] slot(
            config,
            blocks[block],
            index,
        )
}

/// Whether the blocks at `first` and at `second` share no byte.
pub open spec fn apart(config: Config, first: usize, second: usize) -> bool {
    first + config.block_bytes() <= second || second + config.block_bytes() <= first
}

/// Whether a block at `base` lies in the address space and apart from all
/// of `blocks`: what holds of the address of a new mapping.
pub open spec fn fresh(config: Config, blocks: Seq<usize>, base: usize) -> bool {
    &&& base > 0
    &&& base + config.block_bytes() <= usize::MAX
    &&& forall|block: int| 0 <= block < blocks.len() ==> apart(config, #[trigger] blocks[block], base)
}

/// A state lies inside its block.
pub proof fn lemma_slot_in_block(config: Config, base: usize, index: int)
    requires
        config.wf(),
        0 <= index < config.block_states(),
    ensures
        base <= slot(config, base, index),
        slot(config, base, index) + config.state_size() <= base + config.block_bytes(),
{
    let per_page = config.states_per_page as int;
    let page = index / per_page;
    let place = index % per_page;
    assert(per_page > 0) by (nonlinear_arith)
        requires
            0 <= index < config.pages_per_block * per_page,
    ;
    lemma_fundamental_div_mod(index, per_page);
    lemma_fundamental_div_mod(config.page_size as int, config.state_size());
    assert(0 <= page < config.pages_per_block) by (nonlinear_arith)
        requires
            index == per_page * page + place,
            0 <= place < per_page,
            0 <= index < config.pages_per_block * per_page,
    ;
    assert(per_page * config.state_size() <= config.page_size) by (nonlinear_arith)
        requires
            config.page_size == config.state_size() * per_page + (config.page_size as int)
                % config.state_size(),
            (config.page_size as int) % config.state_size() >= 0,
    ;
    assert(place * config.state_size() + config.state_size() <= config.page_size)
        by (nonlinear_arith)
        requires
            0 <= place < per_page,
            per_page * config.state_size() <= config.page_size,
            config.state_size() > 0,
    ;
    assert(page * config.page_size + config.page_size <= config.page_size
        * config.pages_per_block) by (nonlinear_arith)
        requires
            0 <= page < config.pages_per_block,
            config.page_size > 0,
    ;
    assert(page * config.page_size >= 0 && place * config.state_size() >= 0) by (nonlinear_arith)
        requires
            page >= 0,
            place >= 0,
            config.page_size > 0,
            config.state_size() > 0,
    ;
}

/// Later states of a block lie at higher addresses.
pub proof fn lemma_slot_increases(config: Config, base: usize, lower: int, upper: int)
    requires
        config.wf(),
        0 <= lower < upper < config.block_states(),
    ensures
        slot(config, base, lower) < slot(config, base, upper),
{
    let per_page = config.states_per_page as int;
    assert(per_page > 0) by (nonlinear_arith)
        requires
            0 <= upper < config.pages_per_block * per_page,
    ;
    lemma_fundamental_div_mod(lower, per_page);
    lemma_fundamental_div_mod(upper, per_page);
    lemma_fundamental_div_mod(config.page_size as int, config.state_size());
    let low_page = lower / per_page;
    let low_place = lower % per_page;
    let up_page = upper / per_page;
    let up_place = upper % per_page;
    assert(low_page <= up_page) by (nonlinear_arith)
        requires
            lower == per_page * low_page + low_place,
            upper == per_page * up_page + up_place,
            0 <= low_place < per_page,
            0 <= up_place < per_page,
            lower < upper,
    ;
    if low_page == up_page {
        assert(low_place * config.state_size() < up_place * config.state_size())
            by (nonlinear_arith)
            requires
                low_place < up_place,
                config.state_size() > 0,
        ;
    } else {
        assert(low_place * config.state_size() < config.page_size) by (nonlinear_arith)
            requires
                0 <= low_place < per_page,
                config.page_size == config.state_size() * per_page + (config.page_size as int)
                    % config.state_size(),
                (config.page_size as int) % config.state_size() >= 0,
                config.state_size() > 0,
        ;
        assert(low_page * config.page_size + config.page_size <= up_page * config.page_size)
            by (nonlinear_arith)
            requires
                low_page < up_page,
                config.page_size > 0,
        ;
        assert(up_place * config.state_size() >= 0) by (nonlinear_arith)
            requires
                up_place >= 0,
                config.state_size() > 0,
        ;
    }
}

/// A state lies in one block and is one state of it: two blocks that are
/// apart share no state, and two states of a block have different
/// addresses.
pub proof fn lemma_one_place(
    config: Config,
    blocks: Seq<usize>,
    block: int,
    index: int,
    other_block: int,
    other_index: int,
)
    requires
        config.wf(),
        blocks_apart(config, blocks),
        0 <= block < blocks.len(),
        0 <= other_block < blocks.len(),
        0 <= index < config.block_states(),
        0 <= other_index < config.block_states(),
        slot(config, blocks[block], index) == slot(config, blocks[other_block], other_index),
    ensures
        block == other_block,
        index == other_index,
{
    lemma_slot_in_block(config, blocks[block], index);
    lemma_slot_in_block(config, blocks[other_block], other_index);
    if block < other_block {
        assert(apart(config, blocks[block], blocks[other_block]));
    } else if other_block < block {
        assert(apart(config, blocks[other_block], blocks[block]));
    } else if index < other_index {
        lemma_slot_increases(config, blocks[block], index, other_index);
    } else if other_index < index {
        lemma_slot_increases(config, blocks[block], other_index, index);
    }
}

/// What `get` found.
#[derive(Debug, Clone, Copy, PartialEq, Eq, Structural)]
pub enum Rental {
    /// A state, rented to the caller until it is recycled.
    Rented(Ptr),
    /// The free list is empty.  The caller maps a block, hands it to
    /// `grow`, and asks again.
    Exhausted,
}

/// What is left of a pool that was closed.
pub struct Closed {
    /// The blocks that the pool had mapped; they are to be unmapped.
    pub blocks: Vec<usize>,
    /// The size of each block, in bytes.
    pub block_bytes: usize,
    /// The number of states that were found on the free list.
    pub drained: usize,
}

/// A growable pool of opaque states.
pub struct Pool {
    config: Config,
    mmaps: Lock<Vec<usize>>,
    freelist: SegQueue<usize>,
    capacity: usize,
    rented: Ghost<Set<usize>>,
}

/// Whether the blocks lie in the address space and apart from each other.
pub open spec fn blocks_apart(config: Config, blocks: Seq<usize>) -> bool {
    &&& forall|block: int|
        0 <= block < blocks.len() ==> (#[trigger] blocks[block]) > 0 && blocks[block]
            + config.block_bytes() <= usize::MAX
    &&& forall|first: int, second: int|
        0 <= first < second < blocks.len() ==> apart(
            config,
            #[trigger] blocks[first],
            #[trigger] blocks[second],
        )
}

/// Whether `free` and `rented` between them hold every state of `blocks`
/// once: each address is a state of a block, none occurs twice, and their
/// number is that of all states.
pub open spec fn accounted(
    config: Config,
    blocks: Seq<usize>,
    free: Seq<usize>,
    rented: Set<usize>,
) -> bool {
    &&& free.no_duplicates()
    &&& rented.finite()
    &&& forall|place: int| 0 <= place < free.len() ==> is_slot(config, blocks, #[trigger] free[place])
    &&& forall|place: int| 0 <= place < free.len() ==> !rented.contains(#[trigger] free[place])
    &&& forall|address: usize| #[trigger] rented.contains(address) ==> is_slot(config, blocks, address)
    &&& free.len() + rented.len() == config.block_states() * blocks.len()
}

impl Pool {
    /// The layout of the pool.
    pub closed spec fn layout(&self) -> Config {
        self.config
    }

    /// The blocks that have been mapped, oldest first.
    pub closed spec fn blocks(&self) -> Seq<usize> {
        self.mmaps@@
    }

    /// The states on the free list, the one that is rented next first.
    pub closed spec fn free(&self) -> Seq<usize> {
        queued(self.freelist)
    }

    /// The states that are rented out.
    pub closed spec fn rented(&self) -> Set<usize> {
        self.rented@
    }

    /// Whether the lock around the blocks is poisoned.
    pub closed spec fn is_poisoned(&self) -> bool {
        self.mmaps.is_poisoned()
    }

    /// The number of states that the pool has carved out of its blocks.
    pub open spec fn capacity(&self) -> int {
        self.layout().block_states() * self.blocks().len()
    }

    /// The pool's books are in order.
    pub closed spec fn wf(&self) -> bool {
        &&& self.config.wf()
        &&& self.mmaps.wf()
        &&& self.capacity == self.capacity()
        &&& blocks_apart(self.config, self.blocks())
        &&& accounted(self.config, self.blocks(), self.free(), self.rented())
    }

    /// Every state is on the free list or rented out, and on one of them
    /// once; so no state is rented out twice, and the states that are out
    /// at a time are never more than the pool has carved out.
    pub proof fn lemma_books(&self)
        requires
            self.wf(),
        ensures
            self.layout().wf(),
            blocks_apart(self.layout(), self.blocks()),
            accounted(self.layout(), self.blocks(), self.free(), self.rented()),
            self.rented().len() <= self.capacity(),
            self.capacity() <= usize::MAX,
    {
    }

    /// A pool without blocks.  `found` is what the search for the kernel's
    /// function gave: the layout made from it, or nothing where the
    /// platform does not offer the function.
    pub fn new(found: Option<Config>) -> (pool: Result<Self, Error>)
        requires
            match found {
                Some(config) => config.wf(),
                None => true,
            },
        ensures
            found.is_none() ==> pool == Err::<Self, Error>(Error::NotSupported),
            match (found, pool) {
                (Some(config), Ok(pool)) => {
                    &&& pool.wf()
                    &&& pool.layout() == config
                    &&& pool.blocks() == Seq::<usize>::empty()
                    &&& pool.free() == Seq::<usize>::empty()
                    &&& pool.rented() == Set::<usize>::empty()
                    &&& !pool.is_poisoned()
                },
                (Some(_), Err(_)) => false,
                (None, _) => true,
            },
    {
        let config = match found {
            Some(config) => config,
            None => {
                return Err(Error::NotSupported);
            },
        };
        let pool = Pool {
            config,
            mmaps: Lock::new(Vec::new()),
            freelist: new_list(),
            capacity: 0,
            rented: Ghost(Set::empty()),
        };
        proof {
            assert(pool.blocks() =~= Seq::<usize>::empty());
            assert(config.block_states() * 0 == 0) by (nonlinear_arith);
        }
        Ok(pool)
    }

    /// The layout of the pool.
    pub fn config(&self) -> (config: Config)
        ensures
            config == self.layout(),
    {
        self.config
    }

    /// Rents a state: the one at the head of the free list.  With an empty
    /// free list nothing is rented; the caller is told to grow the pool, or
    /// that the pool is poisoned and cannot grow.
    pub fn get(&mut self) -> (rental: Result<Rental, Error>)
        requires
            old(self).wf(),
        ensures
            final(self).wf(),
            final(self).layout() == old(self).layout(),
            final(self).blocks() == old(self).blocks(),
            final(self).is_poisoned() == old(self).is_poisoned(),
            old(self).free().len() > 0 ==> {
                &&& rental == Ok::<Rental, Error>(Rental::Rented(Ptr(old(self).free().first())))
                &&& final(self).free() == old(self).free().drop_first()
                &&& final(self).rented() == old(self).rented().insert(old(self).free().first())
                &&& !old(self).rented().contains(old(self).free().first())
            },
            old(self).free().len() == 0 ==> {
                &&& final(self).free() == old(self).free()
                &&& final(self).rented() == old(self).rented()
                &&& rental == if old(self).is_poisoned() {
                    Err::<Rental, Error>(Error::PoolPoisoned)
                } else {
                    Ok::<Rental, Error>(Rental::Exhausted)
                }
            },
    {
        match pop(&mut self.freelist) {
            Some(address) => {
                self.rented = Ghost(self.rented@.insert(address));
                proof {
                    let free = old(self).free();
                    assert(free[0] == address);
                    assert forall|place: int| 0 <= place < free.drop_first().len() implies {
                        &&& is_slot(self.config, self.blocks(), #[trigger] free.drop_first()[place])
                        &&& !self.rented@.contains(free.drop_first()[place])
                    } by {
                        assert(free.drop_first()[place] == free[place + 1]);
                    }
                }
                Ok(Rental::Rented(Ptr(address)))
            },
            None => {
                let poisoned = self.mmaps.run(|blocks: &mut Vec<usize>| -> (out: ())
                    ensures
                        *final(blocks) == *old(blocks),
                    {
                    });
                match poisoned {
                    Ok(()) => Ok(Rental::Exhausted),
                    Err(_) => Err(Error::PoolPoisoned),
                }
            },
        }
    }

    /// Takes a state back: it goes to the tail of the free list.  The
    /// address is not examined: it has to be one that this pool rented out
    /// and that has not been recycled since.
    pub fn recycle(&mut self, ptr: Ptr)
        requires
            old(self).wf(),
            old(self).rented().contains(ptr.0),
        ensures
            final(self).wf(),
            final(self).layout() == old(self).layout(),
            final(self).blocks() == old(self).blocks(),
            final(self).is_poisoned() == old(self).is_poisoned(),
            final(self).free() == old(self).free().push(ptr.0),
            final(self).rented() == old(self).rented().remove(ptr.0),
    {
        push(&mut self.freelist, ptr.0);
        self.rented = Ghost(self.rented@.remove(ptr.0));
    }
}

/// What `grow` answers: poison of the lock comes first, then a mapping
/// that failed or that cannot be taken in.
pub open spec fn grow_outcome(poisoned: bool, admitted: bool) -> Result<(), Error> {
    if poisoned {
        Err(Error::PoolPoisoned)
    } else if !admitted {
        Err(Error::AllocationFailure)
    } else {
        Ok(())
    }
}

/// Whether `grow` takes `mapped` in: it is a block, lies in the address
/// space and apart from all blocks, and its states can still be counted.
pub open spec fn admitted(
    config: Config,
    blocks: Seq<usize>,
    mapped: Option<usize>,
    room: bool,
) -> bool {
    match mapped {
        Some(base) => room && fresh(config, blocks, base),
        None => false,
    }
}

/// Whether a block at `base` lies in the address space and apart from all
/// of `blocks`.
fn is_fresh(config: Config, blocks: &Vec<usize>, base: usize) -> (found: bool)
    requires
        config.wf(),
    ensures
        found == fresh(config, blocks@, base),
{
    let block_bytes = config.page_size * config.pages_per_block;
    if base == 0 || block_bytes > usize::MAX - base {
        return false;
    }
    let mut index: usize = 0;
    while index < blocks.len()
        invariant
            config.wf(),
            block_bytes == config.block_bytes(),
            index <= blocks.len(),
            forall|block: int| 0 <= block < index ==> apart(config, #[trigger] blocks@[block], base),
        decreases blocks.len() - index,
    {
        let other = blocks[index];
        let clear = if other <= base {
            base - other >= block_bytes
        } else {
            other - base >= block_bytes
        };
        if !clear {
            assert(!apart(config, blocks@[index as int], base));
            return false;
        }
        index = index + 1;
    }
    true
}

/// What entering a block in the list of blocks gives: the address of the
/// block, unless it is not taken in.
pub open spec fn entering(mapped: Option<usize>, admitted: bool) -> Result<usize, Error> {
    match mapped {
        Some(base) if admitted => Ok(base),
        _ => Err(Error::AllocationFailure),
    }
}

/// The list of blocks after `mapped` was to be entered into `blocks`.
pub open spec fn entered_in(blocks: Seq<usize>, mapped: Option<usize>, admitted: bool) -> Seq<
    usize,
> {
    match mapped {
        Some(base) if admitted => blocks.push(base),
        _ => blocks,
    }
}

/// The books stay in order when the states of a fresh block are put on the
/// free list.
pub proof fn lemma_grown(
    config: Config,
    blocks: Seq<usize>,
    free: Seq<usize>,
    rented: Set<usize>,
    base: usize,
)
    requires
        config.wf(),
        blocks_apart(config, blocks),
        accounted(config, blocks, free, rented),
        fresh(config, blocks, base),
    ensures
        blocks_apart(config, blocks.push(base)),
        accounted(config, blocks.push(base), free + block_slots(config, base), rented),
{
    let grown = blocks.push(base);
    let slots = block_slots(config, base);
    let all = free + slots;
    assert forall|address: usize| is_slot(config, blocks, address) implies is_slot(
        config,
        grown,
        address,
    ) && (forall|index: int| 0 <= index < slots.len() ==> slots[index] != address) by {
        let (block, index) = choose|block: int, index: int|
            0 <= block < blocks.len() && 0 <= index < config.block_states() && address
                == #[trigger] slot(config, blocks[block], index);
        assert(grown[block] == blocks[block]);
        lemma_slot_in_block(config, blocks[block], index);
        assert(apart(config, blocks[block], base));
        assert forall|other: int| 0 <= other < slots.len() implies slots[other] != address by {
            lemma_slot_in_block(config, base, other);
        }
    }
    assert forall|index: int| 0 <= index < slots.len() implies is_slot(
        config,
        grown,
        #[trigger] slots[index],
    ) by {
        lemma_slot_in_block(config, base, index);
        assert(grown[blocks.len() as int] == base);
        assert(slots[index] == slot(config, grown[blocks.len() as int], index));
    }
    assert forall|lower: int, upper: int| 0 <= lower < upper < slots.len() implies slots[lower]
        != slots[upper] by {
        lemma_slot_increases(config, base, lower, upper);
        lemma_slot_in_block(config, base, lower);
        lemma_slot_in_block(config, base, upper);
    }
    assert forall|first: int, second: int| 0 <= first < second < all.len() implies all[first]
        != all[second] by {
        if second < free.len() {
        } else if first < free.len() {
            assert(is_slot(config, blocks, free[first]));
            assert(all[second] == slots[second - free.len()]);
        } else {
            assert(all[first] == slots[first - free.len()]);
            assert(all[second] == slots[second - free.len()]);
        }
    }
    assert forall|place: int| 0 <= place < all.len() implies is_slot(
        config,
        grown,
        #[trigger] all[place],
    ) && !rented.contains(all[place]) by {
        if place < free.len() {
            assert(all[place] == free[place]);
            assert(is_slot(config, blocks, free[place]));
        } else {
            assert(all[place] == slots[place - free.len()]);
            if rented.contains(all[place]) {
                assert(is_slot(config, blocks, all[place]));
            }
        }
    }
    assert(config.block_states() * grown.len() == config.block_states() * blocks.len()
        + config.block_states()) by (nonlinear_arith)
        requires
            grown.len() == blocks.len() + 1,
    ;
    assert forall|first: int, second: int| 0 <= first < second < grown.len() implies apart(
        config,
        #[trigger] grown[first],
        #[trigger] grown[second],
    ) by {
        if second < blocks.len() {
            assert(grown[first] == blocks[first] && grown[second] == blocks[second]);
        } else {
            assert(grown[first] == blocks[first]);
        }
    }
}

impl Pool {
    /// The number of bytes in a block: the size of the mapping that `grow`
    /// is given.
    pub fn block_bytes(&self) -> (bytes: usize)
        requires
            self.wf(),
        ensures
            bytes == self.layout().block_bytes(),
    {
        self.config.page_size * self.config.pages_per_block
    }

    /// The number of states in a block.
    pub fn block_states(&self) -> (states: usize)
        requires
            self.wf(),
        ensures
            states == self.layout().block_states(),
    {
        proof {
            let config = self.config;
            lemma_fundamental_div_mod(config.page_size as int, config.state_size());
            assert(config.states_per_page <= config.page_size) by (nonlinear_arith)
                requires
                    config.page_size == config.state_size() * config.states_per_page + (
                    config.page_size as int) % config.state_size(),
                    (config.page_size as int) % config.state_size() >= 0,
                    config.state_size() > 0,
                    config.states_per_page >= 0,
            ;
            assert(config.pages_per_block * config.states_per_page <= config.page_size
                * config.pages_per_block) by (nonlinear_arith)
                requires
                    config.states_per_page <= config.page_size,
                    config.pages_per_block > 0,
            ;
            assert(config.pages_per_block * config.states_per_page >= 0) by (nonlinear_arith)
                requires
                    config.states_per_page >= 0,
                    config.pages_per_block > 0,
            ;
        }
        self.config.pages_per_block * self.config.states_per_page
    }

    /// Puts the states of the block at `base` on the free list, page by
    /// page and, in a page, from its start.
    fn carve(&mut self, base: usize)
        requires
            old(self).config.wf(),
            base + old(self).config.block_bytes() <= usize::MAX,
        ensures
            final(self).config == old(self).config,
            final(self).mmaps == old(self).mmaps,
            final(self).capacity == old(self).capacity,
            final(self).rented == old(self).rented,
            final(self).free() == old(self).free() + block_slots(old(self).config, base),
    {
        let config = self.config;
        let state_size = config.params.size_of_opaque_states as usize;
        let ghost before = self.free();
        let ghost slots = block_slots(config, base);
        let mut page: usize = 0;
        while page < config.pages_per_block
            invariant
                config.wf(),
                config == self.config,
                state_size == config.state_size(),
                base + config.block_bytes() <= usize::MAX,
                slots == block_slots(config, base),
                page <= config.pages_per_block,
                self.mmaps == old(self).mmaps,
                self.capacity == old(self).capacity,
                self.rented == old(self).rented,
                0 <= page * config.states_per_page <= slots.len(),
                self.free() == before + slots.take(page * config.states_per_page),
            decreases config.pages_per_block - page,
        {
            assert(page * config.page_size + config.page_size <= config.page_size
                * config.pages_per_block) by (nonlinear_arith)
                requires
                    0 <= page < config.pages_per_block,
                    config.page_size > 0,
            ;
            assert(page * config.page_size >= 0) by (nonlinear_arith)
                requires
                    page >= 0,
                    config.page_size > 0,
            ;
            let page_address = base + page * config.page_size;
            let mut place: usize = 0;
            while place < config.states_per_page
                invariant
                    config.wf(),
                    config == self.config,
                    state_size == config.state_size(),
                    slots == block_slots(config, base),
                    page < config.pages_per_block,
                    place <= config.states_per_page,
                    page_address == base + page * config.page_size,
                    base + config.block_bytes() <= usize::MAX,
                    self.mmaps == old(self).mmaps,
                    self.capacity == old(self).capacity,
                    self.rented == old(self).rented,
                    0 <= page * config.states_per_page + place <= slots.len(),
                    self.free() == before + slots.take(page * config.states_per_page + place),
                decreases config.states_per_page - place,
            {
                let ghost index = page * config.states_per_page + place;
                proof {
                    assert(index < config.pages_per_block * config.states_per_page)
                        by (nonlinear_arith)
                        requires
                            index == page * config.states_per_page + place,
                            0 <= place < config.states_per_page,
                            0 <= page < config.pages_per_block,
                    ;
                    assert(index == config.states_per_page * page + place) by (nonlinear_arith)
                        requires
                            index == page * config.states_per_page + place,
                    ;
                    lemma_fundamental_div_mod_converse(
                        index,
                        config.states_per_page as int,
                        page as int,
                        place as int,
                    );
                    lemma_slot_in_block(config, base, index);
                    assert(index / (config.states_per_page as int) == page);
                    assert(index % (config.states_per_page as int) == place);
                    assert(slot(config, base, index) == page_address + place * state_size);
                    assert(place * state_size >= 0) by (nonlinear_arith)
                        requires
                            place >= 0,
                            state_size >= 0,
                    ;
                    assert(slots[index] == slot(config, base, index) as usize);
                    assert(slots.take(index + 1) =~= slots.take(index).push(slots[index]));
                    let taken = slots.take(index);
                    assert(before + taken.push(slots[index]) =~= (before + taken).push(
                        slots[index],
                    ));
                }
                let address = page_address + place * state_size;
                push(&mut self.freelist, address);
                place = place + 1;
            }
            proof {
                assert((page + 1) * config.states_per_page == page * config.states_per_page
                    + config.states_per_page) by (nonlinear_arith);
            }
            page = page + 1;
        }
        proof {
            assert(page * config.states_per_page == slots.len()) by (nonlinear_arith)
                requires
                    page == config.pages_per_block,
                    slots.len() == config.pages_per_block * config.states_per_page,
            ;
            assert(slots.take(slots.len() as int) =~= slots);
        }
    }

    /// Takes in a new block.  `mapped` is what mapping `block_bytes` bytes
    /// gave: the address of the block, or nothing where the mapping failed.
    /// The block is entered in the list of blocks, under the lock, and its
    /// states are put on the free list.  A block that does not lie in the
    /// address space, that overlaps a block of the pool, or whose states
    /// could no longer be counted is not taken in.
    pub fn grow(&mut self, mapped: Option<usize>) -> (result: Result<(), Error>)
        requires
            old(self).wf(),
        ensures
            final(self).wf(),
            final(self).layout() == old(self).layout(),
            final(self).rented() == old(self).rented(),
            final(self).is_poisoned() == old(self).is_poisoned(),
            result == grow_outcome(
                old(self).is_poisoned(),
                admitted(
                    old(self).layout(),
                    old(self).blocks(),
                    mapped,
                    old(self).capacity() + old(self).layout().block_states() <= usize::MAX,
                ),
            ),
            match (result, mapped) {
                (Ok(_), Some(base)) => {
                    &&& final(self).blocks() == old(self).blocks().push(base)
                    &&& final(self).free() == old(self).free() + block_slots(
                        old(self).layout(),
                        base,
                    )
                },
                _ => {
                    &&& final(self).blocks() == old(self).blocks()
                    &&& final(self).free() == old(self).free()
                },
            },
    {
        let block_states = self.block_states();
        let room = block_states <= usize::MAX - self.capacity;
        let config = self.config;
        let enter = |blocks: &mut Vec<usize>| -> (entered: Result<usize, Error>)
            ensures
                entered == entering(mapped, admitted(config, old(blocks)@, mapped, room)),
                final(blocks)@ == entered_in(
                    old(blocks)@,
                    mapped,
                    admitted(config, old(blocks)@, mapped, room),
                ),
            {
                let entered = match mapped {
                    Some(base) => {
                        if room && is_fresh(config, blocks, base) {
                            blocks.push(base);
                            Ok(base)
                        } else {
                            Err(Error::AllocationFailure)
                        }
                    },
                    None => Err(Error::AllocationFailure),
                };
                entered
            };
        let entered = self.mmaps.run(enter);
        match entered {
            Ok(Ok(base)) => {
                proof {
                    lemma_grown(
                        self.config,
                        old(self).blocks(),
                        old(self).free(),
                        old(self).rented(),
                        base,
                    );
                }
                self.carve(base);
                self.capacity = self.capacity + block_states;
                proof {
                    let states = self.config.block_states();
                    let before = old(self).blocks().len();
                    let after = self.blocks().len();
                    assert(states * after == states * before + states) by (nonlinear_arith)
                        requires
                            after == before + 1,
                    ;
                }
                Ok(())
            },
            Ok(Err(error)) => Err(error),
            Err(_) => Err(Error::PoolPoisoned),
        }
    }
}

impl Pool {
    /// Closes the pool.  The lock is poisoned, so that the pool grows no
    /// more; the free list is drained and its states are counted; and the
    /// list of blocks is taken out under the poisoned lock, for the caller
    /// to unmap them.  When every state had been recycled, the count is the
    /// number of states that the pool had carved out.
    pub fn close(self) -> (closed: Closed)
        requires
            self.wf(),
        ensures
            closed.blocks@ == self.blocks(),
            closed.block_bytes == self.layout().block_bytes(),
            closed.drained == self.free().len(),
            closed.drained + self.rented().len() == self.capacity(),
    {
        let mut pool = self;
        let block_bytes = pool.block_bytes();
        let _ = pool.mmaps.poison();
        let mut drained: usize = 0;
        loop
            invariant
                pool.mmaps.wf(),
                pool.mmaps.is_poisoned(),
                pool.mmaps@ == self.mmaps@,
                drained + pool.free().len() == self.free().len(),
                self.free().len() + self.rented().len() == self.capacity,
            ensures
                pool.free().len() == 0,
            decreases pool.free().len(),
        {
            match pop(&mut pool.freelist) {
                Some(_) => {
                    drained = drained + 1;
                },
                None => {
                    break ;
                },
            }
        }
        let take = |blocks: &mut Vec<usize>| -> (flow: ControlFlow<Vec<usize>, Vec<usize>>)
            ensures
                flow matches ControlFlow::Continue(taken) && taken@ == old(blocks)@,
            {
                let mut taken: Vec<usize> = Vec::new();
                taken.append(blocks);
                proof {
                    assert(taken@ =~= old(blocks)@);
                }
                ControlFlow::Continue(taken)
            };
        match pool.mmaps.inspect_poison(take) {
            Ok(blocks) => Closed { blocks, block_bytes, drained },
            Err(_) => Closed { blocks: Vec::new(), block_bytes, drained },
        }
    }
}

} // verus!
