//! How the pool lays out its memory: the figures derived from what the
//! kernel reports about its opaque states.

use vstd::arithmetic::div_mod::lemma_fundamental_div_mod;
use vstd::prelude::*;

verus! {

/// What the kernel's function reports when it is asked for its parameters.
#[derive(Debug, Clone, Copy)]
pub struct VGetrandomOpaqueParams {
    /// The size of one opaque state, in bytes.
    pub size_of_opaque_states: u32,
    /// The protection with which the states' pages have to be mapped.
    pub mmap_prot: u32,
    /// The flags with which the states' pages have to be mapped.
    pub mmap_flags: u32,
    /// Reserved by the kernel.
    pub reserved: [u32; 13],
}

/// The layout of the pool, fixed when the pool is made.
#[derive(Debug, Clone, Copy)]
pub struct Config {
    /// The size of a page, in bytes.
    pub page_size: usize,
    /// The number of pages that are mapped at a time.
    pub pages_per_block: usize,
    /// The number of states that fit into a page.
    pub states_per_page: usize,
    /// What the kernel reported.
    pub params: VGetrandomOpaqueParams,
}

/// The number of states in a page of `page_size` bytes.
pub open spec fn states_in_page(page_size: usize, state_size: u32) -> int {
    page_size as int / state_size as int
}

/// The number of pages in a block that is sized for `cpu_count` states:
/// their bytes, rounded up to whole pages.
pub open spec fn pages_in_block(page_size: usize, state_size: u32, cpu_count: usize) -> int {
    (cpu_count as int * state_size as int + page_size as int - 1) / page_size as int
}

impl Config {
    /// The size of one state, in bytes.
    pub open spec fn state_size(&self) -> int {
        self.params.size_of_opaque_states as int
    }

    /// The size of one block, in bytes.
    pub open spec fn block_bytes(&self) -> int {
        self.page_size * self.pages_per_block
    }

    /// The number of states in one block.
    pub open spec fn block_states(&self) -> int {
        self.pages_per_block * self.states_per_page
    }

    /// The figures are those that `new` derives, and a block can be
    /// addressed.
    pub open spec fn wf(&self) -> bool {
        &&& self.page_size > 0
        &&& self.state_size() > 0
        &&& self.pages_per_block > 0
        &&& self.states_per_page == states_in_page(
            self.page_size,
            self.params.size_of_opaque_states,
        )
        &&& self.block_bytes() <= usize::MAX
    }

    /// The layout for pages of `page_size` bytes and states as `params`
    /// describes them, sized for `cpu_count` states: a block is the least
    /// number of whole pages that holds their bytes.
    pub fn new(params: VGetrandomOpaqueParams, page_size: usize, cpu_count: usize) -> (config:
        Self)
        requires
            page_size > 0,
            params.size_of_opaque_states > 0,
            cpu_count > 0,
            cpu_count * params.size_of_opaque_states + page_size <= usize::MAX,
        ensures
            config.wf(),
            config.page_size == page_size,
            config.params == params,
            config.states_per_page == states_in_page(page_size, params.size_of_opaque_states),
            config.pages_per_block == pages_in_block(
                page_size,
                params.size_of_opaque_states,
                cpu_count,
            ),
            config.block_bytes() >= cpu_count * params.size_of_opaque_states,
            config.block_bytes() - page_size < cpu_count * params.size_of_opaque_states,
    {
        let state_size = params.size_of_opaque_states as usize;
        assert(1 <= cpu_count * state_size <= usize::MAX) by (nonlinear_arith)
            requires
                cpu_count * state_size + page_size <= usize::MAX,
                page_size > 0,
                cpu_count > 0,
                state_size > 0,
        ;
        let guessed_bytes = cpu_count * state_size;
        let aligned_bytes = guessed_bytes + (page_size - 1);
        let states_per_page = page_size / state_size;
        let pages_per_block = aligned_bytes / page_size;
        proof {
            lemma_fundamental_div_mod(aligned_bytes as int, page_size as int);
            let rest = aligned_bytes as int % page_size as int;
            assert(0 <= rest < page_size);
            assert(page_size * pages_per_block == aligned_bytes - rest);
            assert(pages_per_block >= 1) by (nonlinear_arith)
                requires
                    page_size * pages_per_block == aligned_bytes - rest,
                    aligned_bytes - rest > 0,
                    page_size > 0,
                    pages_per_block >= 0,
            ;
        }
        Config { page_size, pages_per_block, states_per_page, params }
    }
}

} // verus!
