//! A deterministic stand-in for the kernel's function: it reports fixed
//! parameters, and it fills buffers from a counter that is the whole of its
//! state.

use crate::config::VGetrandomOpaqueParams;
use vstd::prelude::*;

verus! {

/// The size of the stand-in's state, in bytes: it is one counter.
pub const MOCK_STATE_SIZE: u32 = 8;

/// The page size that goes with the stand-in: room for eight states.
pub const PAGE_SIZE: usize = 64;

/// The parameters that the stand-in reports.
pub fn mocked_params() -> (params: VGetrandomOpaqueParams)
    ensures
        params.size_of_opaque_states == MOCK_STATE_SIZE,
        params.mmap_prot == 0,
        params.mmap_flags == 0,
        params.reserved@ == Seq::new(13, |i: int| 0u32),
{
    let params = VGetrandomOpaqueParams {
        size_of_opaque_states: MOCK_STATE_SIZE,
        mmap_prot: 0,
        mmap_flags: 0,
        reserved: [0, 0, 0, 0, 0, 0, 0, 0, 0, 0, 0, 0, 0],
    };
    proof {
        assert(params.reserved@ =~= Seq::new(13, |i: int| 0u32));
    }
    params
}

/// The byte that the stand-in writes when its counter stands at `count`:
/// the lowest eight bits of the counter.
pub open spec fn mocked_byte(count: int) -> u8 {
    (count % 256) as u8
}

/// The counter after one more byte: it wraps around at its largest value.
pub open spec fn mocked_next(count: usize) -> usize {
    if count == usize::MAX {
        0
    } else {
        (count + 1) as usize
    }
}

/// The counter after `steps` more bytes.
pub open spec fn mocked_count(count: usize, steps: nat) -> usize
    decreases steps,
{
    if steps == 0 {
        count
    } else {
        mocked_next(mocked_count(count, (steps - 1) as nat))
    }
}

/// Fills all of `buf` from the counter `state`: each byte is the lowest
/// eight bits of the counter, which goes up by one for each byte and wraps
/// around.  The result is the number of bytes.
pub fn mocked_vgetrandom(buf: &mut [u8], state: &mut usize) -> (filled: i32)
    requires
        old(buf)@.len() <= i32::MAX,
    ensures
        filled == old(buf)@.len(),
        final(buf)@.len() == old(buf)@.len(),
        forall|i: int|
            0 <= i < final(buf)@.len() ==> final(buf)@[i] == mocked_byte(
                mocked_count(*old(state), i as nat) as int,
            ),
        *final(state) == mocked_count(*old(state), old(buf)@.len()),
{
    let len = buf.len();
    let mut index: usize = 0;
    while index < len
        invariant
            index <= len,
            len == buf@.len(),
            len == old(buf)@.len(),
            len <= i32::MAX,
            *state == mocked_count(*old(state), index as nat),
            forall|i: int|
                0 <= i < index ==> buf@[i] == mocked_byte(
                    mocked_count(*old(state), i as nat) as int,
                ),
        decreases len - index,
    {
        let current = *state;
        *state = if current == usize::MAX {
            0
        } else {
            current + 1
        };
        buf[index] = (current % 256) as u8;
        index = index + 1;
    }
    len as i32
}

} // verus!
