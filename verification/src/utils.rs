//! Sizing help: how many processors the caller may run on.

use vstd::prelude::*;

verus! {

/// The number of bytes in an affinity mask.
pub const CPU_SET_BYTES: usize = 128;

/// The number of bits that are set in `byte`.
pub open spec fn ones_in(byte: u8) -> nat {
    ((byte & 1) + ((byte >> 1) & 1) + ((byte >> 2) & 1) + ((byte >> 3) & 1) + ((byte >> 4) & 1) + ((
    byte >> 5) & 1) + ((byte >> 6) & 1) + ((byte >> 7) & 1)) as nat
}

/// The number of bits that are set in all of `bytes`.
pub open spec fn ones_in_all(bytes: Seq<u8>) -> nat
    decreases bytes.len(),
{
    if bytes.len() == 0 {
        0
    } else {
        ones_in_all(bytes.drop_last()) + ones_in(bytes.last())
    }
}

/// The guess made from an affinity query that returned `res` and left the
/// mask `cpu_set`: the number of processors in the mask, and one where the
/// query failed or the mask is empty.
pub open spec fn cpu_count(res: isize, cpu_set: Seq<u8>) -> nat {
    if res <= 0 || ones_in_all(cpu_set) == 0 {
        1
    } else {
        ones_in_all(cpu_set)
    }
}

/// `u8::count_ones`: the number of ones in the binary representation.
pub assume_specification[ u8::count_ones ](byte: u8) -> (ones: u32)
    ensures
        ones == ones_in(byte),
;

/// A byte has at most eight bits set.
pub proof fn lemma_ones_in_bound(byte: u8)
    ensures
        ones_in(byte) <= 8,
{
    assert(byte & 1 <= 1) by (bit_vector);
    assert((byte >> 1) & 1 <= 1) by (bit_vector);
    assert((byte >> 2) & 1 <= 1) by (bit_vector);
    assert((byte >> 3) & 1 <= 1) by (bit_vector);
    assert((byte >> 4) & 1 <= 1) by (bit_vector);
    assert((byte >> 5) & 1 <= 1) by (bit_vector);
    assert((byte >> 6) & 1 <= 1) by (bit_vector);
    assert((byte >> 7) & 1 <= 1) by (bit_vector);
}

/// A mask has at most eight bits set for each of its bytes.
pub proof fn lemma_ones_in_all_bound(bytes: Seq<u8>)
    ensures
        ones_in_all(bytes) <= 8 * bytes.len(),
    decreases bytes.len(),
{
    if bytes.len() > 0 {
        lemma_ones_in_all_bound(bytes.drop_last());
        lemma_ones_in_bound(bytes.last());
    }
}

/// Guesses the number of processors from the outcome of an affinity query:
/// `res` is what the query returned, `cpu_set` the mask it filled.  The
/// guess is never zero.
pub fn guess_cpu_count(res: isize, cpu_set: &[u8; 128]) -> (count: usize)
    ensures
        count == cpu_count(res, cpu_set@),
        1 <= count <= 8 * CPU_SET_BYTES,
{
    proof {
        lemma_ones_in_all_bound(cpu_set@);
    }
    if res <= 0 {
        return 1;
    }
    let mut total: usize = 0;
    let mut index: usize = 0;
    while index < CPU_SET_BYTES
        invariant
            index <= CPU_SET_BYTES,
            cpu_set@.len() == CPU_SET_BYTES,
            total == ones_in_all(cpu_set@.take(index as int)),
            total <= 8 * index,
        decreases CPU_SET_BYTES - index,
    {
        proof {
            lemma_ones_in_bound(cpu_set@[index as int]);
            assert(cpu_set@.take(index + 1).drop_last() =~= cpu_set@.take(index as int));
        }
        total = total + cpu_set[index].count_ones() as usize;
        index = index + 1;
    }
    proof {
        assert(cpu_set@.take(index as int) =~= cpu_set@);
    }
    if total == 0 {
        1
    } else {
        total
    }
}

} // verus!
