//! Embedding vectors, carried as the bit patterns of their single-precision
//! components.

use vstd::prelude::*;

verus! {

/// Copies a vector.
pub fn copy_bits(bits: &Vec<u32>) -> (copy: Vec<u32>)
    ensures
        copy@ == bits@,
{
    let mut copy: Vec<u32> = Vec::new();
    let mut i: usize = 0;
    while i < bits.len()
        invariant
            i <= bits.len(),
            copy@ == bits@.take(i as int),
        decreases bits.len() - i,
    {
        copy.push(bits[i]);
        assert(bits@.take(i as int + 1) =~= bits@.take(i as int).push(bits@[i as int]));
        i = i + 1;
    }
    assert(bits@.take(i as int) =~= bits@);
    copy
}

} // verus!
