use vstd::prelude::*;

verus! {

/// Bytes in one machine word (the size of `usize`, and of an object reference).
pub open spec fn word_bytes() -> int {
    usize::BITS as int / 8
}

/// The size of a machine word in bytes, as `core::mem::size_of::<usize>()` gives it.
pub fn word_size() -> (w: usize)
    ensures
        w == word_bytes(),
        w == 4 || w == 8,
{
    proof {
        broadcast use vstd::layout::layout_of_primitives;
    }
    core::mem::size_of::<usize>()
}

} // verus!
