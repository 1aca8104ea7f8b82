use vstd::prelude::*;

verus! {

/// The smallest multiple of eight that is not below `x`.
pub open spec fn dirent_aligned(x: nat) -> nat {
    ((x + 7) / 8 * 8) as nat
}

/// Calculate the next correct directory-entry alignment after the provided offset.
pub fn fuse_dirent_align(x: usize) -> (r: usize)
    requires
        x + 7 <= usize::MAX,
    ensures
        r as nat == dirent_aligned(x as nat),
        r % 8 == 0,
        x <= r < x + 8,
{
    let size: usize = core::mem::size_of::<u64>();
    assert(size == 8) by {
        broadcast use vstd::layout::layout_of_primitives;
        assert(vstd::layout::size_of::<u64>() == 8);
    }
    let left: usize = x + (size - 1);
    let right: usize = !(size - 1);
    let ret: usize = left & right;
    assert(ret == left - left % 8) by (bit_vector)
        requires
            ret == left & !7usize,
    ;
    ret
}

} // verus!
