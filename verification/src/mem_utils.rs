//! Copying and filling of memory, on slices.
use vstd::prelude::*;

verus! {

/// The smaller of two lengths.
pub open spec fn spec_min(a: int, b: int) -> int {
    if a <= b {
        a
    } else {
        b
    }
}

/// Copies the first `sz` elements of `src` to the front of `mem`.
pub fn memmove(mem: &mut [u8], src: &[u8], sz: usize)
    requires
        sz <= old(mem)@.len(),
        sz <= src@.len(),
    ensures
        final(mem)@.len() == old(mem)@.len(),
        forall|i: int| 0 <= i < sz ==> final(mem)@[i] == src@[i],
        forall|i: int| sz <= i < old(mem)@.len() ==> final(mem)@[i] == old(mem)@[i],
{
    let mut i: usize = 0;
    while i < sz
        invariant
            i <= sz,
            sz <= src@.len(),
            mem@.len() == old(mem)@.len(),
            sz <= mem@.len(),
            forall|k: int| 0 <= k < i ==> mem@[k] == src@[k],
            forall|k: int| i <= k < mem@.len() ==> mem@[k] == old(mem)@[k],
        decreases sz - i,
    {
        mem[i] = src[i];
        i += 1;
    }
}

/// Copies as much of `src` as fits to the front of `dst`: as many elements
/// as the shorter of the two has.  The rest of `dst` stays as it is.
pub fn slice_cpy<T: Copy>(dst: &mut [T], src: &[T])
    ensures
        final(dst)@.len() == old(dst)@.len(),
        forall|i: int|
            0 <= i < spec_min(old(dst)@.len() as int, src@.len() as int) ==> final(dst)@[i]
                == src@[i],
        forall|i: int|
            spec_min(old(dst)@.len() as int, src@.len() as int) <= i < old(dst)@.len()
                ==> final(dst)@[i] == old(dst)@[i],
{
    let len: usize = if dst.len() <= src.len() {
        dst.len()
    } else {
        src.len()
    };
    let mut i: usize = 0;
    while i < len
        invariant
            i <= len,
            len == spec_min(old(dst)@.len() as int, src@.len() as int),
            dst@.len() == old(dst)@.len(),
            forall|k: int| 0 <= k < i ==> dst@[k] == src@[k],
            forall|k: int| i <= k < dst@.len() ==> dst@[k] == old(dst)@[k],
        decreases len - i,
    {
        dst[i] = src[i];
        i += 1;
    }
}

/// Sets the first `size` bytes of `mem` to `val`.
pub fn memset(mem: &mut [u8], val: u8, size: usize)
    requires
        size <= old(mem)@.len(),
    ensures
        final(mem)@.len() == old(mem)@.len(),
        forall|i: int| 0 <= i < size ==> final(mem)@[i] == val,
        forall|i: int| size <= i < old(mem)@.len() ==> final(mem)@[i] == old(mem)@[i],
{
    let mut i: usize = 0;
    while i < size
        invariant
            i <= size,
            mem@.len() == old(mem)@.len(),
            size <= mem@.len(),
            forall|k: int| 0 <= k < i ==> mem@[k] == val,
            forall|k: int| i <= k < mem@.len() ==> mem@[k] == old(mem)@[k],
        decreases size - i,
    {
        mem[i] = val;
        i += 1;
    }
}

} // verus!
