use vstd::prelude::*;

verus! {

/// Splits `slice` at `mid` into two disjoint mutable parts, `[0, mid)` and
/// `[mid, len)`; writes through the parts land in `slice`.
pub fn split_at_mut(slice: &mut [i32], mid: usize) -> (r: (&mut [i32], &mut [i32]))
    requires
        mid <= old(slice)@.len(),
    ensures
        r.0@ == old(slice)@.subrange(0, mid as int),
        r.1@ == old(slice)@.subrange(mid as int, old(slice)@.len() as int),
        final(slice)@ == final(r.0)@ + final(r.1)@,
{
    slice.split_at_mut(mid)
}

} // verus!
