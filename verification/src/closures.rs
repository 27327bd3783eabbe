use vstd::prelude::*;

verus! {

/// `y + 5` when `x > 1`, else `y - 5`.
pub open spec fn shifted(x: i32, y: int) -> int {
    if x > 1 {
        y + 5
    } else {
        y - 5
    }
}

/// A function that adds 5 to its argument when `x > 1` and subtracts 5
/// otherwise. It may be called on any `y` for which the result fits in `i32`.
pub fn factory(x: i32) -> (f: impl Fn(i32) -> i32)
    ensures
        forall|y: i32| i32::MIN <= shifted(x, y as int) <= i32::MAX ==> f.requires((y,)),
        forall|y: i32, z: i32| f.ensures((y,), z) ==> z == shifted(x, y as int),
{
    let num: i32 = 5;
    move |y: i32| -> (z: i32)
        requires
            i32::MIN <= shifted(x, y as int) <= i32::MAX,
        ensures
            z == shifted(x, y as int),
        {
            if x > 1 {
                y + num
            } else {
                y - num
            }
        }
}

} // verus!
