use vstd::prelude::*;

verus! {

/// The largest and the smallest of `input`, in this order.
pub fn largest_and_smallest(input: &[i32]) -> (found: (i32, i32))
    requires
        input@.len() > 0,
    ensures
        forall|i: int|
            0 <= i < input@.len() ==> found.1 <= #[trigger] input@[i] && input@[i] <= found.0,
        exists|i: int| 0 <= i < input@.len() && #[trigger] input@[i] == found.0,
        exists|i: int| 0 <= i < input@.len() && #[trigger] input@[i] == found.1,
{
    let mut big_int = input[0];
    let mut small_int = input[0];
    let mut k: usize = 0;
    while k < input.len()
        invariant
            k <= input@.len(),
            input@.len() > 0,
            forall|i: int|
                0 <= i < k ==> small_int <= #[trigger] input@[i] && input@[i] <= big_int,
            exists|i: int| 0 <= i < input@.len() && #[trigger] input@[i] == big_int,
            exists|i: int| 0 <= i < input@.len() && #[trigger] input@[i] == small_int,
            small_int <= big_int,
        decreases input@.len() - k,
    {
        let num = input[k];
        if num > big_int {
            big_int = num
        } else if num < small_int {
            small_int = num
        }
        k += 1;
    }
    (big_int, small_int)
}

} // verus!
