//! The list answers of the video extension: the core hands over a buffer of
//! some capacity; the extension copies as many of its entries as fit and
//! reports how many it wrote.

use vstd::prelude::*;

verus! {

/// The smaller of two lengths.
pub open spec fn min_len(a: nat, b: nat) -> nat {
    if a < b { a } else { b }
}

/// Copies the first `min(src.len(), dst.len())` entries of `src` to the front
/// of `dst` and returns that count; the rest of `dst` is left as it was.
pub fn copy_truncated<T: Copy>(src: &[T], dst: &mut [T]) -> (n: usize)
    ensures
        n == min_len(src@.len(), old(dst)@.len()),
        n <= src@.len(),
        n <= old(dst)@.len(),
        n == src@.len() || n == old(dst)@.len(),
        final(dst)@.len() == old(dst)@.len(),
        final(dst)@ == src@.take(n as int) + old(dst)@.skip(n as int),
{
    let n: usize = if src.len() < dst.len() { src.len() } else { dst.len() };
    let mut i: usize = 0;
    while i < n
        invariant
            i <= n,
            n == min_len(src@.len(), old(dst)@.len()),
            dst@.len() == old(dst)@.len(),
            forall|j: int| 0 <= j < i ==> dst@[j] == src@[j],
            forall|j: int| i <= j < dst@.len() ==> dst@[j] == old(dst)@[j],
        decreases n - i,
    {
        dst[i] = src[i];
        i = i + 1;
    }
    assert(dst@ =~= src@.take(n as int) + old(dst)@.skip(n as int));
    n
}

/// The count of a list answer is the smaller of the list's length and the
/// buffer's capacity: every entry is written when the buffer has room for all
/// of them, and the buffer is filled otherwise.
pub proof fn list_count_is_the_smaller_length(list_len: nat, capacity: nat)
    ensures
        min_len(list_len, capacity) <= list_len,
        min_len(list_len, capacity) <= capacity,
        min_len(list_len, capacity) == list_len || min_len(list_len, capacity) == capacity,
        list_len <= capacity ==> min_len(list_len, capacity) == list_len,
        capacity <= list_len ==> min_len(list_len, capacity) == capacity,
{
}

} // verus!
