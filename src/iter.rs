use vstd::prelude::*;

verus! {

/// The number of samples that `iter_into_slice` copies: as many as both
/// sides have.
pub open spec fn copied_len(items: nat, slots: nat) -> nat {
    if items < slots {
        items
    } else {
        slots
    }
}

/// Writes `items` over the front of `slice`, pairing them up from index 0.
/// Items beyond the end of `slice` are dropped; slots beyond the last item
/// keep what they held.
pub fn iter_into_slice<T: Copy>(items: &[T], slice: &mut [T])
    ensures
        final(slice)@.len() == old(slice)@.len(),
        forall|i: int|
            0 <= i < copied_len(items@.len(), old(slice)@.len()) ==> final(slice)@[i] == items@[i],
        forall|i: int|
            copied_len(items@.len(), old(slice)@.len()) <= i < old(slice)@.len()
                ==> final(slice)@[i] == old(slice)@[i],
{
    let m: usize = if items.len() < slice.len() {
        items.len()
    } else {
        slice.len()
    };
    let mut i: usize = 0;
    while i < m
        invariant
            m == copied_len(items@.len(), old(slice)@.len()),
            i <= m,
            slice@.len() == old(slice)@.len(),
            forall|j: int| 0 <= j < i ==> slice@[j] == items@[j],
            forall|j: int| i <= j < old(slice)@.len() ==> slice@[j] == old(slice)@[j],
        decreases m - i,
    {
        slice[i] = items[i];
        i = i + 1;
    }
}

} // verus!
