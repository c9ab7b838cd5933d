use vstd::prelude::*;

verus! {

/// `p` is a power of two.
pub open spec fn is_pow2(p: nat) -> bool
    decreases p,
{
    if p == 1 {
        true
    } else if p < 2 || p % 2 != 0 {
        false
    } else {
        is_pow2(p / 2)
    }
}

/// Of two distinct powers of two, the smaller is at most half the larger.
pub proof fn lemma_pow2_below(q: nat, r: nat)
    requires
        is_pow2(q),
        is_pow2(r),
        q < r,
    ensures
        q <= r / 2,
    decreases r,
{
    if q != 1 {
        lemma_pow2_below(q / 2, r / 2);
    }
}

/// The smallest power of two that is at least `n`.
pub fn next_pow2(n: usize) -> (r: usize)
    requires
        n <= usize::MAX / 2 + 1,
    ensures
        is_pow2(r as nat),
        r >= n,
        forall|q: nat| is_pow2(q) && q >= n ==> r <= q,
{
    let mut p: usize = 1;
    while p < n
        invariant
            is_pow2(p as nat),
            p >= 1,
            p == 1 || p / 2 < n,
            n <= usize::MAX / 2 + 1,
        decreases 2 * n - p,
    {
        p = p * 2;
    }
    assert forall|q: nat| is_pow2(q) && q >= n implies p <= q by {
        if q < p {
            lemma_pow2_below(q, p as nat);
        }
    }
    p
}

/// The length a convolver needs so that the linear convolution of sequences
/// of `a_size` and `b_size` samples does not wrap around: the smallest power
/// of two that is at least `a_size + b_size - 1`.
pub fn conv_length(a_size: usize, b_size: usize) -> (r: usize)
    requires
        a_size + b_size >= 1,
        a_size + b_size - 1 <= usize::MAX / 2 + 1,
    ensures
        is_pow2(r as nat),
        r >= a_size + b_size - 1,
        forall|q: nat| is_pow2(q) && q >= a_size + b_size - 1 ==> r <= q,
        a_size + b_size >= 2 ==> r < 2 * (a_size + b_size - 1),
{
    let n: usize = a_size + b_size - 1;
    let r: usize = next_pow2(n);
    if n >= 1 && r / 2 >= n {
        assert(is_pow2((r / 2) as nat));
        assert(false);
    }
    r
}

} // verus!
