use vstd::prelude::*;

use crate::permute::reversed;

verus! {

/// The largest signal length whose derived buffer sizes are all computed
/// without overflow.
pub const MAX_LEN: usize = 0x0fff_ffff;

/// Length of `n` samples with a fill sample between each neighbouring pair.
pub open spec fn stuffed_len(n: nat) -> nat {
    if n == 0 {
        0
    } else {
        (2 * n - 1) as nat
    }
}

/// `x` with `fill` placed between each neighbouring pair of samples: the
/// samples of `x` land on the even indices, `fill` on the odd ones.
pub fn intersperse<T: Copy>(x: &[T], fill: T) -> (r: Vec<T>)
    requires
        x@.len() <= MAX_LEN,
    ensures
        r@.len() == stuffed_len(x@.len()),
        forall|i: int| 0 <= i < r@.len() ==> r@[i] == if i % 2 == 0 { x@[i / 2] } else { fill },
{
    let mut r: Vec<T> = Vec::new();
    let mut i: usize = 0;
    while i < x.len()
        invariant
            i <= x@.len() <= MAX_LEN,
            r@.len() == stuffed_len(i as nat),
            forall|j: int| 0 <= j < r@.len() ==> r@[j] == if j % 2 == 0 { x@[j / 2] } else { fill },
        decreases x@.len() - i,
    {
        if i > 0 {
            r.push(fill);
        }
        r.push(x[i]);
        i = i + 1;
    }
    r
}

/// `x` with `pad` copies of `fill` before it and `pad` after it.
pub fn pad_both<T: Copy>(x: &[T], pad: usize, fill: T) -> (r: Vec<T>)
    requires
        x@.len() + 2 * pad <= usize::MAX,
    ensures
        r@ == Seq::new(pad as nat, |_i: int| fill) + x@ + Seq::new(pad as nat, |_i: int| fill),
{
    let ghost zeros = Seq::new(pad as nat, |_i: int| fill);
    let mut r: Vec<T> = Vec::new();
    let mut i: usize = 0;
    while i < pad
        invariant
            i <= pad,
            r@ == Seq::new(i as nat, |_i: int| fill),
        decreases pad - i,
    {
        r.push(fill);
        i = i + 1;
        assert(r@ =~= Seq::new(i as nat, |_i: int| fill));
    }
    let mut j: usize = 0;
    while j < x.len()
        invariant
            j <= x@.len(),
            r@ == zeros + x@.take(j as int),
        decreases x@.len() - j,
    {
        r.push(x[j]);
        j = j + 1;
        assert(r@ =~= zeros + x@.take(j as int));
    }
    assert(x@.take(x@.len() as int) =~= x@);
    let mut k: usize = 0;
    while k < pad
        invariant
            k <= pad,
            r@ == zeros + x@ + Seq::new(k as nat, |_i: int| fill),
        decreases pad - k,
    {
        r.push(fill);
        k = k + 1;
        assert(r@ =~= zeros + x@ + Seq::new(k as nat, |_i: int| fill));
    }
    r
}

/// The `len` samples of `x` that start at index `start`.
pub fn window<T: Copy>(x: &[T], start: usize, len: usize) -> (r: Vec<T>)
    requires
        start + len <= x@.len(),
    ensures
        r@ == x@.subrange(start as int, start + len),
{
    let mut r: Vec<T> = Vec::new();
    let mut i: usize = 0;
    while i < len
        invariant
            i <= len,
            start + len <= x@.len(),
            x@.len() == x.len(),
            r@ == x@.subrange(start as int, start + i),
        decreases len - i,
    {
        r.push(x[start + i]);
        i = i + 1;
        assert(r@ =~= x@.subrange(start as int, start + i));
    }
    r
}

/// The `len` samples of `x` that start at index `start`, last one first.
pub fn reversed_window<T: Copy>(x: &[T], start: usize, len: usize) -> (r: Vec<T>)
    requires
        start + len <= x@.len(),
    ensures
        r@ == reversed(x@.subrange(start as int, start + len)),
{
    let mut r: Vec<T> = Vec::new();
    let mut i: usize = 0;
    while i < len
        invariant
            i <= len,
            start + len <= x@.len(),
            x@.len() == x.len(),
            r@.len() == i,
            forall|j: int| 0 <= j < i ==> r@[j] == x@[start + len - 1 - j],
        decreases len - i,
    {
        r.push(x[start + len - 1 - i]);
        i = i + 1;
    }
    assert(r@ =~= reversed(x@.subrange(start as int, start + len)));
    r
}

/// Every other sample of `x`, `count` of them, starting at index `start`.
pub fn decimate<T: Copy>(x: &[T], start: usize, count: usize) -> (r: Vec<T>)
    requires
        count == 0 || start + 2 * (count - 1) < x@.len(),
    ensures
        r@.len() == count,
        forall|i: int| 0 <= i < count ==> r@[i] == x@[start + 2 * i],
{
    let mut r: Vec<T> = Vec::new();
    let mut i: usize = 0;
    while i < count
        invariant
            i <= count,
            count == 0 || start + 2 * (count - 1) < x@.len(),
            x@.len() == x.len(),
            r@.len() == i,
            forall|j: int| 0 <= j < i ==> r@[j] == x@[start + 2 * j],
        decreases count - i,
    {
        r.push(x[start + 2 * i]);
        i = i + 1;
    }
    r
}

/// The number of points `-half, -half + step, ..., half`.
pub open spec fn grid_len(half: nat, step: nat) -> nat {
    2 * half / step + 1
}

/// The sample positions `-half, -half + step, ..., half`, in order.
pub fn symmetric_grid(half: usize, step: usize) -> (r: Vec<i64>)
    requires
        step >= 1,
        (2 * half) % (step as int) == 0,
        half <= MAX_LEN,
    ensures
        r@.len() == grid_len(half as nat, step as nat),
        forall|i: int| 0 <= i < r@.len() ==> r@[i] == -(half as int) + step * i,
        r@[0] == -(half as int),
        r@.last() == half as int,
{
    let count: usize = 2 * half / step + 1;
    let mut r: Vec<i64> = Vec::new();
    let mut i: usize = 0;
    while i < count
        invariant
            i <= count,
            count == grid_len(half as nat, step as nat),
            step >= 1,
            (2 * half) % (step as int) == 0,
            half <= MAX_LEN,
            r@.len() == i,
            forall|j: int| 0 <= j < i ==> r@[j] == -(half as int) + step * j,
        decreases count - i,
    {
        proof {
            let h = half as int;
            let st = step as int;
            let q = (2 * h) / st;
            let ii = i as int;
            vstd::arithmetic::div_mod::lemma_fundamental_div_mod(2 * h, st);
            assert(st * ii <= 2 * h) by (nonlinear_arith)
                requires
                    ii < q + 1,
                    2 * h == st * q,
                    st >= 1,
            ;
        }
        r.push(-(half as i64) + (step * i) as i64);
        i = i + 1;
    }
    proof {
        let h = half as int;
        let st = step as int;
        vstd::arithmetic::div_mod::lemma_fundamental_div_mod(2 * h, st);
        assert(r@.last() == -h + st * ((2 * h) / st));
    }
    r
}

} // verus!
