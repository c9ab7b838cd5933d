use vstd::prelude::*;

use crate::convolver::{conv_length, is_pow2};
use crate::layout::{grid_len, stuffed_len, MAX_LEN};

verus! {

/// Samples the sinc interpolator returns for a signal of `n` samples: one
/// per half-sample position from the first sample to the last.
pub open spec fn interp_len(n: nat) -> nat {
    if n <= 1 {
        0
    } else {
        (2 * n - 1) as nat
    }
}

/// The number of samples the sinc interpolator returns for a signal of
/// `n` samples; a single sample gives none.
pub fn interp_result_len(n: usize) -> (r: usize)
    requires
        1 <= n <= MAX_LEN,
    ensures
        r == interp_len(n as nat),
{
    if n == 1 {
        0
    } else {
        2 * n - 1
    }
}

/// Half-width, in half samples, of the interpolator's sinc kernel: the
/// kernel is sampled at `sinc(k / 2)` for `k` in `[-half, half]`.
pub fn interp_kernel_half(n: usize) -> (r: usize)
    requires
        2 <= n <= MAX_LEN,
    ensures
        r == 2 * n - 3,
        grid_len(r as nat, 1) == 4 * n - 5,
{
    2 * n - 3
}

/// Length of the interpolator's convolution: the zero-stuffed signal
/// convolved with the sinc kernel, without wrap-around.
pub fn interp_conv_length(n: usize) -> (r: usize)
    requires
        2 <= n <= MAX_LEN,
    ensures
        r == stuffed_len(n as nat) + grid_len((2 * n - 3) as nat, 1) - 1,
        r == 6 * n - 7,
{
    6 * n - 7
}

/// First index of the interpolator's convolution that it returns: the
/// kernel's centre, so that output `p` is the interpolant at half-sample
/// position `p`. The returned window ends inside the convolution.
pub fn interp_window_start(n: usize) -> (r: usize)
    requires
        2 <= n <= MAX_LEN,
    ensures
        r == 2 * n - 3,
        r + interp_len(n as nat) <= 6 * n - 7,
{
    2 * n - 3
}

/// Lengths of the two chirps of the interpolation-based transform: the
/// premultiplication chirp over `[-(2n-2), 2n-2]` and the convolution chirp
/// over `[-(4n-4), 4n-4]`. The first is as long as the interpolated signal
/// with `n - 1` zeros on each side.
pub fn chirp_lengths(n: usize) -> (r: (usize, usize))
    requires
        2 <= n <= MAX_LEN,
    ensures
        r.0 == grid_len((2 * n - 2) as nat, 1),
        r.1 == grid_len((4 * n - 4) as nat, 1),
        r.0 == interp_len(n as nat) + 2 * (n - 1),
{
    (4 * n - 3, 8 * n - 7)
}

/// Length of the chirp convolution of the interpolation-based transform:
/// the convolution chirp against the padded, premultiplied signal.
pub fn chirp_conv_length(n: usize) -> (r: usize)
    requires
        2 <= n <= MAX_LEN,
    ensures
        r == (8 * n - 7) + (4 * n - 3) - 1,
{
    12 * n - 11
}

/// Length of the convolver of the decimation-based transform. Its three
/// convolutions (signal against sinc kernel, and each half of the signal
/// against its half of the convolution chirp) all fit without wrap-around.
pub fn decimated_conv_length(n: usize) -> (r: usize)
    requires
        2 <= n <= MAX_LEN,
    ensures
        is_pow2(r as nat),
        r >= 3 * n - 2,
        forall|q: nat| is_pow2(q) && q >= 3 * n - 2 ==> r <= q,
{
    conv_length(n, 2 * n - 1)
}

} // verus!
