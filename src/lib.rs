//! Index, layout and order arithmetic of a fast discrete fractional Fourier
//! transform.
//!
//! The transform of order `a` reduces `a` modulo four, handles the integer
//! orders by rotations, reversals and a centred DFT, and brings every other
//! order into `[1/2, 3/2]` before a chirp, convolution, chirp sequence. This
//! crate holds the exact, sample-type-generic part of that work:
//!
//! - `convolver`: the power-of-two length of a wrap-free FFT convolution;
//! - `iter`: copying samples into the front of a buffer;
//! - `permute`: rotations, reversal and the mirror about index 0;
//! - `order`: the reduction of an order, held in fixed point, to the moves it
//!   performs and the power of the length it scales by;
//! - `layout`: zero-stuffing, padding, windows, decimation and the integer
//!   grids on which chirps and sinc kernels are sampled;
//! - `sizes`: the buffer lengths of the interpolator and of both transforms.
pub mod convolver;
pub mod iter;
pub mod layout;
pub mod order;
pub mod permute;
pub mod sizes;
