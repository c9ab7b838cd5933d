use frft::convolver::{conv_length, next_pow2};
use frft::iter::iter_into_slice;
use frft::layout::{decimate, intersperse, pad_both, reversed_window, symmetric_grid, window};
use frft::sizes::{
    chirp_conv_length, chirp_lengths, decimated_conv_length, interp_conv_length,
    interp_kernel_half, interp_result_len, interp_window_start,
};

#[test]
fn next_pow2_values() {
    assert_eq!(next_pow2(1), 1);
    assert_eq!(next_pow2(2), 2);
    assert_eq!(next_pow2(5), 8);
    assert_eq!(next_pow2(8), 8);
    assert_eq!(next_pow2(9), 16);
}

#[test]
fn conv_length_values() {
    assert_eq!(conv_length(1, 1), 1);
    assert_eq!(conv_length(2, 3), 4);
    assert_eq!(conv_length(4, 7), 16);
    assert_eq!(conv_length(5, 4), 8);
    assert_eq!(conv_length(16, 31), 64);
}

#[test]
fn conv_length_is_tight_power_of_two() {
    for a in 1..60usize {
        for b in 1..60usize {
            let n = a + b - 1;
            let r = conv_length(a, b);
            assert!(r.is_power_of_two());
            assert!(r >= n);
            assert!(n < 2 || r < 2 * n);
        }
    }
}

#[test]
fn iter_into_slice_shorter_items() {
    let mut slots = [9, 9, 9, 9];
    iter_into_slice(&[1, 2], &mut slots);
    assert_eq!(slots, [1, 2, 9, 9]);
}

#[test]
fn iter_into_slice_drops_excess() {
    let mut slots = [9, 9];
    iter_into_slice(&[1, 2, 3, 4], &mut slots);
    assert_eq!(slots, [1, 2]);
}

#[test]
fn intersperse_stuffs_zeros() {
    assert_eq!(intersperse(&[1, 2, 3], 0), vec![1, 0, 2, 0, 3]);
    assert_eq!(intersperse(&[7], 0), vec![7]);
    assert_eq!(intersperse::<i32>(&[], 0), Vec::<i32>::new());
}

#[test]
fn pad_both_surrounds() {
    assert_eq!(pad_both(&[5, 6], 2, 0), vec![0, 0, 5, 6, 0, 0]);
    assert_eq!(pad_both(&[5, 6], 0, 0), vec![5, 6]);
}

#[test]
fn windows_and_decimation() {
    let x = [10, 11, 12, 13, 14, 15, 16];
    assert_eq!(window(&x, 2, 3), vec![12, 13, 14]);
    assert_eq!(reversed_window(&x, 2, 3), vec![14, 13, 12]);
    assert_eq!(decimate(&x, 1, 3), vec![11, 13, 15]);
    assert_eq!(decimate(&x, 0, 4), vec![10, 12, 14, 16]);
    assert_eq!(decimate(&x, 3, 0), Vec::<i32>::new());
}

#[test]
fn grids() {
    assert_eq!(symmetric_grid(2, 1), vec![-2, -1, 0, 1, 2]);
    assert_eq!(symmetric_grid(3, 2), vec![-3, -1, 1, 3]);
    assert_eq!(symmetric_grid(0, 1), vec![0]);
    // the premultiplication and convolution chirps for 16 samples
    assert_eq!(symmetric_grid(30, 1).len(), 61);
    assert_eq!(symmetric_grid(60, 1).len(), 121);
}

#[test]
fn interpolator_sizes() {
    assert_eq!(interp_result_len(3), 5);
    assert_eq!(interp_result_len(16), 31);
    assert_eq!(interp_result_len(2), 3);
    assert_eq!(interp_result_len(1), 0);
    assert_eq!(interp_kernel_half(3), 3);
    assert_eq!(interp_conv_length(3), 11);
    assert_eq!(interp_window_start(3), 3);
}

#[test]
fn chirp_sizes() {
    assert_eq!(chirp_lengths(16), (61, 121));
    assert_eq!(chirp_lengths(4), (13, 25));
    assert_eq!(chirp_conv_length(16), 181);
    assert_eq!(decimated_conv_length(4), 16);
    assert_eq!(decimated_conv_length(16), 64);
}
