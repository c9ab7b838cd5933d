use frft::order::{apply_permutation, reduce_order, Move, Reduction, TICKS_PER_PERIOD, TICKS_PER_UNIT};
use frft::permute::{flip, reverse, rotate_right};

const U: i64 = TICKS_PER_UNIT;

fn general(flip: bool, forward: bool, backward: bool, order: i64) -> Reduction {
    Reduction::General { flip, forward, backward, order }
}

// Runs the permutation moves and records where the transform would go.
fn run(buf: &mut Vec<i32>, moves: &[Move]) -> Vec<usize> {
    let mut at = Vec::new();
    for (i, m) in moves.iter().enumerate() {
        if *m == Move::Dft {
            at.push(i);
        } else {
            apply_permutation(buf, *m);
        }
    }
    at
}

#[test]
fn rotations_and_reversal() {
    let mut v = vec![1, 2, 3, 4, 5];
    rotate_right(&mut v, 2);
    assert_eq!(v, vec![4, 5, 1, 2, 3]);
    rotate_right(&mut v, 0);
    assert_eq!(v, vec![4, 5, 1, 2, 3]);
    reverse(&mut v);
    assert_eq!(v, vec![3, 2, 1, 5, 4]);
}

#[test]
fn flip_keeps_index_zero() {
    let mut v = vec![1, 2, 3, 4];
    flip(&mut v);
    assert_eq!(v, vec![1, 4, 3, 2]);
    flip(&mut v);
    assert_eq!(v, vec![1, 2, 3, 4]);
    let mut impulse = vec![1, 0, 0, 0];
    flip(&mut impulse);
    assert_eq!(impulse, vec![1, 0, 0, 0]);
}

#[test]
fn integer_orders() {
    assert_eq!(reduce_order(0), Reduction::Identity);
    assert_eq!(reduce_order(U), Reduction::Shift);
    assert_eq!(reduce_order(2 * U), Reduction::Flip);
    assert_eq!(reduce_order(3 * U), Reduction::ShiftFlip);
    assert_eq!(reduce_order(4 * U), Reduction::Identity);
    assert_eq!(reduce_order(-U), Reduction::ShiftFlip);
    assert_eq!(reduce_order(-6 * U), Reduction::Flip);
    assert_eq!(Reduction::Identity.scale_exponent(), 0);
    assert_eq!(Reduction::Shift.scale_exponent(), -1);
    assert_eq!(Reduction::Flip.scale_exponent(), 0);
    assert_eq!(Reduction::ShiftFlip.scale_exponent(), -1);
}

#[test]
fn general_orders() {
    assert_eq!(reduce_order(5 * U / 4), general(false, false, false, 5 * U / 4));
    assert_eq!(reduce_order(7 * U / 4), general(false, true, false, 3 * U / 4));
    assert_eq!(reduce_order(U / 4), general(false, false, true, 5 * U / 4));
    assert_eq!(reduce_order(5 * U / 2), general(true, false, false, U / 2));
    assert_eq!(reduce_order(3 * U / 2), general(false, false, false, 3 * U / 2));
    assert_eq!(reduce_order(15 * U / 4), general(true, true, false, 3 * U / 4));
    assert_eq!(reduce_order(9 * U / 4), general(true, false, true, 5 * U / 4));
    assert_eq!(reduce_order(-3 * U / 4), general(true, false, false, 5 * U / 4));
    assert_eq!(general(false, true, false, 0).scale_exponent(), -1);
    assert_eq!(general(true, false, true, 0).scale_exponent(), 1);
    assert_eq!(general(true, false, false, 0).scale_exponent(), 0);
}

#[test]
fn orders_repeat_every_four() {
    for t in [0, 1, U / 4, U, 5 * U / 3, 2 * U + 7, 3 * U, -U / 2, -9 * U] {
        assert_eq!(reduce_order(t), reduce_order(t + TICKS_PER_PERIOD));
    }
}

#[test]
fn move_lists() {
    assert_eq!(Reduction::Identity.moves(4), vec![]);
    assert_eq!(Reduction::Flip.moves(4), vec![Move::Reverse, Move::RotateRight(1)]);
    assert_eq!(
        Reduction::Shift.moves(4),
        vec![Move::RotateRight(2), Move::Dft, Move::RotateRight(2)]
    );
    assert_eq!(
        Reduction::ShiftFlip.moves(5),
        vec![
            Move::RotateRight(2),
            Move::Dft,
            Move::RotateRight(2),
            Move::Reverse,
            Move::RotateRight(1)
        ]
    );
    assert_eq!(
        general(true, false, true, 0).moves(4),
        vec![
            Move::Reverse,
            Move::RotateRight(1),
            Move::RotateRight(2),
            Move::Reverse,
            Move::RotateRight(1),
            Move::Dft,
            Move::RotateRight(2)
        ]
    );
}

#[test]
fn impulse_at_integer_orders() {
    for (k, expected, dft_at) in [
        (0, vec![1, 0, 0, 0], vec![]),
        (2, vec![1, 0, 0, 0], vec![]),
        (4, vec![1, 0, 0, 0], vec![]),
    ] {
        let mut buf = vec![1, 0, 0, 0];
        let at = run(&mut buf, &reduce_order(k * U).moves(4));
        assert_eq!(buf, expected);
        assert_eq!(at, dft_at);
    }
    // order 1: the impulse is rotated to the centre before the transform
    let mut buf = vec![1, 0, 0, 0];
    let moves = reduce_order(U).moves(4);
    apply_permutation(&mut buf, moves[0]);
    assert_eq!(buf, vec![0, 0, 1, 0]);
    assert_eq!(moves[1], Move::Dft);
}

#[test]
fn time_reversal_of_a_ramp() {
    let mut buf = vec![1, 2, 3, 4, 5, 6];
    let at = run(&mut buf, &reduce_order(2 * U).moves(6));
    assert_eq!(buf, vec![1, 6, 5, 4, 3, 2]);
    assert!(at.is_empty());
}

#[test]
fn general_corrections_on_a_ramp() {
    // an order in (3, 3.5): only the flip is needed
    let mut buf = vec![1, 2, 3, 4, 5];
    let at = run(&mut buf, &reduce_order(13 * U / 4).moves(5));
    assert_eq!(buf, vec![1, 5, 4, 3, 2]);
    assert!(at.is_empty());
    // an order in (0, 0.5): the centred inverse transform; before the
    // transform the ramp is centred and mirrored
    let mut buf = vec![1, 2, 3, 4, 5];
    let moves = reduce_order(U / 8).moves(5);
    assert_eq!(moves.len(), 5);
    let at = run(&mut buf, &moves[..3]);
    assert!(at.is_empty());
    assert_eq!(buf, vec![4, 3, 2, 1, 5]);
    assert_eq!(moves[3], Move::Dft);
}
