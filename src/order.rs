use vstd::prelude::*;

use crate::permute::{
    flipped, lemma_mod_by_quotient, lemma_reverse_then_rotate_one, reverse, reversed, rotate_right,
    rotated_right,
};

verus! {

/// Ticks in one unit of fractional order: the order `a` is held as the
/// integer `a * 2^32`, so that every comparison the reduction makes is exact.
pub const TICKS_PER_UNIT: i64 = 4294967296;

/// Ticks in one period of the transform (order 4).
pub const TICKS_PER_PERIOD: i64 = 17179869184;

/// One unit of order, in ticks.
pub open spec fn unit() -> int {
    TICKS_PER_UNIT as int
}

/// One period of the transform, in ticks.
pub open spec fn period() -> int {
    4 * unit()
}

/// What an order asks of a buffer before (and instead of) the general chirp
/// algorithm.
#[derive(Clone, Copy, Debug, PartialEq, Eq, Structural)]
pub enum Reduction {
    /// Order 0: the samples stay as they are.
    Identity,
    /// Order 1: the centred forward transform.
    Shift,
    /// Order 2: time reversal about index 0.
    Flip,
    /// Order 3: the centred forward transform followed by time reversal.
    ShiftFlip,
    /// Any other order: up to two corrective moves bring it to `order`
    /// (in ticks), which lies in `[1/2, 3/2]` units. `flip` takes two units
    /// off, `forward` (a centred forward transform) one more, and
    /// `backward` (a centred inverse transform) adds one back.
    General { flip: bool, forward: bool, backward: bool, order: i64 },
}

/// One step that a reduction performs on a buffer of samples.
#[derive(Clone, Copy, Debug, PartialEq, Eq, Structural)]
pub enum Move {
    /// Rotate right by the given number of places.
    RotateRight(usize),
    /// Reverse the buffer.
    Reverse,
    /// Apply the unscaled forward discrete Fourier transform.
    Dft,
}

/// The order `ticks` taken modulo one period, in `[0, period)`.
pub open spec fn reduced_ticks(ticks: int) -> int {
    ticks % period()
}

/// The reduction of the order `ticks`.
pub open spec fn reduction_of(ticks: int) -> Reduction {
    let a = reduced_ticks(ticks);
    if a == 0 {
        Reduction::Identity
    } else if a == unit() {
        Reduction::Shift
    } else if a == 2 * unit() {
        Reduction::Flip
    } else if a == 3 * unit() {
        Reduction::ShiftFlip
    } else {
        let flip = a > 2 * unit();
        let a1 = if flip { a - 2 * unit() } else { a };
        let forward = 2 * a1 > 3 * unit();
        let a2 = if forward { a1 - unit() } else { a1 };
        let backward = 2 * a2 < unit();
        let a3 = if backward { a2 + unit() } else { a2 };
        Reduction::General { flip, forward, backward, order: a3 as i64 }
    }
}

/// The power of the length `n` by which a reduction scales the analytic
/// normalisation: the scale factor is `n` to this power.
pub open spec fn scale_exponent_of(r: Reduction) -> int {
    match r {
        Reduction::Identity => 0,
        Reduction::Flip => 0,
        Reduction::Shift => -1,
        Reduction::ShiftFlip => -1,
        Reduction::General { forward, backward, .. } => (if backward { 1int } else { 0int }) - (
        if forward { 1int } else { 0int }),
    }
}

/// Flip: reverse, then rotate right by one.
pub open spec fn flip_moves() -> Seq<Move> {
    seq![Move::Reverse, Move::RotateRight(1)]
}

/// Centred forward transform on `n` samples: rotate by `n/2`, transform,
/// rotate by `n/2` again.
pub open spec fn shift_moves(n: nat) -> Seq<Move> {
    seq![Move::RotateRight((n / 2) as usize), Move::Dft, Move::RotateRight((n / 2) as usize)]
}

/// Centred inverse transform on `n` samples: rotate by `n/2`, flip,
/// transform, rotate by `n/2`.
pub open spec fn backward_moves(n: nat) -> Seq<Move> {
    seq![Move::RotateRight((n / 2) as usize)] + flip_moves() + seq![Move::Dft, Move::RotateRight((n / 2) as usize)]
}

/// The moves that `r` performs on a buffer of `n` samples, in order.
pub open spec fn move_list(r: Reduction, n: nat) -> Seq<Move> {
    match r {
        Reduction::Identity => seq![],
        Reduction::Shift => shift_moves(n),
        Reduction::Flip => flip_moves(),
        Reduction::ShiftFlip => shift_moves(n) + flip_moves(),
        Reduction::General { flip, forward, backward, .. } => (if flip {
            flip_moves()
        } else {
            seq![]
        }) + (if forward {
            shift_moves(n)
        } else {
            seq![]
        }) + (if backward {
            backward_moves(n)
        } else {
            seq![]
        }),
    }
}

/// What one move does to the samples `s`, where `dft` stands for the
/// forward transform.
pub open spec fn apply_move<T>(m: Move, s: Seq<T>, dft: spec_fn(Seq<T>) -> Seq<T>) -> Seq<T> {
    match m {
        Move::RotateRight(k) => rotated_right(s, k as int),
        Move::Reverse => reversed(s),
        Move::Dft => dft(s),
    }
}

/// What a list of moves does to the samples `s`, first move first.
pub open spec fn apply_moves<T>(ms: Seq<Move>, s: Seq<T>, dft: spec_fn(Seq<T>) -> Seq<T>) -> Seq<
    T,
>
    decreases ms.len(),
{
    if ms.len() == 0 {
        s
    } else {
        apply_moves(ms.drop_first(), apply_move(ms[0], s, dft), dft)
    }
}

/// The centred forward transform of `s`.
pub open spec fn centred_dft<T>(s: Seq<T>, dft: spec_fn(Seq<T>) -> Seq<T>) -> Seq<T> {
    rotated_right(dft(rotated_right(s, (s.len() / 2) as int)), (s.len() / 2) as int)
}

/// The centred inverse transform of `s`, times its length: `s` is rotated
/// by half its length, mirrored about index 0, transformed, and rotated back.
pub open spec fn centred_inverse<T>(s: Seq<T>, dft: spec_fn(Seq<T>) -> Seq<T>) -> Seq<T> {
    rotated_right(dft(flipped(rotated_right(s, (s.len() / 2) as int))), (s.len() / 2) as int)
}

/// What a general reduction does to `s` before the chirp algorithm: first
/// the flip, then the centred forward transform, then the centred inverse
/// transform, each where its flag is set.
pub open spec fn corrected<T>(
    flip: bool,
    forward: bool,
    backward: bool,
    s: Seq<T>,
    dft: spec_fn(Seq<T>) -> Seq<T>,
) -> Seq<T> {
    let s1 = if flip { flipped(s) } else { s };
    let s2 = if forward { centred_dft(s1, dft) } else { s1 };
    if backward { centred_inverse(s2, dft) } else { s2 }
}

/// Reduces the order `ticks` (in units of `TICKS_PER_UNIT`) modulo four and
/// decides how the buffer is to be brought to an order in `[1/2, 3/2]`.
pub fn reduce_order(ticks: i64) -> (r: Reduction)
    ensures
        r == reduction_of(ticks as int),
        r matches Reduction::General { flip, forward, backward, order } ==> {
            &&& unit() <= 2 * order <= 3 * unit()
            &&& !(forward && backward)
            &&& order + (if flip { 2 * unit() } else { 0 }) + (if forward { unit() } else { 0 }) - (
            if backward { unit() } else { 0 }) == reduced_ticks(ticks as int)
        },
{
    let a: i64 = if ticks >= 0 {
        let m: i64 = ticks % TICKS_PER_PERIOD;
        proof {
            let q = ticks as int / period();
            vstd::arithmetic::div_mod::lemma_fundamental_div_mod(ticks as int, period());
            lemma_mod_by_quotient(ticks as int, period(), q);
        }
        m
    } else {
        let m: i64 = -(ticks + 1);
        let rm: i64 = m % TICKS_PER_PERIOD;
        proof {
            let q = m as int / period();
            vstd::arithmetic::div_mod::lemma_fundamental_div_mod(m as int, period());
            lemma_mod_by_quotient(ticks as int, period(), -q - 1);
        }
        TICKS_PER_PERIOD - 1 - rm
    };
    assert(a == reduced_ticks(ticks as int));
    if a == 0 {
        Reduction::Identity
    } else if a == TICKS_PER_UNIT {
        Reduction::Shift
    } else if a == 2 * TICKS_PER_UNIT {
        Reduction::Flip
    } else if a == 3 * TICKS_PER_UNIT {
        Reduction::ShiftFlip
    } else {
        let mut order: i64 = a;
        let flip = order > 2 * TICKS_PER_UNIT;
        if flip {
            order = order - 2 * TICKS_PER_UNIT;
        }
        let forward = 2 * order > 3 * TICKS_PER_UNIT;
        if forward {
            order = order - TICKS_PER_UNIT;
        }
        let backward = 2 * order < TICKS_PER_UNIT;
        if backward {
            order = order + TICKS_PER_UNIT;
        }
        Reduction::General { flip, forward, backward, order }
    }
}

impl Reduction {
    /// The power of the buffer length by which this reduction scales the
    /// analytic normalisation.
    pub fn scale_exponent(&self) -> (r: i8)
        ensures
            r as int == scale_exponent_of(*self),
    {
        match *self {
            Reduction::Identity => 0,
            Reduction::Flip => 0,
            Reduction::Shift => -1,
            Reduction::ShiftFlip => -1,
            Reduction::General { forward, backward, .. } => {
                let up: i8 = if backward {
                    1
                } else {
                    0
                };
                let down: i8 = if forward {
                    1
                } else {
                    0
                };
                up - down
            },
        }
    }

    /// The moves this reduction performs on a buffer of `n` samples, in the
    /// order they are to be applied.
    pub fn moves(&self, n: usize) -> (r: Vec<Move>)
        ensures
            r@ == move_list(*self, n as nat),
    {
        let mut r: Vec<Move> = Vec::new();
        match *self {
            Reduction::Identity => {},
            Reduction::Shift => {
                push_shift(&mut r, n);
            },
            Reduction::Flip => {
                push_flip(&mut r);
            },
            Reduction::ShiftFlip => {
                push_shift(&mut r, n);
                push_flip(&mut r);
            },
            Reduction::General { flip, forward, backward, .. } => {
                if flip {
                    push_flip(&mut r);
                }
                if forward {
                    push_shift(&mut r, n);
                }
                if backward {
                    r.push(Move::RotateRight(n / 2));
                    push_flip(&mut r);
                    r.push(Move::Dft);
                    r.push(Move::RotateRight(n / 2));
                }
            },
        }
        proof {
            let n = n as nat;
            assert(backward_moves(n) =~= seq![Move::RotateRight((n / 2) as usize)] + flip_moves()
                + seq![Move::Dft] + seq![Move::RotateRight((n / 2) as usize)]);
            assert(r@ =~= move_list(*self, n));
        }
        r
    }
}

fn push_flip(r: &mut Vec<Move>)
    ensures
        final(r)@ == old(r)@ + flip_moves(),
{
    r.push(Move::Reverse);
    r.push(Move::RotateRight(1));
    assert(r@ =~= old(r)@ + flip_moves());
}

fn push_shift(r: &mut Vec<Move>, n: usize)
    ensures
        final(r)@ == old(r)@ + shift_moves(n as nat),
{
    r.push(Move::RotateRight(n / 2));
    r.push(Move::Dft);
    r.push(Move::RotateRight(n / 2));
    assert(r@ =~= old(r)@ + shift_moves(n as nat));
}

/// Performs a move that only rearranges samples (anything but `Move::Dft`).
pub fn apply_permutation<T: Copy>(buf: &mut [T], m: Move)
    requires
        m != Move::Dft,
        m matches Move::RotateRight(k) ==> k <= old(buf)@.len(),
    ensures
        forall|dft: spec_fn(Seq<T>) -> Seq<T>| final(buf)@ == apply_move(m, old(buf)@, dft),
{
    match m {
        Move::RotateRight(k) => rotate_right(buf, k),
        Move::Reverse => reverse(buf),
        Move::Dft => {},
    }
}

/// Moves applied one list after another act as the joined list.
pub proof fn lemma_apply_append<T>(
    a: Seq<Move>,
    b: Seq<Move>,
    s: Seq<T>,
    dft: spec_fn(Seq<T>) -> Seq<T>,
)
    ensures
        apply_moves(a + b, s, dft) == apply_moves(b, apply_moves(a, s, dft), dft),
    decreases a.len(),
{
    if a.len() == 0 {
        assert(a + b =~= b);
    } else {
        assert((a + b).drop_first() =~= a.drop_first() + b);
        lemma_apply_append(a.drop_first(), b, apply_move(a[0], s, dft), dft);
    }
}

/// A list of one move acts as that move.
pub proof fn lemma_apply_single<T>(m: Move, s: Seq<T>, dft: spec_fn(Seq<T>) -> Seq<T>)
    ensures
        apply_moves(seq![m], s, dft) == apply_move(m, s, dft),
{
    reveal_with_fuel(apply_moves, 2);
    assert(seq![m].drop_first() =~= Seq::<Move>::empty());
}

/// The flip moves mirror the buffer about index 0.
pub proof fn lemma_flip_moves<T>(s: Seq<T>, dft: spec_fn(Seq<T>) -> Seq<T>)
    ensures
        apply_moves(flip_moves(), s, dft) == flipped(s),
{
    assert(flip_moves() =~= seq![Move::Reverse] + seq![Move::RotateRight(1)]);
    lemma_apply_append(seq![Move::Reverse], seq![Move::RotateRight(1)], s, dft);
    lemma_apply_single(Move::Reverse, s, dft);
    lemma_apply_single(Move::RotateRight(1), reversed(s), dft);
    lemma_reverse_then_rotate_one(s);
}

/// The shift moves on a buffer of `s.len()` samples are the centred forward
/// transform.
pub proof fn lemma_shift_moves<T>(s: Seq<T>, dft: spec_fn(Seq<T>) -> Seq<T>)
    requires
        s.len() <= usize::MAX,
    ensures
        apply_moves(shift_moves(s.len()), s, dft) == centred_dft(s, dft),
{
    let h = Move::RotateRight((s.len() / 2) as usize);
    assert(shift_moves(s.len()) =~= seq![h] + seq![Move::Dft] + seq![h]);
    let s1 = rotated_right(s, (s.len() / 2) as int);
    lemma_apply_append(seq![h] + seq![Move::Dft], seq![h], s, dft);
    lemma_apply_append(seq![h], seq![Move::Dft], s, dft);
    lemma_apply_single(h, s, dft);
    lemma_apply_single(Move::Dft, s1, dft);
    lemma_apply_single(h, dft(s1), dft);
}

/// The backward moves on a buffer of `s.len()` samples are the centred
/// inverse transform.
pub proof fn lemma_backward_moves<T>(s: Seq<T>, dft: spec_fn(Seq<T>) -> Seq<T>)
    requires
        s.len() <= usize::MAX,
    ensures
        apply_moves(backward_moves(s.len()), s, dft) == centred_inverse(s, dft),
{
    let h = Move::RotateRight((s.len() / 2) as usize);
    let s1 = rotated_right(s, (s.len() / 2) as int);
    let s2 = flipped(s1);
    assert(backward_moves(s.len()) =~= seq![h] + flip_moves() + seq![Move::Dft] + seq![h]);
    lemma_apply_append(seq![h] + flip_moves() + seq![Move::Dft], seq![h], s, dft);
    lemma_apply_append(seq![h] + flip_moves(), seq![Move::Dft], s, dft);
    lemma_apply_append(seq![h], flip_moves(), s, dft);
    lemma_apply_single(h, s, dft);
    lemma_flip_moves(s1, dft);
    lemma_apply_single(Move::Dft, s2, dft);
    lemma_apply_single(h, dft(s2), dft);
}

/// The moves of a general reduction perform its corrections in order: the
/// flip, then the centred forward transform, then the centred inverse one,
/// for any transform `dft` that keeps the length of what it transforms.
pub proof fn lemma_general_moves<T>(
    flip: bool,
    forward: bool,
    backward: bool,
    order: i64,
    s: Seq<T>,
    dft: spec_fn(Seq<T>) -> Seq<T>,
)
    requires
        s.len() <= usize::MAX,
        forall|x: Seq<T>| #[trigger] dft(x).len() == x.len(),
    ensures
        apply_moves(
            move_list(Reduction::General { flip, forward, backward, order }, s.len()),
            s,
            dft,
        ) == corrected(flip, forward, backward, s, dft),
{
    let n = s.len();
    let a = if flip { flip_moves() } else { seq![] };
    let b = if forward { shift_moves(n) } else { seq![] };
    let c = if backward { backward_moves(n) } else { seq![] };
    let s1 = if flip { flipped(s) } else { s };
    let s2 = if forward { centred_dft(s1, dft) } else { s1 };
    lemma_apply_append(a + b, c, s, dft);
    lemma_apply_append(a, b, s, dft);
    if flip {
        lemma_flip_moves(s, dft);
    }
    if forward {
        lemma_shift_moves(s1, dft);
    }
    if backward {
        lemma_backward_moves(s2, dft);
    }
}

/// The reduction depends on the order modulo four only: orders `a` and
/// `a + 4` are handled alike.
pub proof fn lemma_reduction_periodic(ticks: int)
    ensures
        reduction_of(ticks + period()) == reduction_of(ticks),
{
    vstd::arithmetic::div_mod::lemma_mod_add_multiples_vanish(ticks, period());
}

/// Integer orders never reach the chirp algorithm: order 0 (mod 4) leaves
/// the samples unchanged, order 1 is the centred forward transform scaled
/// by `1/n`, order 2 is time reversal about index 0, and order 3 is the
/// centred forward transform followed by that reversal, scaled by `1/n`.
pub proof fn lemma_integer_orders<T>(k: int, s: Seq<T>, dft: spec_fn(Seq<T>) -> Seq<T>)
    requires
        s.len() <= usize::MAX,
    ensures
        ({
            let r = reduction_of(k * unit());
            let out = apply_moves(move_list(r, s.len()), s, dft);
            &&& k % 4 == 0 ==> r == Reduction::Identity && out == s && scale_exponent_of(r) == 0
            &&& k % 4 == 1 ==> r == Reduction::Shift && out == centred_dft(s, dft)
                && scale_exponent_of(r) == -1
            &&& k % 4 == 2 ==> r == Reduction::Flip && out == flipped(s) && scale_exponent_of(r)
                == 0
            &&& k % 4 == 3 ==> r == Reduction::ShiftFlip && out == flipped(centred_dft(s, dft))
                && scale_exponent_of(r) == -1
        }),
{
    let u = unit();
    let q = k / 4;
    vstd::arithmetic::div_mod::lemma_fundamental_div_mod(k, 4);
    assert(k * u - q * (4 * u) == (k % 4) * u) by (nonlinear_arith)
        requires
            k == 4 * q + k % 4,
    ;
    lemma_mod_by_quotient(k * u, period(), q);
    let n = s.len();
    if k % 4 == 0 {
        assert(move_list(Reduction::Identity, n) =~= Seq::<Move>::empty());
    } else if k % 4 == 1 {
        lemma_shift_moves(s, dft);
    } else if k % 4 == 2 {
        lemma_flip_moves(s, dft);
    } else {
        lemma_shift_moves(s, dft);
        lemma_apply_append(shift_moves(n), flip_moves(), s, dft);
        lemma_flip_moves(centred_dft(s, dft), dft);
    }
}

} // verus!
