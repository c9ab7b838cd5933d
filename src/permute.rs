use vstd::prelude::*;

verus! {

/// `s` rotated right by `k` places: the sample at index `i` moves to
/// index `(i + k) mod len`.
pub open spec fn rotated_right<T>(s: Seq<T>, k: int) -> Seq<T> {
    Seq::new(s.len(), |i: int| s[(i - k) % (s.len() as int)])
}

/// `s` in reverse order.
pub open spec fn reversed<T>(s: Seq<T>) -> Seq<T> {
    Seq::new(s.len(), |i: int| s[s.len() - 1 - i])
}

/// `s` mirrored about index 0: index `i` takes the sample at `(len - i) mod len`.
/// This is time reversal with index 0 kept in place.
pub open spec fn flipped<T>(s: Seq<T>) -> Seq<T> {
    Seq::new(s.len(), |i: int| s[(s.len() - i) % (s.len() as int)])
}

/// `x mod n` is `x - q * n` whenever that lies in `[0, n)`.
pub proof fn lemma_mod_by_quotient(x: int, n: int, q: int)
    requires
        n > 0,
        0 <= x - q * n < n,
    ensures
        x % n == x - q * n,
{
    vstd::arithmetic::div_mod::lemma_fundamental_div_mod_converse_mod(x, n, q, x - q * n);
}

/// A copy of the samples of `buf`.
fn copy_of<T: Copy>(buf: &[T]) -> (r: Vec<T>)
    ensures
        r@ == buf@,
{
    let mut r: Vec<T> = Vec::with_capacity(buf.len());
    let mut i: usize = 0;
    while i < buf.len()
        invariant
            i <= buf@.len(),
            r@ == buf@.take(i as int),
        decreases buf@.len() - i,
    {
        r.push(buf[i]);
        i = i + 1;
        assert(r@ =~= buf@.take(i as int));
    }
    assert(r@ =~= buf@);
    r
}

/// Rotates `buf` right by `k` places in place.
pub fn rotate_right<T: Copy>(buf: &mut [T], k: usize)
    requires
        k <= old(buf)@.len(),
    ensures
        final(buf)@ == rotated_right(old(buf)@, k as int),
{
    let n: usize = buf.len();
    let tmp = copy_of(buf);
    let mut i: usize = 0;
    while i < n
        invariant
            n == buf@.len(),
            n == tmp@.len(),
            k <= n,
            tmp@ == old(buf)@,
            i <= n,
            forall|j: int| 0 <= j < i ==> buf@[j] == rotated_right(tmp@, k as int)[j],
        decreases n - i,
    {
        let src: usize = if i >= k {
            i - k
        } else {
            i + (n - k)
        };
        proof {
            if i >= k {
                lemma_mod_by_quotient(i - k, n as int, 0);
            } else {
                lemma_mod_by_quotient(i - k, n as int, -1);
            }
        }
        buf[i] = tmp[src];
        i = i + 1;
    }
    assert(buf@ =~= rotated_right(old(buf)@, k as int));
}

/// Reverses `buf` in place.
pub fn reverse<T: Copy>(buf: &mut [T])
    ensures
        final(buf)@ == reversed(old(buf)@),
{
    let n: usize = buf.len();
    let tmp = copy_of(buf);
    let mut i: usize = 0;
    while i < n
        invariant
            n == buf@.len(),
            n == tmp@.len(),
            tmp@ == old(buf)@,
            i <= n,
            forall|j: int| 0 <= j < i ==> buf@[j] == tmp@[n - 1 - j],
        decreases n - i,
    {
        buf[i] = tmp[n - 1 - i];
        i = i + 1;
    }
    assert(buf@ =~= reversed(old(buf)@));
}

/// Mirrors `buf` about index 0: a reversal followed by a rotation right
/// by one place.
pub fn flip<T: Copy>(buf: &mut [T])
    requires
        old(buf)@.len() >= 1,
    ensures
        final(buf)@ == flipped(old(buf)@),
{
    reverse(buf);
    rotate_right(buf, 1);
    proof {
        lemma_reverse_then_rotate_one(old(buf)@);
    }
}

/// A reversal followed by a rotation right by one place is the mirror
/// about index 0.
pub proof fn lemma_reverse_then_rotate_one<T>(s: Seq<T>)
    ensures
        rotated_right(reversed(s), 1) == flipped(s),
{
    let n = s.len() as int;
    assert forall|i: int| 0 <= i < n implies rotated_right(reversed(s), 1)[i] == flipped(s)[i] by {
        if i == 0 {
            lemma_mod_by_quotient(i - 1, n, -1);
            lemma_mod_by_quotient(n - i, n, 1);
        } else {
            lemma_mod_by_quotient(i - 1, n, 0);
            lemma_mod_by_quotient(n - i, n, 0);
        }
    }
    assert(rotated_right(reversed(s), 1) =~= flipped(s));
}

/// Mirroring twice gives back the original samples.
pub proof fn lemma_flip_flip<T>(s: Seq<T>)
    ensures
        flipped(flipped(s)) == s,
{
    let n = s.len() as int;
    assert forall|i: int| 0 <= i < n implies flipped(flipped(s))[i] == s[i] by {
        if i == 0 {
            lemma_mod_by_quotient(n - i, n, 1);
        } else {
            lemma_mod_by_quotient(n - i, n, 0);
            lemma_mod_by_quotient(n - (n - i), n, 0);
        }
    }
    assert(flipped(flipped(s)) =~= s);
}

} // verus!
