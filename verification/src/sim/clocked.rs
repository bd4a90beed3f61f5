//! Register arithmetic shared by the clocked models: a model's `update`
//! reads the values its flip-flops hold and gives the values they take at
//! the next clock edge.
use crate::hdl_core::bits::Bits;
use vstd::arithmetic::div_mod::*;
use vstd::arithmetic::power2::*;
use vstd::prelude::*;

verus! {

/// The vector of all clear bits.
pub open spec fn zero<const N: usize>() -> Bits<N> {
    Bits::<N>::from_val(0)
}

/// `x + 1`, wrapping at `2^N`, as a counter register counts.
pub open spec fn incremented<const N: usize>(x: Bits<N>) -> Bits<N> {
    x.sum(Bits::<N>::from_val(1))
}

/// `x - k`, wrapping at `2^N`.
pub open spec fn decreased<const N: usize>(x: Bits<N>, k: nat) -> Bits<N> {
    x.difference(Bits::<N>::from_val(k))
}

/// The `M` bits of `x` from bit `lo` up; bits past the top of `x` read
/// as clear.
pub open spec fn bit_field<const M: usize, const N: usize>(x: Bits<N>, lo: nat) -> Bits<M> {
    Bits::<M>::from_val(x.val() / pow2(lo))
}

/// The `M` bits of `x` from bit `lo` up.
pub fn field<const M: usize, const N: usize>(x: &Bits<N>, lo: usize) -> (r: Bits<M>)
    requires
        x.wf(),
        lo < N,
    ensures
        r.wf(),
        r == bit_field::<M, N>(*x, lo as nat),
{
    let r = x.get_bits::<M>(lo);
    proof {
        if N <= 32 {
            lemma_small_mod(lo as nat, 32);
        } else {
            crate::hdl_core::bit_vec::lemma_usize_pow2();
            lemma_pow2_pos(usize::BITS as nat);
            lemma_small_mod(lo as nat, pow2(usize::BITS as nat));
        }
        Bits::<M>::lemma_of_val(r, x.val() / pow2(lo as nat));
    }
    r
}

/// The clear vector is well formed and holds 0.
pub proof fn lemma_zero<const N: usize>()
    ensures
        zero::<N>().wf(),
        zero::<N>().val() == 0,
{
    lemma_pow2_pos(N as nat);
    Bits::<N>::lemma_from_val(0);
}

/// A counter register counts by one, wrapping at `2^N`.
pub proof fn lemma_incremented<const N: usize>(x: Bits<N>)
    ensures
        incremented(x).wf(),
        incremented(x).val() == (x.val() + 1) % pow2(N as nat),
{
    lemma_pow2_pos(N as nat);
    Bits::<N>::lemma_from_val(1);
    Bits::<N>::lemma_from_val(x.val() + Bits::<N>::from_val(1).val());
    lemma_add_mod_noop_right(x.val() as int, 1, pow2(N as nat) as int);
}

/// A counter register counts down by `k` without wrapping when it holds at
/// least `k`.
pub proof fn lemma_decreased<const N: usize>(x: Bits<N>, k: nat)
    requires
        x.wf(),
        k <= x.val(),
    ensures
        decreased(x, k).wf(),
        decreased(x, k).val() == x.val() - k,
{
    Bits::<N>::lemma_wf_view(x);
    Bits::<N>::lemma_from_val(k);
    lemma_small_mod(k, pow2(N as nat));
    lemma_small_mod((x.val() - k) as nat, pow2(N as nat));
    Bits::<N>::lemma_from_val((x.val() - k) as nat);
}

/// Unsigned `a < b` on register values.
pub fn below<const N: usize>(a: &Bits<N>, b: &Bits<N>) -> (r: bool)
    requires
        a.wf(),
        b.wf(),
    ensures
        r == (a.val() < b.val()),
{
    let r = *a < *b;
    proof {
        Bits::<N>::lemma_order_with(*a, *b);
    }
    r
}

/// `a == b` on register values.
pub fn same<const N: usize>(a: &Bits<N>, b: &Bits<N>) -> (r: bool)
    requires
        a.wf(),
        b.wf(),
    ensures
        r == (a.val() == b.val()),
        r == (*a == *b),
{
    let r = *a == *b;
    proof {
        Bits::<N>::law_eq_matches_values(*a, *b);
    }
    r
}

} // verus!
