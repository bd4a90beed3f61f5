//! Algebraic laws of [Bits] operations, stated over the operations'
//! specifications.
use crate::hdl_core::bit_math::{
    lemma_seq_val_resize, lemma_seq_val_shr, lemma_val_bits, not_seq, resize_seq, seq_val, shr_seq,
    with_bits, xor_seq,
};
use crate::hdl_core::bits::Bits;
use crate::hdl_core::ordering::order_of;
use vstd::arithmetic::div_mod::*;
use vstd::arithmetic::power2::*;
use vstd::prelude::*;

verus! {

/// The well formed vector of `N` bits has exactly the given bits.
pub proof fn lemma_from_bits<const N: usize>(s: Seq<bool>)
    requires
        s.len() == N,
    ensures
        Bits::<N>::from_val(seq_val(s))@ == s,
        Bits::<N>::from_val(seq_val(s)).wf(),
{
    Bits::<N>::lemma_from_val(seq_val(s));
    lemma_val_bits(s);
}

/// Exclusive OR with the same vector twice gives back the original vector.
pub proof fn law_xor_twice<const N: usize>(x: Bits<N>, y: Bits<N>)
    requires
        x.wf(),
        y.wf(),
    ensures
        x.xor_bits(y).xor_bits(y) == x,
{
    Bits::<N>::lemma_wf_view(x);
    Bits::<N>::lemma_wf_view(y);
    let z = x.xor_bits(y);
    lemma_from_bits::<N>(xor_seq(x@, y@));
    assert(xor_seq(z@, y@) =~= x@);
    Bits::<N>::lemma_of_view(x, x@);
}

/// Inverting every bit twice gives back the original vector.
pub proof fn law_not_twice<const N: usize>(x: Bits<N>)
    requires
        x.wf(),
    ensures
        x.not_bits().not_bits() == x,
{
    Bits::<N>::lemma_wf_view(x);
    lemma_from_bits::<N>(not_seq(x@));
    assert(not_seq(x.not_bits()@) =~= x@);
    Bits::<N>::lemma_of_view(x, x@);
}

/// Wrapping addition does not depend on the order of its operands.
pub proof fn law_add_commutes<const N: usize>(x: Bits<N>, y: Bits<N>)
    ensures
        x.sum(y) == y.sum(x),
{
}

/// Subtracting what was added gives back the original vector.
pub proof fn law_sub_undoes_add<const N: usize>(x: Bits<N>, y: Bits<N>)
    requires
        x.wf(),
        y.wf(),
    ensures
        x.sum(y).difference(y) == x,
{
    Bits::<N>::lemma_wf_view(x);
    Bits::<N>::lemma_wf_view(y);
    let m = pow2(N as nat) as int;
    lemma_pow2_pos(N as nat);
    let s = x.sum(y);
    Bits::<N>::lemma_from_val(x.val() + y.val());
    lemma_small_mod(y.val(), m as nat);
    lemma_sub_mod_noop(x.val() + y.val() as int, y.val() as int, m);
    lemma_small_mod(x.val(), m as nat);
    Bits::<N>::lemma_of_val(x, x.val());
}

/// Adding what was subtracted gives back the original vector.
pub proof fn law_add_undoes_sub<const N: usize>(x: Bits<N>, y: Bits<N>)
    requires
        x.wf(),
        y.wf(),
    ensures
        x.difference(y).sum(y) == x,
{
    Bits::<N>::lemma_wf_view(x);
    Bits::<N>::lemma_wf_view(y);
    let m = pow2(N as nat) as int;
    lemma_pow2_pos(N as nat);
    let v = ((x.val() - y.val()) % m) as nat;
    Bits::<N>::lemma_from_val(v);
    lemma_small_mod(v, m as nat);
    lemma_small_mod(y.val(), m as nat);
    lemma_add_mod_noop(x.val() - y.val(), y.val() as int, m);
    lemma_small_mod(x.val(), m as nat);
    assert(x.difference(y).val() == v);
    Bits::<N>::lemma_of_val(x, v + y.val());
}

/// Widening a vector and narrowing it back gives back the original vector.
pub proof fn law_widen_then_narrow<const N: usize, const M: usize>(x: Bits<N>)
    requires
        x.wf(),
        M >= N,
    ensures
        Bits::<N>::from_val(Bits::<M>::from_val(x.val()).val()) == x,
{
    Bits::<N>::lemma_wf_view(x);
    Bits::<M>::lemma_from_val(x.val());
    if M > N {
        lemma_pow2_strictly_increases(N as nat, M as nat);
    }
    lemma_small_mod(x.val(), pow2(M as nat));
    lemma_small_mod(x.val(), pow2(N as nat));
    Bits::<N>::lemma_of_val(x, x.val());
}

/// A literal that fits keeps its value in a vector.
pub proof fn law_literal_value<const N: usize>(v: u64)
    requires
        v < pow2(N as nat),
    ensures
        Bits::<N>::from_literal(v).val() == v,
        Bits::<N>::from_literal(v).wf(),
{
    Bits::<N>::lemma_from_val(v as nat);
    lemma_small_mod(v as nat, pow2(N as nat));
}

/// Reading back the bits just replaced gives the bits written.
pub proof fn law_get_after_set<const N: usize, const M: usize>(
    x: Bits<N>,
    index: usize,
    rhs: Bits<M>,
)
    requires
        x.wf(),
        rhs.wf(),
        index + M <= N,
    ensures
        resize_seq(
            shr_seq(with_bits(x@, index as nat, rhs@), Bits::<N>::shift_amount(index as nat)),
            M as nat,
        ) == rhs@,
{
    Bits::<N>::lemma_wf_view(x);
    Bits::<M>::lemma_wf_view(rhs);
    let k = Bits::<N>::shift_amount(index as nat);
    if M > 0 {
        crate::hdl_core::bit_vec::lemma_usize_pow2();
        lemma_small_mod(index as nat, pow2(usize::BITS as nat));
        if N <= 32 {
            lemma_small_mod(index as nat, 32);
        }
        assert(k == index);
    }
    assert(resize_seq(shr_seq(with_bits(x@, index as nat, rhs@), k), M as nat) =~= rhs@);
}

/// Shifting towards bit 0 divides the value by a power of two.
pub proof fn law_shr_divides<const N: usize>(x: Bits<N>, k: Bits<N>)
    requires
        x.wf(),
        k.wf(),
    ensures
        x.shr_bits(k).val() == x.val() / pow2(Bits::<N>::shift_amount(k.val())),
{
    Bits::<N>::lemma_wf_view(x);
    let a = Bits::<N>::shift_amount(k.val());
    lemma_from_bits::<N>(shr_seq(x@, a));
    if a <= N {
        lemma_seq_val_shr(x@, a);
    } else {
        crate::hdl_core::bit_math::lemma_seq_val_zero(shr_seq(x@, a));
        lemma_pow2_strictly_increases(N as nat, a);
        lemma_pow2_pos(a);
        lemma_basic_div(x.val() as int, pow2(a) as int);
    }
}

/// Two well formed vectors that order as equal are the same vector.
pub proof fn law_order_antisymmetric<const N: usize>(x: Bits<N>, y: Bits<N>)
    requires
        x.wf(),
        y.wf(),
        x.order_with(y) == Some(core::cmp::Ordering::Equal),
    ensures
        x == y,
{
    Bits::<N>::lemma_order_with(x, y);
    Bits::<N>::lemma_val_eq(x, y);
}

} // verus!
