//! Bit vectors of any fixed width, one `bool` per bit.
use crate::hdl_core::bit_math::{
    and_seq, lemma_nat_bits_val, lemma_seq_val_bound, lemma_seq_val_injective, lemma_seq_val_not,
    lemma_seq_val_ones, lemma_seq_val_subrange_step, lemma_seq_val_take, lemma_seq_val_take_mod,
    lemma_seq_val_zero,
    lemma_take_all, nat_bit, nat_bits, not_seq, or_seq, resize_seq, seq_parity, seq_val, shl_seq,
    shr_seq, xor_seq, lemma_mod_pow2_mod,
};
use vstd::arithmetic::div_mod::*;
use vstd::arithmetic::power2::*;
use std::ops::Not;
use vstd::prelude::*;

verus! {

/// A bit vector of `N` bits; `bits[0]` is the least significant bit.
#[derive(Clone, Copy, Debug, Hash)]
pub struct BitVec<const N: usize> {
    bits: [bool; N],
}

impl<const N: usize> View for BitVec<N> {
    type V = Seq<bool>;

    /// The `N` bits, least significant first.
    closed spec fn view(&self) -> Seq<bool> {
        self.bits@
    }
}

impl<const N: usize> BitVec<N> {
    /// The unsigned number held.
    pub open spec fn val(self) -> nat {
        seq_val(self@)
    }

    /// An array whose first `k` entries are those of `s` and the rest clear.
    spec fn array_of(s: Seq<bool>, k: nat) -> [bool; N]
        decreases k,
    {
        if k == 0 {
            vstd::array::spec_array_fill_for_copy_type::<bool, N>(false)
        } else {
            vstd::array::spec_array_update(Self::array_of(s, (k - 1) as nat), k - 1, s[k - 1])
        }
    }

    proof fn lemma_array_of(s: Seq<bool>, k: nat)
        requires
            k <= N,
        ensures
            Self::array_of(s, k)@ == Seq::new(N as nat, |i: int| i < k && s[i]),
        decreases k,
    {
        broadcast use vstd::array::group_array_axioms;

        if k == 0 {
            assert(Self::array_of(s, k)@ =~= Seq::new(N as nat, |i: int| i < k && s[i]));
        } else {
            Self::lemma_array_of(s, (k - 1) as nat);
            assert(Self::array_of(s, k)@ =~= Seq::new(N as nat, |i: int| i < k && s[i]));
        }
    }

    /// The vector with the given bits (the low `N` of them, clear beyond `s`).
    pub closed spec fn from_view(s: Seq<bool>) -> Self {
        BitVec { bits: Self::array_of(s, N as nat) }
    }

    pub proof fn lemma_from_view(s: Seq<bool>)
        requires
            s.len() == N,
        ensures
            Self::from_view(s)@ == s,
    {
        Self::lemma_array_of(s, N as nat);
        assert(Self::from_view(s)@ =~= s);
    }

    /// Every vector has `N` bits, and vectors with the same bits are equal.
    pub proof fn lemma_view(a: Self)
        ensures
            a@.len() == N,
            seq_val(a@) < pow2(N as nat),
    {
        lemma_seq_val_bound(a@);
    }

    /// Vectors with the same bits are the same vector.
    pub proof fn lemma_view_eq(a: Self, b: Self)
        requires
            a@ == b@,
        ensures
            a == b,
    {
        broadcast use vstd::array::group_array_axioms;

        assert(a.bits =~= b.bits);
    }

    /// A vector is the vector of its bits.
    pub proof fn lemma_of_view(r: Self, s: Seq<bool>)
        requires
            r@ == s,
        ensures
            r == Self::from_view(s),
    {
        Self::lemma_view(r);
        Self::lemma_from_view(s);
        Self::lemma_view_eq(r, Self::from_view(s));
    }

    /// The vector holding `v mod 2^N`.
    pub open spec fn from_val(v: nat) -> Self {
        Self::from_view(nat_bits(v, N as nat))
    }

    pub proof fn lemma_from_val(v: nat)
        ensures
            Self::from_val(v)@ == nat_bits(v, N as nat),
            Self::from_val(v).val() == v % pow2(N as nat),
    {
        Self::lemma_from_view(nat_bits(v, N as nat));
        lemma_nat_bits_val(v, N as nat);
    }

    /// Vectors with one value are the same vector.
    pub proof fn lemma_val_eq(a: Self, b: Self)
        requires
            a.val() == b.val(),
        ensures
            a == b,
    {
        Self::lemma_view(a);
        Self::lemma_view(b);
        lemma_seq_val_injective(a@, b@);
        Self::lemma_view_eq(a, b);
    }

    /// A vector is the vector of its value.
    pub proof fn lemma_of_val(r: Self, v: nat)
        requires
            r.val() == v % pow2(N as nat),
        ensures
            r == Self::from_val(v),
    {
        Self::lemma_from_val(v);
        Self::lemma_val_eq(r, Self::from_val(v));
    }

    /// True when every bit is set.
    pub fn all(&self) -> (r: bool)
        ensures
            r == (forall|i: int| 0 <= i < N ==> #[trigger] self@[i]),
            r == (self.val() == pow2(N as nat) - 1),
    {
        proof {
            Self::lemma_view(*self);
            lemma_seq_val_ones(self@);
        }
        for i in 0..N
            invariant
                self@.len() == N,
                (self.val() == pow2(N as nat) - 1) == (forall|j: int|
                    0 <= j < N ==> #[trigger] self@[j]),
                forall|j: int| 0 <= j < i ==> #[trigger] self@[j],
        {
            if !self.bits[i] {
                assert(!self@[i as int]);
                return false;
            }
        }
        true
    }

    /// True when some bit is set.
    pub fn any(&self) -> (r: bool)
        ensures
            r == (exists|i: int| 0 <= i < N && #[trigger] self@[i]),
            r == (self.val() != 0),
    {
        proof {
            Self::lemma_view(*self);
            lemma_seq_val_zero(self@);
        }
        for i in 0..N
            invariant
                self@.len() == N,
                (self.val() == 0) == (forall|j: int| 0 <= j < N ==> !#[trigger] self@[j]),
                forall|j: int| 0 <= j < i ==> !#[trigger] self@[j],
        {
            if self.bits[i] {
                assert(self@[i as int]);
                return true;
            }
        }
        false
    }

    /// The exclusive OR of all bits: true when an odd number of them are set.
    pub fn xor(&self) -> (r: bool)
        ensures
            r == seq_parity(self@),
    {
        proof {
            Self::lemma_view(*self);
        }
        let mut ret = false;
        for i in 0..N
            invariant
                self@.len() == N,
                ret == seq_parity(self@.take(i as int)),
        {
            assert(self@.take(i + 1).drop_last() =~= self@.take(i as int));
            ret = ret ^ self.bits[i];
        }
        proof {
            lemma_take_all(self@);
        }
        ret
    }

    /// Bit `ndx`.
    pub fn get_bit(&self, ndx: usize) -> (r: bool)
        requires
            ndx < N,
        ensures
            r == self@[ndx as int],
    {
        self.bits[ndx]
    }

    /// The same vector with bit `ndx` set to `val`.
    pub fn replace_bit(&self, ndx: usize, val: bool) -> (r: BitVec<N>)
        requires
            ndx < N,
        ensures
            r@ == self@.update(ndx as int, val),
    {
        let mut t = self.bits;
        t[ndx] = val;
        BitVec { bits: t }
    }

    /// The low `M` bits, padded with clear bits when `M > N`.
    pub fn resize<const M: usize>(&self) -> (r: BitVec<M>)
        ensures
            r@ == resize_seq(self@, M as nat),
    {
        proof {
            Self::lemma_view(*self);
        }
        let mut t = [false; M];
        let k: usize = if M < N {
            M
        } else {
            N
        };
        for i in 0..k
            invariant
                k <= M,
                k <= N,
                t@.len() == M,
                forall|j: int| 0 <= j < i ==> #[trigger] t@[j] == self@[j],
                forall|j: int| i <= j < M ==> !#[trigger] t@[j],
        {
            t[i] = self.bits[i];
        }
        let r = BitVec { bits: t };
        assert(r@ =~= resize_seq(self@, M as nat));
        r
    }
}

impl<const N: usize> BitVec<N> {
    /// The vector of the low `N` bits of `x`.
    fn from_u128(x: u128) -> (r: Self)
        ensures
            r@ == nat_bits(x as nat, N as nat),
    {
        let mut bits = [false; N];
        let mut cur: u128 = x;
        proof {
            lemma2_to64();
        }
        for i in 0..N
            invariant
                bits@.len() == N,
                cur == x as nat / pow2(i as nat),
                forall|j: int| 0 <= j < i ==> #[trigger] bits@[j] == nat_bit(x as nat, j as nat),
        {
            proof {
                assert((cur & 1u128 != 0u128) == (cur % 2 == 1)) by (bit_vector);
                assert(cur >> 1u128 == cur / 2) by (bit_vector);
                lemma_pow2_pos(i as nat);
                lemma_div_denominator(x as int, pow2(i as nat) as int, 2);
                lemma_pow2_unfold((i + 1) as nat);
            }
            bits[i] = (cur & 1u128) != 0u128;
            cur = cur >> 1u128;
        }
        let r = BitVec { bits };
        assert(r@ =~= nat_bits(x as nat, N as nat));
        r
    }

    /// The value, reduced mod `2^128`.
    fn wrapped_u128(&self) -> (r: u128)
        ensures
            r == self.val() % pow2(128),
    {
        proof {
            Self::lemma_view(*self);
            lemma2_to64();
            lemma_pow2_adds(64, 64);
        }
        let lim: usize = if N < 128 {
            N
        } else {
            128
        };
        let mut x: u128 = 0;
        let mut k: usize = lim;
        assert(self@.subrange(k as int, lim as int) =~= Seq::<bool>::empty());
        while k > 0
            invariant
                self@.len() == N,
                k <= lim,
                lim <= N,
                lim <= 128,
                pow2(128) == u128::MAX + 1,
                x == seq_val(self@.subrange(k as int, lim as int)),
            decreases k,
        {
            k = k - 1;
            let b: u128 = if self.bits[k] {
                1
            } else {
                0
            };
            proof {
                lemma_seq_val_subrange_step(self@, k as int, lim as int);
                lemma_seq_val_bound(self@.subrange(k + 1, lim as int));
                lemma_pow2_unfold((lim - k) as nat);
                if lim - k < 128 {
                    lemma_pow2_strictly_increases((lim - k) as nat, 128);
                }
            }
            x = x * 2 + b;
        }
        proof {
            assert(self@.subrange(0, lim as int) =~= self@.take(lim as int));
            lemma_seq_val_take_mod(self@, lim as int);
            lemma_seq_val_bound(self@);
            lemma_pow2_pos(N as nat);
            if lim == N {
                lemma_small_mod(self.val(), pow2(N as nat));
                if N < 128 {
                    lemma_pow2_strictly_increases(N as nat, 128);
                }
                lemma_small_mod(self.val(), pow2(128));
            }
        }
        x
    }
}

impl<const N: usize> std::ops::Shr<usize> for BitVec<N> {
    type Output = BitVec<N>;

    /// Shifts towards bit 0, filling with clear bits.
    fn shr(self, rhs: usize) -> (r: BitVec<N>)
        ensures
            r@ == shr_seq(self@, rhs as nat),
    {
        proof {
            Self::lemma_view(self);
        }
        let mut bits = [false; N];
        let mut i = rhs;
        while i < N
            invariant
                self@.len() == N,
                bits@.len() == N,
                rhs <= i,
                i <= N || i == rhs,
                forall|j: int| 0 <= j && j + rhs < i ==> #[trigger] bits@[j] == self@[j + rhs],
                forall|j: int| 0 <= j < N && j + rhs >= i ==> !#[trigger] bits@[j],
            decreases N - i,
        {
            bits[i - rhs] = self.bits[i];
            i = i + 1;
        }
        let r = BitVec { bits };
        assert(r@ =~= shr_seq(self@, rhs as nat));
        proof {
            Self::lemma_of_view(r, shr_seq(self@, rhs as nat));
        }
        r
    }
}

impl<const N: usize> vstd::std_specs::ops::ShrSpecImpl<usize> for BitVec<N> {
    open spec fn obeys_shr_spec() -> bool {
        true
    }

    open spec fn shr_req(self, rhs: usize) -> bool {
        true
    }

    open spec fn shr_spec(self, rhs: usize) -> BitVec<N> {
        Self::from_view(shr_seq(self@, rhs as nat))
    }
}

impl<const N: usize> std::ops::Shl<usize> for BitVec<N> {
    type Output = BitVec<N>;

    /// Shifts away from bit 0, filling with clear bits.
    fn shl(self, rhs: usize) -> (r: BitVec<N>)
        ensures
            r@ == shl_seq(self@, rhs as nat),
    {
        proof {
            Self::lemma_view(self);
        }
        let mut bits = [false; N];
        let mut i = rhs;
        while i < N
            invariant
                self@.len() == N,
                bits@.len() == N,
                rhs <= i,
                forall|j: int| rhs <= j < i ==> #[trigger] bits@[j] == self@[j - rhs],
                forall|j: int| 0 <= j < N && (j < rhs || j >= i) ==> !#[trigger] bits@[j],
            decreases N - i,
        {
            bits[i] = self.bits[i - rhs];
            i = i + 1;
        }
        let r = BitVec { bits };
        assert(r@ =~= shl_seq(self@, rhs as nat));
        proof {
            Self::lemma_of_view(r, shl_seq(self@, rhs as nat));
        }
        r
    }
}

impl<const N: usize> vstd::std_specs::ops::ShlSpecImpl<usize> for BitVec<N> {
    open spec fn obeys_shl_spec() -> bool {
        true
    }

    open spec fn shl_req(self, rhs: usize) -> bool {
        true
    }

    open spec fn shl_spec(self, rhs: usize) -> BitVec<N> {
        Self::from_view(shl_seq(self@, rhs as nat))
    }
}

impl<const N: usize> std::ops::Not for BitVec<N> {
    type Output = BitVec<N>;

    fn not(self) -> (r: BitVec<N>)
        ensures
            r@ == not_seq(self@),
    {
        proof {
            Self::lemma_view(self);
        }
        let mut bits = [false; N];
        for i in 0..N
            invariant
                self@.len() == N,
                bits@.len() == N,
                forall|j: int| 0 <= j < i ==> #[trigger] bits@[j] == !self@[j],
        {
            bits[i] = !self.bits[i];
        }
        let r = BitVec { bits };
        assert(r@ =~= not_seq(self@));
        proof {
            Self::lemma_of_view(r, not_seq(self@));
        }
        r
    }
}

impl<const N: usize> vstd::std_specs::ops::NotSpecImpl for BitVec<N> {
    open spec fn obeys_not_spec() -> bool {
        true
    }

    open spec fn not_req(self) -> bool {
        true
    }

    open spec fn not_spec(self) -> BitVec<N> {
        Self::from_view(not_seq(self@))
    }
}

/// A `usize` holds `usize::BITS` bits, at most 128 of them.
pub proof fn lemma_usize_pow2()
    ensures
        pow2(usize::BITS as nat) == usize::MAX + 1,
        usize::BITS <= 128,
{
    lemma2_to64();
    assert(usize::BITS == 32 || usize::BITS == 64);
}

impl<const N: usize> From<[bool; N]> for BitVec<N> {
    fn from(x: [bool; N]) -> (r: Self)
        ensures
            r@ == x@,
    {
        let r = BitVec { bits: x };
        proof {
            Self::lemma_view(r);
            Self::lemma_of_view(r, x@);
        }
        r
    }
}

impl<const N: usize> vstd::std_specs::convert::FromSpecImpl<[bool; N]> for BitVec<N> {
    open spec fn obeys_from_spec() -> bool {
        true
    }

    open spec fn from_spec(x: [bool; N]) -> Self {
        Self::from_view(x@)
    }
}

impl<const N: usize> BitVec<N> {
    /// Combines the two vectors bit by bit with `op`.
    fn binop<F: Fn(bool, bool) -> bool>(&self, rhs: &Self, op: F) -> (r: Self)
        requires
            forall|a: bool, b: bool| #[trigger] op.requires((a, b)),
        ensures
            forall|i: int| 0 <= i < N ==> op.ensures((self@[i], rhs@[i]), #[trigger] r@[i]),
    {
        proof {
            Self::lemma_view(*self);
        }
        let mut bits = [false; N];
        for i in 0..N
            invariant
                bits@.len() == N,
                forall|a: bool, b: bool| #[trigger] op.requires((a, b)),
                forall|j: int| 0 <= j < i ==> op.ensures((self@[j], rhs@[j]), #[trigger] bits@[j]),
        {
            bits[i] = op(self.bits[i], rhs.bits[i]);
        }
        BitVec { bits }
    }
}

impl<const N: usize> std::ops::BitOr for BitVec<N> {
    type Output = BitVec<N>;

    fn bitor(self, rhs: Self) -> (r: BitVec<N>)
        ensures
            r@ == or_seq(self@, rhs@),
    {
        let r = self.binop(&rhs, |a: bool, b: bool| -> (c: bool)
            ensures
                c == (a || b),
            { a || b });
        proof {
            Self::lemma_view(self);
            Self::lemma_view(r);
            assert(r@ =~= or_seq(self@, rhs@));
            Self::lemma_of_view(r, or_seq(self@, rhs@));
        }
        r
    }
}

impl<const N: usize> vstd::std_specs::ops::BitOrSpecImpl for BitVec<N> {
    open spec fn obeys_bitor_spec() -> bool {
        true
    }

    open spec fn bitor_req(self, rhs: Self) -> bool {
        true
    }

    open spec fn bitor_spec(self, rhs: Self) -> BitVec<N> {
        Self::from_view(or_seq(self@, rhs@))
    }
}

impl<const N: usize> std::ops::BitAnd for BitVec<N> {
    type Output = BitVec<N>;

    fn bitand(self, rhs: Self) -> (r: BitVec<N>)
        ensures
            r@ == and_seq(self@, rhs@),
    {
        let r = self.binop(&rhs, |a: bool, b: bool| -> (c: bool)
            ensures
                c == (a && b),
            { a && b });
        proof {
            Self::lemma_view(self);
            Self::lemma_view(r);
            assert(r@ =~= and_seq(self@, rhs@));
            Self::lemma_of_view(r, and_seq(self@, rhs@));
        }
        r
    }
}

impl<const N: usize> vstd::std_specs::ops::BitAndSpecImpl for BitVec<N> {
    open spec fn obeys_bitand_spec() -> bool {
        true
    }

    open spec fn bitand_req(self, rhs: Self) -> bool {
        true
    }

    open spec fn bitand_spec(self, rhs: Self) -> BitVec<N> {
        Self::from_view(and_seq(self@, rhs@))
    }
}

impl<const N: usize> std::ops::BitXor for BitVec<N> {
    type Output = BitVec<N>;

    fn bitxor(self, rhs: Self) -> (r: BitVec<N>)
        ensures
            r@ == xor_seq(self@, rhs@),
    {
        let r = self.binop(&rhs, |a: bool, b: bool| -> (c: bool)
            ensures
                c == (a != b),
            { a ^ b });
        proof {
            Self::lemma_view(self);
            Self::lemma_view(r);
            assert(r@ =~= xor_seq(self@, rhs@));
            Self::lemma_of_view(r, xor_seq(self@, rhs@));
        }
        r
    }
}

impl<const N: usize> vstd::std_specs::ops::BitXorSpecImpl for BitVec<N> {
    open spec fn obeys_bitxor_spec() -> bool {
        true
    }

    open spec fn bitxor_req(self, rhs: Self) -> bool {
        true
    }

    open spec fn bitxor_spec(self, rhs: Self) -> BitVec<N> {
        Self::from_view(xor_seq(self@, rhs@))
    }
}

impl<const N: usize> From<u8> for BitVec<N> {
    /// The low `N` bits of `x`, clear above its width.
    fn from(x: u8) -> (r: Self)
        ensures
            r@ == nat_bits(x as nat, N as nat),
    {
        let r = Self::from_u128(x as u128);
        proof {
            Self::lemma_view(r);
            Self::lemma_of_view(r, nat_bits(x as nat, N as nat));
        }
        r
    }
}

impl<const N: usize> vstd::std_specs::convert::FromSpecImpl<u8> for BitVec<N> {
    open spec fn obeys_from_spec() -> bool {
        true
    }

    open spec fn from_spec(x: u8) -> Self {
        Self::from_val(x as nat)
    }
}

impl<const N: usize> From<u16> for BitVec<N> {
    /// The low `N` bits of `x`, clear above its width.
    fn from(x: u16) -> (r: Self)
        ensures
            r@ == nat_bits(x as nat, N as nat),
    {
        let r = Self::from_u128(x as u128);
        proof {
            Self::lemma_view(r);
            Self::lemma_of_view(r, nat_bits(x as nat, N as nat));
        }
        r
    }
}

impl<const N: usize> vstd::std_specs::convert::FromSpecImpl<u16> for BitVec<N> {
    open spec fn obeys_from_spec() -> bool {
        true
    }

    open spec fn from_spec(x: u16) -> Self {
        Self::from_val(x as nat)
    }
}

impl<const N: usize> From<u32> for BitVec<N> {
    /// The low `N` bits of `x`, clear above its width.
    fn from(x: u32) -> (r: Self)
        ensures
            r@ == nat_bits(x as nat, N as nat),
    {
        let r = Self::from_u128(x as u128);
        proof {
            Self::lemma_view(r);
            Self::lemma_of_view(r, nat_bits(x as nat, N as nat));
        }
        r
    }
}

impl<const N: usize> vstd::std_specs::convert::FromSpecImpl<u32> for BitVec<N> {
    open spec fn obeys_from_spec() -> bool {
        true
    }

    open spec fn from_spec(x: u32) -> Self {
        Self::from_val(x as nat)
    }
}

impl<const N: usize> From<u64> for BitVec<N> {
    /// The low `N` bits of `x`, clear above its width.
    fn from(x: u64) -> (r: Self)
        ensures
            r@ == nat_bits(x as nat, N as nat),
    {
        let r = Self::from_u128(x as u128);
        proof {
            Self::lemma_view(r);
            Self::lemma_of_view(r, nat_bits(x as nat, N as nat));
        }
        r
    }
}

impl<const N: usize> vstd::std_specs::convert::FromSpecImpl<u64> for BitVec<N> {
    open spec fn obeys_from_spec() -> bool {
        true
    }

    open spec fn from_spec(x: u64) -> Self {
        Self::from_val(x as nat)
    }
}

impl<const N: usize> From<u128> for BitVec<N> {
    /// The low `N` bits of `x`, clear above its width.
    fn from(x: u128) -> (r: Self)
        ensures
            r@ == nat_bits(x as nat, N as nat),
    {
        let r = Self::from_u128(x);
        proof {
            Self::lemma_view(r);
            Self::lemma_of_view(r, nat_bits(x as nat, N as nat));
        }
        r
    }
}

impl<const N: usize> vstd::std_specs::convert::FromSpecImpl<u128> for BitVec<N> {
    open spec fn obeys_from_spec() -> bool {
        true
    }

    open spec fn from_spec(x: u128) -> Self {
        Self::from_val(x as nat)
    }
}

impl<const N: usize> From<usize> for BitVec<N> {
    /// The low `N` bits of `x`, clear above its width.
    fn from(x: usize) -> (r: Self)
        ensures
            r@ == nat_bits(x as nat, N as nat),
    {
        let r = Self::from_u128(x as u128);
        proof {
            Self::lemma_view(r);
            Self::lemma_of_view(r, nat_bits(x as nat, N as nat));
        }
        r
    }
}

impl<const N: usize> vstd::std_specs::convert::FromSpecImpl<usize> for BitVec<N> {
    open spec fn obeys_from_spec() -> bool {
        true
    }

    open spec fn from_spec(x: usize) -> Self {
        Self::from_val(x as nat)
    }
}

impl<const N: usize> From<BitVec<N>> for u8 {
    /// The value, keeping its low 8 bits.
    fn from(t: BitVec<N>) -> (r: u8) {
        let x = t.wrapped_u128();
        proof {
            assert((x as u8) as int == (x as int) % 0x100) by (bit_vector);
            lemma2_to64();
            lemma_mod_pow2_mod(t.val() as int, 8, 128);
        }
        x as u8
    }
}

impl<const N: usize> vstd::std_specs::convert::FromSpecImpl<BitVec<N>> for u8 {
    open spec fn obeys_from_spec() -> bool {
        true
    }

    open spec fn from_spec(t: BitVec<N>) -> u8 {
        (t.val() % pow2(8)) as u8
    }
}

impl<const N: usize> From<BitVec<N>> for u16 {
    /// The value, keeping its low 16 bits.
    fn from(t: BitVec<N>) -> (r: u16) {
        let x = t.wrapped_u128();
        proof {
            assert((x as u16) as int == (x as int) % 0x10000) by (bit_vector);
            lemma2_to64();
            lemma_mod_pow2_mod(t.val() as int, 16, 128);
        }
        x as u16
    }
}

impl<const N: usize> vstd::std_specs::convert::FromSpecImpl<BitVec<N>> for u16 {
    open spec fn obeys_from_spec() -> bool {
        true
    }

    open spec fn from_spec(t: BitVec<N>) -> u16 {
        (t.val() % pow2(16)) as u16
    }
}

impl<const N: usize> From<BitVec<N>> for u32 {
    /// The value, keeping its low 32 bits.
    fn from(t: BitVec<N>) -> (r: u32) {
        let x = t.wrapped_u128();
        proof {
            assert((x as u32) as int == (x as int) % 0x100000000) by (bit_vector);
            lemma2_to64();
            lemma_mod_pow2_mod(t.val() as int, 32, 128);
        }
        x as u32
    }
}

impl<const N: usize> vstd::std_specs::convert::FromSpecImpl<BitVec<N>> for u32 {
    open spec fn obeys_from_spec() -> bool {
        true
    }

    open spec fn from_spec(t: BitVec<N>) -> u32 {
        (t.val() % pow2(32)) as u32
    }
}

impl<const N: usize> From<BitVec<N>> for u64 {
    /// The value, keeping its low 64 bits.
    fn from(t: BitVec<N>) -> (r: u64) {
        let x = t.wrapped_u128();
        proof {
            assert((x as u64) as int == (x as int) % 0x10000000000000000) by (bit_vector);
            lemma2_to64();
            lemma_mod_pow2_mod(t.val() as int, 64, 128);
        }
        x as u64
    }
}

impl<const N: usize> vstd::std_specs::convert::FromSpecImpl<BitVec<N>> for u64 {
    open spec fn obeys_from_spec() -> bool {
        true
    }

    open spec fn from_spec(t: BitVec<N>) -> u64 {
        (t.val() % pow2(64)) as u64
    }
}

impl<const N: usize> From<BitVec<N>> for u128 {
    /// The value, keeping its low 128 bits.
    fn from(t: BitVec<N>) -> (r: u128) {
        t.wrapped_u128()
    }
}

impl<const N: usize> vstd::std_specs::convert::FromSpecImpl<BitVec<N>> for u128 {
    open spec fn obeys_from_spec() -> bool {
        true
    }

    open spec fn from_spec(t: BitVec<N>) -> u128 {
        (t.val() % pow2(128)) as u128
    }
}

impl<const N: usize> From<BitVec<N>> for usize {
    /// The value, keeping as many low bits as a `usize` holds.
    fn from(t: BitVec<N>) -> (r: usize) {
        let x = t.wrapped_u128();
        proof {
            assert(usize::BITS == 64 ==> (x as usize) as int == (x as int) % 0x1_0000_0000_0000_0000)
                by (bit_vector);
            assert(usize::BITS == 32 ==> (x as usize) as int == (x as int) % 0x1_0000_0000)
                by (bit_vector);
            lemma_usize_pow2();
            lemma_mod_pow2_mod(t.val() as int, usize::BITS as nat, 128);
        }
        x as usize
    }
}

impl<const N: usize> vstd::std_specs::convert::FromSpecImpl<BitVec<N>> for usize {
    open spec fn obeys_from_spec() -> bool {
        true
    }

    open spec fn from_spec(t: BitVec<N>) -> usize {
        (t.val() % pow2(usize::BITS as nat)) as usize
    }
}

impl<const N: usize> std::ops::Add<BitVec<N>> for BitVec<N> {
    type Output = BitVec<N>;

    /// Ripple-carry addition; the carry out of the top bit is dropped.
    fn add(self, rhs: BitVec<N>) -> (r: BitVec<N>)
        ensures
            r.val() == (self.val() + rhs.val()) % pow2(N as nat),
    {
        proof {
            Self::lemma_view(self);
            Self::lemma_view(rhs);
            lemma2_to64();
        }
        let mut carry = false;
        let mut bits = [false; N];
        assert(bits@.take(0) =~= Seq::<bool>::empty());
        assert(self@.take(0) =~= Seq::<bool>::empty());
        assert(rhs@.take(0) =~= Seq::<bool>::empty());
        for i in 0..N
            invariant
                self@.len() == N,
                rhs@.len() == N,
                bits@.len() == N,
                seq_val(bits@.take(i as int)) + (if carry {
                    pow2(i as nat)
                } else {
                    0
                }) == seq_val(self@.take(i as int)) + seq_val(rhs@.take(i as int)),
        {
            let a = self.bits[i];
            let b = rhs.bits[i];
            let c_i = carry;
            let ghost old_bits = bits@;
            bits[i] = a ^ b ^ c_i;
            carry = (a && b) || (b && c_i) || (a && c_i);
            proof {
                assert(bits@.take(i as int) =~= old_bits.take(i as int));
                lemma_seq_val_take(bits@, i as int);
                lemma_seq_val_take(self@, i as int);
                lemma_seq_val_take(rhs@, i as int);
                lemma_pow2_unfold((i + 1) as nat);
            }
        }
        let r = BitVec { bits };
        proof {
            lemma_take_all(bits@);
            lemma_take_all(self@);
            lemma_take_all(rhs@);
            lemma_seq_val_bound(bits@);
            lemma_pow2_pos(N as nat);
            lemma_fundamental_div_mod_converse(
                self.val() + rhs.val() as int,
                pow2(N as nat) as int,
                if carry {
                    1
                } else {
                    0
                },
                r.val() as int,
            );
            Self::lemma_of_val(r, self.val() + rhs.val());
        }
        r
    }
}

impl<const N: usize> vstd::std_specs::ops::AddSpecImpl<BitVec<N>> for BitVec<N> {
    open spec fn obeys_add_spec() -> bool {
        true
    }

    open spec fn add_req(self, rhs: BitVec<N>) -> bool {
        true
    }

    open spec fn add_spec(self, rhs: BitVec<N>) -> BitVec<N> {
        Self::from_val(self.val() + rhs.val())
    }
}

impl<const N: usize> std::ops::Sub<BitVec<N>> for BitVec<N> {
    type Output = BitVec<N>;

    /// Two's complement subtraction: `self + !rhs + 1`.
    fn sub(self, rhs: BitVec<N>) -> (r: BitVec<N>)
        ensures
            r.val() == (self.val() - rhs.val()) % (pow2(N as nat) as int),
    {
        let one: BitVec<N> = BitVec::from(1u32);
        let nr = rhs.not();
        let s1 = self + nr;
        let r = s1 + one;
        proof {
            Self::lemma_view(self);
            Self::lemma_view(rhs);
            lemma_seq_val_not(rhs@);
            Self::lemma_from_val(1);
            Self::lemma_of_view(one, nat_bits(1, N as nat));
            let m = pow2(N as nat) as int;
            lemma_pow2_pos(N as nat);
            let a = self.val() as int;
            let b = rhs.val() as int;
            assert(nr.val() == m - 1 - b);
            lemma_add_mod_noop(a + (m - 1 - b), 1, m);
            lemma_mod_multiples_vanish(1, a - b, m);
            let v = (a - b) % m;
            lemma_small_mod(v as nat, m as nat);
            Self::lemma_of_val(r, v as nat);
        }
        r
    }
}

impl<const N: usize> vstd::std_specs::ops::SubSpecImpl<BitVec<N>> for BitVec<N> {
    open spec fn obeys_sub_spec() -> bool {
        true
    }

    open spec fn sub_req(self, rhs: BitVec<N>) -> bool {
        true
    }

    open spec fn sub_spec(self, rhs: BitVec<N>) -> BitVec<N> {
        Self::from_val(((self.val() - rhs.val()) % (pow2(N as nat) as int)) as nat)
    }
}

impl<const N: usize, const M: usize> std::ops::Shr<BitVec<M>> for BitVec<N> {
    type Output = BitVec<N>;

    /// Shifts towards bit 0 by the value of `rhs`, as far as a `usize` holds it.
    fn shr(self, rhs: BitVec<M>) -> (r: BitVec<N>)
        ensures
            r@ == shr_seq(self@, rhs.val() % pow2(usize::BITS as nat)),
    {
        let k: usize = usize::from(rhs);
        proof {
            lemma_usize_pow2();
            lemma_pow2_pos(usize::BITS as nat);
            assert(k as nat == rhs.val() % pow2(usize::BITS as nat));
        }
        self >> k
    }
}

impl<const N: usize, const M: usize> vstd::std_specs::ops::ShrSpecImpl<BitVec<M>> for BitVec<N> {
    open spec fn obeys_shr_spec() -> bool {
        true
    }

    open spec fn shr_req(self, rhs: BitVec<M>) -> bool {
        true
    }

    open spec fn shr_spec(self, rhs: BitVec<M>) -> BitVec<N> {
        Self::from_view(shr_seq(self@, rhs.val() % pow2(usize::BITS as nat)))
    }
}

impl<const N: usize, const M: usize> std::ops::Shl<BitVec<M>> for BitVec<N> {
    type Output = BitVec<N>;

    /// Shifts away from bit 0 by the value of `rhs`, as far as a `usize` holds it.
    fn shl(self, rhs: BitVec<M>) -> (r: BitVec<N>)
        ensures
            r@ == shl_seq(self@, rhs.val() % pow2(usize::BITS as nat)),
    {
        let k: usize = usize::from(rhs);
        proof {
            lemma_usize_pow2();
            lemma_pow2_pos(usize::BITS as nat);
            assert(k as nat == rhs.val() % pow2(usize::BITS as nat));
        }
        self << k
    }
}

impl<const N: usize, const M: usize> vstd::std_specs::ops::ShlSpecImpl<BitVec<M>> for BitVec<N> {
    open spec fn obeys_shl_spec() -> bool {
        true
    }

    open spec fn shl_req(self, rhs: BitVec<M>) -> bool {
        true
    }

    open spec fn shl_spec(self, rhs: BitVec<M>) -> BitVec<N> {
        Self::from_view(shl_seq(self@, rhs.val() % pow2(usize::BITS as nat)))
    }
}

impl<const N: usize> PartialEq for BitVec<N> {
    fn eq(&self, other: &Self) -> (r: bool) {
        proof {
            Self::lemma_view(*self);
            Self::lemma_view(*other);
        }
        for i in 0..N
            invariant
                self@.len() == N,
                other@.len() == N,
                forall|j: int| 0 <= j < i ==> #[trigger] self@[j] == other@[j],
        {
            if self.bits[i] != other.bits[i] {
                assert(self@[i as int] != other@[i as int]);
                return false;
            }
        }
        assert(self@ =~= other@);
        true
    }
}

impl<const N: usize> vstd::std_specs::cmp::PartialEqSpecImpl for BitVec<N> {
    open spec fn obeys_eq_spec() -> bool {
        true
    }

    open spec fn eq_spec(&self, other: &Self) -> bool {
        self@ == other@
    }
}

} // verus!
