//! Bit vectors of at most 32 bits, held in one machine word.
use crate::hdl_core::bit_math::{
    lemma_bv_set, lemma_bv_shift_step, lemma_seq_val_bound, lemma_seq_val_ones,
    lemma_seq_val_take, lemma_seq_val_zero, lemma_take_all, lemma_u32_bits_nat,
    lemma_u32_bits_val, lemma_u32_high_bits_clear, lemma_u32_mask, seq_parity, seq_val, u32_bit,
    u32_bits, lemma_bv_and, lemma_bv_not, lemma_bv_or, lemma_bv_shl, lemma_bv_shr, lemma_bv_xor,
    lemma_mod_pow2_mod, lemma_mod_pow2_shift, and_seq, not_seq, or_seq, shl_seq, shr_seq, xor_seq,
};
use vstd::arithmetic::div_mod::*;
use vstd::arithmetic::power2::*;
use vstd::bits::*;
use vstd::prelude::*;

verus! {

/// The machine word that holds a short bit vector.
pub type ShortType = u32;

/// Widths up to this many bits are held in a single [ShortType].
pub const SHORT_BITS: usize = 32;

/// A bit vector of `N <= 32` bits kept in the low bits of a word; the bits
/// above `N` are always clear.
#[derive(Clone, Copy, Debug, Hash)]
pub struct ShortBitVec<const N: usize>(ShortType);

impl<const N: usize> View for ShortBitVec<N> {
    type V = Seq<bool>;

    /// The `N` bits, least significant first.
    open spec fn view(&self) -> Seq<bool> {
        u32_bits(self.word(), N as nat)
    }
}

impl<const N: usize> ShortBitVec<N> {
    /// The word that holds the bits.
    pub closed spec fn word(self) -> u32 {
        self.0
    }

    /// No bit at or above the width is ever set: every vector, however it
    /// was made, holds a word below `2^N`.
    #[verifier::type_invariant]
    closed spec fn high_bits_clear(self) -> bool {
        self.0 < pow2(N as nat)
    }

    /// A short vector is well formed when its width fits in a word and no
    /// bit above the width is set.
    pub open spec fn wf(self) -> bool {
        N <= 32 && self.word() < pow2(N as nat)
    }

    /// The unsigned number held.
    pub open spec fn val(self) -> nat {
        self.word() as nat
    }

    /// The word with the low `N` bits set (all bits from 32 on).
    pub open spec fn mask_word() -> u32 {
        if N >= 32 {
            0xffff_ffffu32
        } else {
            (pow2(N as nat) - 1) as u32
        }
    }

    /// The vector that keeps the low `N` bits of a word.
    pub closed spec fn from_word(t: u32) -> Self {
        ShortBitVec(t & Self::mask_word())
    }

    /// Shortening a word to `N` bits keeps its value mod `2^N` and its low bits.
    pub proof fn lemma_from_word(t: u32)
        requires
            N <= 32,
        ensures
            Self::from_word(t).wf(),
            Self::from_word(t).val() == t as nat % pow2(N as nat),
            Self::from_word(t)@ == u32_bits(t, N as nat),
    {
        lemma2_to64();
        if N < 32 {
            lemma_u32_pow2_no_overflow(N as nat);
        }
        lemma_u32_mask(t, Self::mask_word(), N as nat);
        lemma_pow2_pos(N as nat);
    }

    /// The vector whose value is `v mod 2^N`.
    pub closed spec fn from_val(v: nat) -> Self {
        ShortBitVec((v % pow2(N as nat)) as u32)
    }

    pub proof fn lemma_from_val(v: nat)
        requires
            N <= 32,
        ensures
            Self::from_val(v).wf(),
            Self::from_val(v).val() == v % pow2(N as nat),
    {
        lemma2_to64();
        lemma_pow2_pos(N as nat);
        if N < 32 {
            lemma_pow2_strictly_increases(N as nat, 32);
        }
    }

    /// Well formed short vectors with one value are the same vector.
    pub proof fn lemma_val_eq(a: Self, b: Self)
        requires
            a.wf(),
            b.wf(),
            a.val() == b.val(),
        ensures
            a == b,
    {
    }

    /// A well formed vector is the vector of its bits.
    pub proof fn lemma_spec_of_view(r: Self, s: Seq<bool>)
        requires
            r.wf(),
            r@ == s,
        ensures
            r == Self::from_val(seq_val(s)),
    {
        Self::lemma_view_val(r);
        lemma_seq_val_bound(s);
        Self::lemma_from_val(seq_val(s));
        lemma_pow2_pos(N as nat);
        lemma_small_mod(seq_val(s), pow2(N as nat));
    }

    /// The bits of a well formed vector stand for its value, and determine it.
    pub proof fn lemma_view_val(a: Self)
        requires
            a.wf(),
        ensures
            a@.len() == N,
            seq_val(a@) == a.val(),
    {
        lemma_u32_bits_val(a.word(), N as nat);
    }

    /// The word that holds the bits; it is below `2^N`, whatever produced
    /// the vector.
    pub fn short(&self) -> (r: ShortType)
        ensures
            r == self.word(),
            r < pow2(N as nat),
    {
        proof {
            use_type_invariant(self);
        }
        self.0
    }

    /// The same vector with bit `index` set to `val`.
    pub fn replace_bit(&self, index: usize, val: bool) -> (r: Self)
        requires
            self.wf(),
            index < N,
        ensures
            r.wf(),
            r@ == self@.update(index as int, val),
    {
        let m: ShortType = 1u32 << (index as u32);
        let w = if val {
            self.0 | m
        } else {
            self.0 & !m
        };
        proof {
            let x = self.0;
            let k = index as u32;
            assert forall|i: int| 0 <= i < N implies #[trigger] u32_bits(w, N as nat)[i]
                == self@.update(index as int, val)[i] by {
                lemma_bv_set(x, k, i as u32);
            }
            assert(u32_bits(w, N as nat) =~= self@.update(index as int, val));
            Self::lemma_view_val(*self);
            lemma_seq_val_bound(u32_bits(w, N as nat));
            assert forall|j: int| N <= j < 32 implies !u32_bit(w, j) by {
                lemma_u32_high_bits_clear(x, N as nat, j);
                lemma_bv_set(x, k, j as u32);
            }
            Self::lemma_low_bits_word(w);
        }
        ShortBitVec(w)
    }

    /// A word whose bits from `N` on are clear is below `2^N`.
    proof fn lemma_low_bits_word(w: u32)
        requires
            N <= 32,
            forall|j: int| N <= j < 32 ==> !u32_bit(w, j),
        ensures
            w < pow2(N as nat),
    {
        lemma2_to64();
        lemma_u32_bits_nat(w, 32);
        lemma_small_mod(w as nat, pow2(32));
        lemma_seq_val_bound(u32_bits(w, N as nat));
        assert(u32_bits(w, 32).take(N as int) =~= u32_bits(w, N as nat));
        Self::lemma_high_zero_take(u32_bits(w, 32), N as int);
    }

    /// A sequence whose bits from `k` on are clear has the value of its first `k` bits.
    proof fn lemma_high_zero_take(s: Seq<bool>, k: int)
        requires
            0 <= k <= s.len(),
            forall|j: int| k <= j < s.len() ==> !s[j],
        ensures
            seq_val(s) == seq_val(s.take(k)),
        decreases s.len() - k,
    {
        if k == s.len() {
            lemma_take_all(s);
        } else {
            Self::lemma_high_zero_take(s, k + 1);
            lemma_seq_val_take(s, k);
        }
    }

    /// Whether bit `index` is set; bits from `N` up to the word size read as clear.
    pub fn get_bit(&self, index: usize) -> (r: bool)
        requires
            self.wf(),
            index < 32,
        ensures
            r == (index < N && self@[index as int]),
    {
        let m: ShortType = 1u32 << (index as u32);
        let r = self.0 & m != 0;
        proof {
            lemma_bv_set(self.0, index as u32, index as u32);
            if index >= N {
                lemma_u32_high_bits_clear(self.0, N as nat, index as int);
            }
        }
        r
    }

    /// The word with the low `N` bits set.
    pub(crate) fn bit_mask() -> (r: ShortType)
        ensures
            r == Self::mask_word(),
    {
        if N >= SHORT_BITS {
            assert(!0u32 == 0xffff_ffffu32) by (bit_vector);
            !0u32
        } else {
            proof {
                lemma_u32_pow2_no_overflow(N as nat);
                lemma_u32_shl_is_mul(1u32, N as u32);
            }
            (1u32 << (N as u32)) - 1
        }
    }

    /// The vector with all `N` bits set.
    pub fn mask() -> (r: Self)
        requires
            N <= 32,
        ensures
            r.wf(),
            forall|i: int| 0 <= i < N ==> #[trigger] r@[i],
            r.val() == pow2(N as nat) - 1,
    {
        let r = Self::from(Self::bit_mask());
        proof {
            Self::lemma_from_word(Self::mask_word());
            lemma2_to64();
            lemma_pow2_pos(N as nat);
            if N < 32 {
                lemma_u32_pow2_no_overflow(N as nat);
            }
            lemma_small_mod((pow2(N as nat) - 1) as nat, pow2(N as nat));
            Self::lemma_view_val(r);
            lemma_seq_val_ones(r@);
        }
        r
    }

    /// True when some bit is set.
    pub fn any(&self) -> (r: bool)
        requires
            self.wf(),
        ensures
            r == (exists|i: int| 0 <= i < N && #[trigger] self@[i]),
            r == (self.val() != 0),
    {
        proof {
            Self::lemma_view_val(*self);
            lemma_seq_val_zero(self@);
        }
        self.0 != 0
    }

    /// True when every bit is set.
    pub fn all(&self) -> (r: bool)
        requires
            self.wf(),
        ensures
            r == (forall|i: int| 0 <= i < N ==> #[trigger] self@[i]),
            r == (self.val() == pow2(N as nat) - 1),
    {
        proof {
            Self::lemma_view_val(*self);
            lemma_seq_val_ones(self@);
            lemma2_to64();
            lemma_pow2_pos(N as nat);
            if N < 32 {
                lemma_u32_pow2_no_overflow(N as nat);
            }
        }
        self.0 == Self::bit_mask()
    }

    /// The exclusive OR of all bits: true when an odd number of them are set.
    pub fn xor(&self) -> (r: bool)
        requires
            self.wf(),
        ensures
            r == seq_parity(self@),
    {
        let mut ret = false;
        let mut x: u32 = self.0;
        let mut i: usize = 0;
        proof {
            let w = self.word();
            assert(w == w >> 0u32) by (bit_vector);
        }
        while i < N
            invariant
                N <= 32,
                i <= N,
                x == self.word() >> (i as u32),
                ret == seq_parity(self@.take(i as int)),
            decreases N - i,
        {
            proof {
                assert(self@.take(i + 1).drop_last() =~= self@.take(i as int));
                lemma_bv_shift_step(self.word(), i as u32);
            }
            ret = ret ^ (x & 1u32 != 0);
            x = x >> 1u32;
            i = i + 1;
        }
        proof {
            lemma_take_all(self@);
        }
        ret
    }
}

impl<const N: usize> From<ShortType> for ShortBitVec<N> {
    /// Keeps the low `N` bits of the word.
    fn from(t: ShortType) -> (r: Self)
        ensures
            r == Self::from_word(t),
    {
        let w = t & Self::bit_mask();
        proof {
            if N <= 32 {
                Self::lemma_from_word(t);
            } else {
                lemma2_to64();
                lemma_pow2_strictly_increases(32, N as nat);
            }
        }
        ShortBitVec(w)
    }
}

impl<const N: usize> vstd::std_specs::convert::FromSpecImpl<ShortType> for ShortBitVec<N> {
    open spec fn obeys_from_spec() -> bool {
        true
    }

    open spec fn from_spec(t: ShortType) -> Self {
        Self::from_word(t)
    }
}

impl<const N: usize> From<ShortBitVec<N>> for ShortType {
    fn from(t: ShortBitVec<N>) -> (r: ShortType) {
        t.0
    }
}

impl<const N: usize> vstd::std_specs::convert::FromSpecImpl<ShortBitVec<N>> for ShortType {
    open spec fn obeys_from_spec() -> bool {
        true
    }

    open spec fn from_spec(t: ShortBitVec<N>) -> ShortType {
        t.word()
    }
}

impl<const N: usize> From<ShortBitVec<N>> for usize {
    fn from(t: ShortBitVec<N>) -> (r: usize) {
        t.0 as usize
    }
}

impl<const N: usize> vstd::std_specs::convert::FromSpecImpl<ShortBitVec<N>> for usize {
    open spec fn obeys_from_spec() -> bool {
        true
    }

    open spec fn from_spec(t: ShortBitVec<N>) -> usize {
        t.word() as usize
    }
}

impl<const N: usize> std::ops::Add<ShortBitVec<N>> for ShortBitVec<N> {
    type Output = ShortBitVec<N>;

    /// Wrapping addition: the carry out of bit `N - 1` is dropped.
    fn add(self, rhs: ShortBitVec<N>) -> (r: ShortBitVec<N>)
        ensures
            r.wf(),
            r.val() == (self.val() + rhs.val()) % pow2(N as nat),
    {
        let w = self.0.wrapping_add(rhs.0);
        let r = Self::from(w);
        proof {
            Self::lemma_from_word(w);
            lemma2_to64();
            lemma_mod_pow2_shift(self.val() + rhs.val() as int, N as nat, 32);
            Self::lemma_from_val(self.val() + rhs.val());
        }
        r
    }
}

impl<const N: usize> vstd::std_specs::ops::AddSpecImpl<ShortBitVec<N>> for ShortBitVec<N> {
    open spec fn obeys_add_spec() -> bool {
        true
    }

    open spec fn add_req(self, rhs: ShortBitVec<N>) -> bool {
        self.wf() && rhs.wf()
    }

    open spec fn add_spec(self, rhs: ShortBitVec<N>) -> ShortBitVec<N> {
        Self::from_val(self.val() + rhs.val())
    }
}

impl<const N: usize> std::ops::Sub<ShortBitVec<N>> for ShortBitVec<N> {
    type Output = ShortBitVec<N>;

    /// Two's complement subtraction: `self + !rhs + 1`, wrapping.
    fn sub(self, rhs: ShortBitVec<N>) -> (r: ShortBitVec<N>)
        ensures
            r.wf(),
            r.val() == (self.val() - rhs.val()) % (pow2(N as nat) as int),
    {
        let a = self.0;
        let b = rhs.0;
        let w = a.wrapping_add(!b).wrapping_add(1u32);
        proof {
            assert((!b) as int == 0xffff_ffff - b as int) by (bit_vector);
            if a >= b {
                assert(w as int == a - b);
            } else {
                assert(w as int == a - b + 0x1_0000_0000);
            }
            lemma2_to64();
            lemma_mod_pow2_shift(a - b, N as nat, 32);
        }
        let r = Self::from(w);
        proof {
            Self::lemma_from_word(w);
            lemma_pow2_pos(N as nat);
            let v = (a - b) % (pow2(N as nat) as int);
            Self::lemma_from_val(v as nat);
            lemma_small_mod(v as nat, pow2(N as nat));
        }
        r
    }
}

impl<const N: usize> vstd::std_specs::ops::SubSpecImpl<ShortBitVec<N>> for ShortBitVec<N> {
    open spec fn obeys_sub_spec() -> bool {
        true
    }

    open spec fn sub_req(self, rhs: ShortBitVec<N>) -> bool {
        self.wf() && rhs.wf()
    }

    open spec fn sub_spec(self, rhs: ShortBitVec<N>) -> ShortBitVec<N> {
        Self::from_val(((self.val() - rhs.val()) % (pow2(N as nat) as int)) as nat)
    }
}

impl<const N: usize> std::ops::BitOr<ShortBitVec<N>> for ShortBitVec<N> {
    type Output = ShortBitVec<N>;

    fn bitor(self, rhs: ShortBitVec<N>) -> (r: ShortBitVec<N>)
        ensures
            r.wf(),
            r@ == or_seq(self@, rhs@),
    {
        let w = self.0 | rhs.0;
        let r = Self::from(w);
        proof {
            Self::lemma_from_word(w);
            assert forall|i: int| 0 <= i < N implies #[trigger] r@[i] == or_seq(self@, rhs@)[i] by {
                lemma_bv_or(self.0, rhs.0, i as u32);
            }
            assert(r@ =~= or_seq(self@, rhs@));
            Self::lemma_spec_of_view(r, or_seq(self@, rhs@));
        }
        r
    }
}

impl<const N: usize> vstd::std_specs::ops::BitOrSpecImpl<ShortBitVec<N>> for ShortBitVec<N> {
    open spec fn obeys_bitor_spec() -> bool {
        true
    }

    open spec fn bitor_req(self, rhs: ShortBitVec<N>) -> bool {
        self.wf() && rhs.wf()
    }

    open spec fn bitor_spec(self, rhs: ShortBitVec<N>) -> ShortBitVec<N> {
        Self::from_val(seq_val(or_seq(self@, rhs@)))
    }
}

impl<const N: usize> std::ops::BitAnd<ShortBitVec<N>> for ShortBitVec<N> {
    type Output = ShortBitVec<N>;

    fn bitand(self, rhs: ShortBitVec<N>) -> (r: ShortBitVec<N>)
        ensures
            r.wf(),
            r@ == and_seq(self@, rhs@),
    {
        let w = self.0 & rhs.0;
        let r = Self::from(w);
        proof {
            Self::lemma_from_word(w);
            assert forall|i: int| 0 <= i < N implies #[trigger] r@[i] == and_seq(self@, rhs@)[i] by {
                lemma_bv_and(self.0, rhs.0, i as u32);
            }
            assert(r@ =~= and_seq(self@, rhs@));
            Self::lemma_spec_of_view(r, and_seq(self@, rhs@));
        }
        r
    }
}

impl<const N: usize> vstd::std_specs::ops::BitAndSpecImpl<ShortBitVec<N>> for ShortBitVec<N> {
    open spec fn obeys_bitand_spec() -> bool {
        true
    }

    open spec fn bitand_req(self, rhs: ShortBitVec<N>) -> bool {
        self.wf() && rhs.wf()
    }

    open spec fn bitand_spec(self, rhs: ShortBitVec<N>) -> ShortBitVec<N> {
        Self::from_val(seq_val(and_seq(self@, rhs@)))
    }
}

impl<const N: usize> std::ops::BitXor<ShortBitVec<N>> for ShortBitVec<N> {
    type Output = ShortBitVec<N>;

    fn bitxor(self, rhs: ShortBitVec<N>) -> (r: ShortBitVec<N>)
        ensures
            r.wf(),
            r@ == xor_seq(self@, rhs@),
    {
        let w = self.0 ^ rhs.0;
        let r = Self::from(w);
        proof {
            Self::lemma_from_word(w);
            assert forall|i: int| 0 <= i < N implies #[trigger] r@[i] == xor_seq(self@, rhs@)[i] by {
                lemma_bv_xor(self.0, rhs.0, i as u32);
            }
            assert(r@ =~= xor_seq(self@, rhs@));
            Self::lemma_spec_of_view(r, xor_seq(self@, rhs@));
        }
        r
    }
}

impl<const N: usize> vstd::std_specs::ops::BitXorSpecImpl<ShortBitVec<N>> for ShortBitVec<N> {
    open spec fn obeys_bitxor_spec() -> bool {
        true
    }

    open spec fn bitxor_req(self, rhs: ShortBitVec<N>) -> bool {
        self.wf() && rhs.wf()
    }

    open spec fn bitxor_spec(self, rhs: ShortBitVec<N>) -> ShortBitVec<N> {
        Self::from_val(seq_val(xor_seq(self@, rhs@)))
    }
}

impl<const N: usize> std::ops::Not for ShortBitVec<N> {
    type Output = ShortBitVec<N>;

    fn not(self) -> (r: ShortBitVec<N>)
        ensures
            r.wf(),
            r@ == not_seq(self@),
    {
        let w = !self.0;
        let r = Self::from(w);
        proof {
            Self::lemma_from_word(w);
            assert forall|i: int| 0 <= i < N implies #[trigger] r@[i] == not_seq(self@)[i] by {
                lemma_bv_not(self.0, i as u32);
            }
            assert(r@ =~= not_seq(self@));
            Self::lemma_spec_of_view(r, not_seq(self@));
        }
        r
    }
}

impl<const N: usize> vstd::std_specs::ops::NotSpecImpl for ShortBitVec<N> {
    open spec fn obeys_not_spec() -> bool {
        true
    }

    open spec fn not_req(self) -> bool {
        self.wf()
    }

    open spec fn not_spec(self) -> ShortBitVec<N> {
        Self::from_val(seq_val(not_seq(self@)))
    }
}

impl<const N: usize> std::ops::Shr<usize> for ShortBitVec<N> {
    type Output = ShortBitVec<N>;

    /// Shifts towards bit 0 by `rhs mod 32`, as a wrapping shift of the word does.
    fn shr(self, rhs: usize) -> (r: ShortBitVec<N>)
        ensures
            r.wf(),
            r@ == shr_seq(self@, (rhs % 32) as nat),
    {
        let k = (rhs % 32) as u32;
        let w = self.0 >> k;
        let r = Self::from(w);
        proof {
            Self::lemma_from_word(w);
            assert forall|i: int| 0 <= i < N implies #[trigger] r@[i] == shr_seq(self@, k as nat)[i] by {
                lemma_bv_shr(self.0, k, i as u32);
                if i + k >= N && i + k < 32 {
                    lemma_u32_high_bits_clear(self.0, N as nat, i + k);
                }
            }
            assert(r@ =~= shr_seq(self@, k as nat));
            Self::lemma_spec_of_view(r, shr_seq(self@, k as nat));
        }
        r
    }
}

impl<const N: usize> vstd::std_specs::ops::ShrSpecImpl<usize> for ShortBitVec<N> {
    open spec fn obeys_shr_spec() -> bool {
        true
    }

    open spec fn shr_req(self, rhs: usize) -> bool {
        self.wf()
    }

    open spec fn shr_spec(self, rhs: usize) -> ShortBitVec<N> {
        Self::from_val(seq_val(shr_seq(self@, (rhs % 32) as nat)))
    }
}

impl<const N: usize> std::ops::Shl<usize> for ShortBitVec<N> {
    type Output = ShortBitVec<N>;

    /// Shifts away from bit 0 by `rhs mod 32`, as a wrapping shift of the word does.
    fn shl(self, rhs: usize) -> (r: ShortBitVec<N>)
        ensures
            r.wf(),
            r@ == shl_seq(self@, (rhs % 32) as nat),
    {
        let k = (rhs % 32) as u32;
        let w = self.0 << k;
        let r = Self::from(w);
        proof {
            Self::lemma_from_word(w);
            assert forall|i: int| 0 <= i < N implies #[trigger] r@[i] == shl_seq(self@, k as nat)[i] by {
                lemma_bv_shl(self.0, k, i as u32);
            }
            assert(r@ =~= shl_seq(self@, k as nat));
            Self::lemma_spec_of_view(r, shl_seq(self@, k as nat));
        }
        r
    }
}

impl<const N: usize> vstd::std_specs::ops::ShlSpecImpl<usize> for ShortBitVec<N> {
    open spec fn obeys_shl_spec() -> bool {
        true
    }

    open spec fn shl_req(self, rhs: usize) -> bool {
        self.wf()
    }

    open spec fn shl_spec(self, rhs: usize) -> ShortBitVec<N> {
        Self::from_val(seq_val(shl_seq(self@, (rhs % 32) as nat)))
    }
}

impl<const M: usize, const N: usize> std::ops::Shr<ShortBitVec<M>> for ShortBitVec<N> {
    type Output = ShortBitVec<N>;

    /// Shifts by the value of another short vector.
    fn shr(self, rhs: ShortBitVec<M>) -> (r: ShortBitVec<N>)
        ensures
            r.wf(),
            r@ == shr_seq(self@, (rhs.val() % 32) as nat),
    {
        let k: usize = rhs.into();
        self >> k
    }
}

impl<const M: usize, const N: usize> vstd::std_specs::ops::ShrSpecImpl<ShortBitVec<M>> for ShortBitVec<N> {
    open spec fn obeys_shr_spec() -> bool {
        true
    }

    open spec fn shr_req(self, rhs: ShortBitVec<M>) -> bool {
        self.wf() && rhs.wf()
    }

    open spec fn shr_spec(self, rhs: ShortBitVec<M>) -> ShortBitVec<N> {
        Self::from_val(seq_val(shr_seq(self@, (rhs.val() % 32) as nat)))
    }
}

impl<const M: usize, const N: usize> std::ops::Shl<ShortBitVec<M>> for ShortBitVec<N> {
    type Output = ShortBitVec<N>;

    /// Shifts by the value of another short vector.
    fn shl(self, rhs: ShortBitVec<M>) -> (r: ShortBitVec<N>)
        ensures
            r.wf(),
            r@ == shl_seq(self@, (rhs.val() % 32) as nat),
    {
        let k: usize = rhs.into();
        self << k
    }
}

impl<const M: usize, const N: usize> vstd::std_specs::ops::ShlSpecImpl<ShortBitVec<M>> for ShortBitVec<N> {
    open spec fn obeys_shl_spec() -> bool {
        true
    }

    open spec fn shl_req(self, rhs: ShortBitVec<M>) -> bool {
        self.wf() && rhs.wf()
    }

    open spec fn shl_spec(self, rhs: ShortBitVec<M>) -> ShortBitVec<N> {
        Self::from_val(seq_val(shl_seq(self@, (rhs.val() % 32) as nat)))
    }
}

impl<const N: usize> PartialEq for ShortBitVec<N> {
    fn eq(&self, other: &Self) -> (r: bool) {
        self.0 == other.0
    }
}

impl<const N: usize> vstd::std_specs::cmp::PartialEqSpecImpl for ShortBitVec<N> {
    open spec fn obeys_eq_spec() -> bool {
        true
    }

    open spec fn eq_spec(&self, other: &Self) -> bool {
        self.word() == other.word()
    }
}

} // verus!
