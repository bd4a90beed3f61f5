//! Operators on [Bits]: wrapping arithmetic, bitwise logic, shifts and equality.
use crate::hdl_core::bit_math::{
    and_seq, lemma_seq_val_bound, not_seq, or_seq, seq_val, shl_seq, shr_seq, xor_seq,
};
use crate::hdl_core::bit_math::{resize_seq, with_bits};
use crate::hdl_core::bits::{bit_cast, Bits, LiteralType};
use crate::hdl_core::short_bit_vec::ShortBitVec;
use vstd::arithmetic::div_mod::*;
use vstd::arithmetic::power2::*;
use std::ops::Not;
use vstd::prelude::*;

verus! {

impl<const N: usize> Bits<N> {
    /// How far a shift by `k` moves the bits: a word shift takes `k mod 32`,
    /// an array shift takes `k` as far as a `usize` holds it.
    pub open spec fn shift_amount(k: nat) -> nat {
        if N <= 32 {
            k % 32
        } else {
            k % pow2(usize::BITS as nat)
        }
    }

    /// `self + rhs`, wrapping at `2^N`.
    pub open spec fn sum(self, rhs: Self) -> Self {
        Self::from_val(self.val() + rhs.val())
    }

    /// `self - rhs`, wrapping at `2^N`.
    pub open spec fn difference(self, rhs: Self) -> Self {
        Self::from_val(((self.val() - rhs.val()) % (pow2(N as nat) as int)) as nat)
    }

    pub open spec fn or_bits(self, rhs: Self) -> Self {
        Self::from_val(seq_val(or_seq(self@, rhs@)))
    }

    pub open spec fn and_bits(self, rhs: Self) -> Self {
        Self::from_val(seq_val(and_seq(self@, rhs@)))
    }

    pub open spec fn xor_bits(self, rhs: Self) -> Self {
        Self::from_val(seq_val(xor_seq(self@, rhs@)))
    }

    pub open spec fn not_bits(self) -> Self {
        Self::from_val(seq_val(not_seq(self@)))
    }

    /// `self` shifted towards bit 0 by the value of `rhs`.
    pub open spec fn shr_bits(self, rhs: Self) -> Self {
        Self::from_val(seq_val(shr_seq(self@, Self::shift_amount(rhs.val()))))
    }

    /// `self` shifted away from bit 0 by the value of `rhs`.
    pub open spec fn shl_bits(self, rhs: Self) -> Self {
        Self::from_val(seq_val(shl_seq(self@, Self::shift_amount(rhs.val()))))
    }

    /// A well formed vector with the given bits is the vector of their value.
    pub proof fn lemma_of_view(r: Self, s: Seq<bool>)
        requires
            r.wf(),
            r@ == s,
        ensures
            r == Self::from_val(seq_val(s)),
    {
        Self::lemma_wf_view(r);
        lemma_seq_val_bound(s);
        lemma_small_mod(seq_val(s), pow2(N as nat));
        Self::lemma_of_val(r, seq_val(s));
    }

    proof fn lemma_sum(a: Self, b: Self, r: Self)
        requires
            r.wf(),
            r.val() == (a.val() + b.val()) % pow2(N as nat),
        ensures
            r == a.sum(b),
    {
        Self::lemma_of_val(r, a.val() + b.val());
    }

    proof fn lemma_difference(a: Self, b: Self, r: Self)
        requires
            r.wf(),
            r.val() == (a.val() - b.val()) % (pow2(N as nat) as int),
        ensures
            r == a.difference(b),
    {
        lemma_pow2_pos(N as nat);
        let v = ((a.val() - b.val()) % (pow2(N as nat) as int)) as nat;
        lemma_small_mod(v, pow2(N as nat));
        Self::lemma_of_val(r, v);
    }

    proof fn lemma_or_bits(a: Self, b: Self, r: Self)
        requires
            r.wf(),
            r@ == or_seq(a@, b@),
        ensures
            r == a.or_bits(b),
    {
        Self::lemma_of_view(r, or_seq(a@, b@));
    }

    proof fn lemma_and_bits(a: Self, b: Self, r: Self)
        requires
            r.wf(),
            r@ == and_seq(a@, b@),
        ensures
            r == a.and_bits(b),
    {
        Self::lemma_of_view(r, and_seq(a@, b@));
    }

    proof fn lemma_xor_bits(a: Self, b: Self, r: Self)
        requires
            r.wf(),
            r@ == xor_seq(a@, b@),
        ensures
            r == a.xor_bits(b),
    {
        Self::lemma_of_view(r, xor_seq(a@, b@));
    }

    proof fn lemma_shr_bits(a: Self, b: Self, r: Self)
        requires
            r.wf(),
            r@ == shr_seq(a@, Self::shift_amount(b.val())),
        ensures
            r == a.shr_bits(b),
    {
        Self::lemma_of_view(r, shr_seq(a@, Self::shift_amount(b.val())));
    }

    proof fn lemma_shl_bits(a: Self, b: Self, r: Self)
        requires
            r.wf(),
            r@ == shl_seq(a@, Self::shift_amount(b.val())),
        ensures
            r == a.shl_bits(b),
    {
        Self::lemma_of_view(r, shl_seq(a@, Self::shift_amount(b.val())));
    }
}

impl<const N: usize> std::ops::Add<Bits<N>> for Bits<N> {
    type Output = Bits<N>;

    /// Wrapping addition: the carry out of the top bit is dropped.
    fn add(self, rhs: Bits<N>) -> (r: Bits<N>)
        ensures
            r.wf(),
            r.val() == (self.val() + rhs.val()) % pow2(N as nat),
    {
        let r = match self {
            Bits::Short(x) => {
                match rhs {
                    Bits::Short(y) => {
                        let z = x + y;
                        proof {
                            ShortBitVec::<N>::lemma_view_val(x);
                            ShortBitVec::<N>::lemma_view_val(y);
                            ShortBitVec::<N>::lemma_view_val(z);
                        }
                        Bits::Short(z)
                    },
                    Bits::Long(_) => {
                        proof {
                            assert(false);
                        }
                        self
                    },
                }
            },
            Bits::Long(x) => {
                match rhs {
                    Bits::Long(y) => Bits::Long(x + y),
                    Bits::Short(_) => {
                        proof {
                            assert(false);
                        }
                        self
                    },
                }
            },
        };
        proof {
            Self::lemma_sum(self, rhs, r);
        }
        r
    }
}

impl<const N: usize> vstd::std_specs::ops::AddSpecImpl<Bits<N>> for Bits<N> {
    open spec fn obeys_add_spec() -> bool {
        true
    }

    open spec fn add_req(self, rhs: Bits<N>) -> bool {
        self.wf() && rhs.wf()
    }

    open spec fn add_spec(self, rhs: Bits<N>) -> Bits<N> {
        self.sum(rhs)
    }
}

impl<const N: usize> std::ops::Add<LiteralType> for Bits<N> {
    type Output = Bits<N>;

    /// The literal is first made a vector of the same width.
    fn add(self, rhs: LiteralType) -> (r: Bits<N>)
        ensures
            r.wf(),
            r.val() == (self.val() + Bits::<N>::from_val(rhs as nat).val()) % pow2(N as nat),
    {
        let b: Bits<N> = Bits::from(rhs);
        self + b
    }
}

impl<const N: usize> vstd::std_specs::ops::AddSpecImpl<LiteralType> for Bits<N> {
    open spec fn obeys_add_spec() -> bool {
        true
    }

    open spec fn add_req(self, rhs: LiteralType) -> bool {
        self.wf() && (N <= 32 ==> rhs < pow2(N as nat))
    }

    open spec fn add_spec(self, rhs: LiteralType) -> Bits<N> {
        self.sum(Bits::<N>::from_val(rhs as nat))
    }
}

impl<const N: usize> std::ops::Add<Bits<N>> for LiteralType {
    type Output = Bits<N>;

    /// The literal is first made a vector of the same width.
    fn add(self, rhs: Bits<N>) -> (r: Bits<N>)
        ensures
            r.wf(),
            r.val() == (Bits::<N>::from_val(self as nat).val() + rhs.val()) % pow2(N as nat),
    {
        let a: Bits<N> = Bits::from(self);
        a + rhs
    }
}

impl<const N: usize> vstd::std_specs::ops::AddSpecImpl<Bits<N>> for LiteralType {
    open spec fn obeys_add_spec() -> bool {
        true
    }

    open spec fn add_req(self, rhs: Bits<N>) -> bool {
        rhs.wf() && (N <= 32 ==> self < pow2(N as nat))
    }

    open spec fn add_spec(self, rhs: Bits<N>) -> Bits<N> {
        Bits::<N>::from_val(self as nat).sum(rhs)
    }
}

impl<const N: usize> std::ops::Sub<Bits<N>> for Bits<N> {
    type Output = Bits<N>;

    /// Wrapping two's complement subtraction.
    fn sub(self, rhs: Bits<N>) -> (r: Bits<N>)
        ensures
            r.wf(),
            r.val() == (self.val() - rhs.val()) % (pow2(N as nat) as int),
    {
        let r = match self {
            Bits::Short(x) => {
                match rhs {
                    Bits::Short(y) => {
                        let z = x - y;
                        proof {
                            ShortBitVec::<N>::lemma_view_val(x);
                            ShortBitVec::<N>::lemma_view_val(y);
                            ShortBitVec::<N>::lemma_view_val(z);
                        }
                        Bits::Short(z)
                    },
                    Bits::Long(_) => {
                        proof {
                            assert(false);
                        }
                        self
                    },
                }
            },
            Bits::Long(x) => {
                match rhs {
                    Bits::Long(y) => Bits::Long(x - y),
                    Bits::Short(_) => {
                        proof {
                            assert(false);
                        }
                        self
                    },
                }
            },
        };
        proof {
            Self::lemma_difference(self, rhs, r);
        }
        r
    }
}

impl<const N: usize> vstd::std_specs::ops::SubSpecImpl<Bits<N>> for Bits<N> {
    open spec fn obeys_sub_spec() -> bool {
        true
    }

    open spec fn sub_req(self, rhs: Bits<N>) -> bool {
        self.wf() && rhs.wf()
    }

    open spec fn sub_spec(self, rhs: Bits<N>) -> Bits<N> {
        self.difference(rhs)
    }
}

impl<const N: usize> std::ops::Sub<LiteralType> for Bits<N> {
    type Output = Bits<N>;

    /// The literal is first made a vector of the same width.
    fn sub(self, rhs: LiteralType) -> (r: Bits<N>)
        ensures
            r.wf(),
            r.val() == (self.val() - Bits::<N>::from_val(rhs as nat).val()) % (pow2(N as nat) as int),
    {
        let b: Bits<N> = Bits::from(rhs);
        self - b
    }
}

impl<const N: usize> vstd::std_specs::ops::SubSpecImpl<LiteralType> for Bits<N> {
    open spec fn obeys_sub_spec() -> bool {
        true
    }

    open spec fn sub_req(self, rhs: LiteralType) -> bool {
        self.wf() && (N <= 32 ==> rhs < pow2(N as nat))
    }

    open spec fn sub_spec(self, rhs: LiteralType) -> Bits<N> {
        self.difference(Bits::<N>::from_val(rhs as nat))
    }
}

impl<const N: usize> std::ops::Sub<Bits<N>> for LiteralType {
    type Output = Bits<N>;

    /// The literal is first made a vector of the same width.
    fn sub(self, rhs: Bits<N>) -> (r: Bits<N>)
        ensures
            r.wf(),
            r.val() == (Bits::<N>::from_val(self as nat).val() - rhs.val()) % (pow2(N as nat) as int),
    {
        let a: Bits<N> = Bits::from(self);
        a - rhs
    }
}

impl<const N: usize> vstd::std_specs::ops::SubSpecImpl<Bits<N>> for LiteralType {
    open spec fn obeys_sub_spec() -> bool {
        true
    }

    open spec fn sub_req(self, rhs: Bits<N>) -> bool {
        rhs.wf() && (N <= 32 ==> self < pow2(N as nat))
    }

    open spec fn sub_spec(self, rhs: Bits<N>) -> Bits<N> {
        Bits::<N>::from_val(self as nat).difference(rhs)
    }
}

impl<const N: usize> std::ops::BitOr<Bits<N>> for Bits<N> {
    type Output = Bits<N>;

    /// Bitwise OR.
    fn bitor(self, rhs: Bits<N>) -> (r: Bits<N>)
        ensures
            r.wf(),
            r@ == or_seq(self@, rhs@),
    {
        let r = match self {
            Bits::Short(x) => {
                match rhs {
                    Bits::Short(y) => {
                        let z = x | y;
                        proof {
                            ShortBitVec::<N>::lemma_view_val(x);
                            ShortBitVec::<N>::lemma_view_val(y);
                        }
                        Bits::Short(z)
                    },
                    Bits::Long(_) => {
                        proof {
                            assert(false);
                        }
                        self
                    },
                }
            },
            Bits::Long(x) => {
                match rhs {
                    Bits::Long(y) => Bits::Long(x | y),
                    Bits::Short(_) => {
                        proof {
                            assert(false);
                        }
                        self
                    },
                }
            },
        };
        proof {
            Self::lemma_or_bits(self, rhs, r);
        }
        r
    }
}

impl<const N: usize> vstd::std_specs::ops::BitOrSpecImpl<Bits<N>> for Bits<N> {
    open spec fn obeys_bitor_spec() -> bool {
        true
    }

    open spec fn bitor_req(self, rhs: Bits<N>) -> bool {
        self.wf() && rhs.wf()
    }

    open spec fn bitor_spec(self, rhs: Bits<N>) -> Bits<N> {
        self.or_bits(rhs)
    }
}

impl<const N: usize> std::ops::BitOr<LiteralType> for Bits<N> {
    type Output = Bits<N>;

    /// The literal is first made a vector of the same width.
    fn bitor(self, rhs: LiteralType) -> (r: Bits<N>)
        ensures
            r.wf(),
            r@ == or_seq(self@, Bits::<N>::from_val(rhs as nat)@),
    {
        let b: Bits<N> = Bits::from(rhs);
        self | b
    }
}

impl<const N: usize> vstd::std_specs::ops::BitOrSpecImpl<LiteralType> for Bits<N> {
    open spec fn obeys_bitor_spec() -> bool {
        true
    }

    open spec fn bitor_req(self, rhs: LiteralType) -> bool {
        self.wf() && (N <= 32 ==> rhs < pow2(N as nat))
    }

    open spec fn bitor_spec(self, rhs: LiteralType) -> Bits<N> {
        self.or_bits(Bits::<N>::from_val(rhs as nat))
    }
}

impl<const N: usize> std::ops::BitOr<Bits<N>> for LiteralType {
    type Output = Bits<N>;

    /// The literal is first made a vector of the same width.
    fn bitor(self, rhs: Bits<N>) -> (r: Bits<N>)
        ensures
            r.wf(),
            r@ == or_seq(Bits::<N>::from_val(self as nat)@, rhs@),
    {
        let a: Bits<N> = Bits::from(self);
        a | rhs
    }
}

impl<const N: usize> vstd::std_specs::ops::BitOrSpecImpl<Bits<N>> for LiteralType {
    open spec fn obeys_bitor_spec() -> bool {
        true
    }

    open spec fn bitor_req(self, rhs: Bits<N>) -> bool {
        rhs.wf() && (N <= 32 ==> self < pow2(N as nat))
    }

    open spec fn bitor_spec(self, rhs: Bits<N>) -> Bits<N> {
        Bits::<N>::from_val(self as nat).or_bits(rhs)
    }
}

impl<const N: usize> std::ops::BitAnd<Bits<N>> for Bits<N> {
    type Output = Bits<N>;

    /// Bitwise AND.
    fn bitand(self, rhs: Bits<N>) -> (r: Bits<N>)
        ensures
            r.wf(),
            r@ == and_seq(self@, rhs@),
    {
        let r = match self {
            Bits::Short(x) => {
                match rhs {
                    Bits::Short(y) => {
                        let z = x & y;
                        proof {
                            ShortBitVec::<N>::lemma_view_val(x);
                            ShortBitVec::<N>::lemma_view_val(y);
                        }
                        Bits::Short(z)
                    },
                    Bits::Long(_) => {
                        proof {
                            assert(false);
                        }
                        self
                    },
                }
            },
            Bits::Long(x) => {
                match rhs {
                    Bits::Long(y) => Bits::Long(x & y),
                    Bits::Short(_) => {
                        proof {
                            assert(false);
                        }
                        self
                    },
                }
            },
        };
        proof {
            Self::lemma_and_bits(self, rhs, r);
        }
        r
    }
}

impl<const N: usize> vstd::std_specs::ops::BitAndSpecImpl<Bits<N>> for Bits<N> {
    open spec fn obeys_bitand_spec() -> bool {
        true
    }

    open spec fn bitand_req(self, rhs: Bits<N>) -> bool {
        self.wf() && rhs.wf()
    }

    open spec fn bitand_spec(self, rhs: Bits<N>) -> Bits<N> {
        self.and_bits(rhs)
    }
}

impl<const N: usize> std::ops::BitAnd<LiteralType> for Bits<N> {
    type Output = Bits<N>;

    /// The literal is first made a vector of the same width.
    fn bitand(self, rhs: LiteralType) -> (r: Bits<N>)
        ensures
            r.wf(),
            r@ == and_seq(self@, Bits::<N>::from_val(rhs as nat)@),
    {
        let b: Bits<N> = Bits::from(rhs);
        self & b
    }
}

impl<const N: usize> vstd::std_specs::ops::BitAndSpecImpl<LiteralType> for Bits<N> {
    open spec fn obeys_bitand_spec() -> bool {
        true
    }

    open spec fn bitand_req(self, rhs: LiteralType) -> bool {
        self.wf() && (N <= 32 ==> rhs < pow2(N as nat))
    }

    open spec fn bitand_spec(self, rhs: LiteralType) -> Bits<N> {
        self.and_bits(Bits::<N>::from_val(rhs as nat))
    }
}

impl<const N: usize> std::ops::BitAnd<Bits<N>> for LiteralType {
    type Output = Bits<N>;

    /// The literal is first made a vector of the same width.
    fn bitand(self, rhs: Bits<N>) -> (r: Bits<N>)
        ensures
            r.wf(),
            r@ == and_seq(Bits::<N>::from_val(self as nat)@, rhs@),
    {
        let a: Bits<N> = Bits::from(self);
        a & rhs
    }
}

impl<const N: usize> vstd::std_specs::ops::BitAndSpecImpl<Bits<N>> for LiteralType {
    open spec fn obeys_bitand_spec() -> bool {
        true
    }

    open spec fn bitand_req(self, rhs: Bits<N>) -> bool {
        rhs.wf() && (N <= 32 ==> self < pow2(N as nat))
    }

    open spec fn bitand_spec(self, rhs: Bits<N>) -> Bits<N> {
        Bits::<N>::from_val(self as nat).and_bits(rhs)
    }
}

impl<const N: usize> std::ops::BitXor<Bits<N>> for Bits<N> {
    type Output = Bits<N>;

    /// Bitwise exclusive OR.
    fn bitxor(self, rhs: Bits<N>) -> (r: Bits<N>)
        ensures
            r.wf(),
            r@ == xor_seq(self@, rhs@),
    {
        let r = match self {
            Bits::Short(x) => {
                match rhs {
                    Bits::Short(y) => {
                        let z = x ^ y;
                        proof {
                            ShortBitVec::<N>::lemma_view_val(x);
                            ShortBitVec::<N>::lemma_view_val(y);
                        }
                        Bits::Short(z)
                    },
                    Bits::Long(_) => {
                        proof {
                            assert(false);
                        }
                        self
                    },
                }
            },
            Bits::Long(x) => {
                match rhs {
                    Bits::Long(y) => Bits::Long(x ^ y),
                    Bits::Short(_) => {
                        proof {
                            assert(false);
                        }
                        self
                    },
                }
            },
        };
        proof {
            Self::lemma_xor_bits(self, rhs, r);
        }
        r
    }
}

impl<const N: usize> vstd::std_specs::ops::BitXorSpecImpl<Bits<N>> for Bits<N> {
    open spec fn obeys_bitxor_spec() -> bool {
        true
    }

    open spec fn bitxor_req(self, rhs: Bits<N>) -> bool {
        self.wf() && rhs.wf()
    }

    open spec fn bitxor_spec(self, rhs: Bits<N>) -> Bits<N> {
        self.xor_bits(rhs)
    }
}

impl<const N: usize> std::ops::BitXor<LiteralType> for Bits<N> {
    type Output = Bits<N>;

    /// The literal is first made a vector of the same width.
    fn bitxor(self, rhs: LiteralType) -> (r: Bits<N>)
        ensures
            r.wf(),
            r@ == xor_seq(self@, Bits::<N>::from_val(rhs as nat)@),
    {
        let b: Bits<N> = Bits::from(rhs);
        self ^ b
    }
}

impl<const N: usize> vstd::std_specs::ops::BitXorSpecImpl<LiteralType> for Bits<N> {
    open spec fn obeys_bitxor_spec() -> bool {
        true
    }

    open spec fn bitxor_req(self, rhs: LiteralType) -> bool {
        self.wf() && (N <= 32 ==> rhs < pow2(N as nat))
    }

    open spec fn bitxor_spec(self, rhs: LiteralType) -> Bits<N> {
        self.xor_bits(Bits::<N>::from_val(rhs as nat))
    }
}

impl<const N: usize> std::ops::BitXor<Bits<N>> for LiteralType {
    type Output = Bits<N>;

    /// The literal is first made a vector of the same width.
    fn bitxor(self, rhs: Bits<N>) -> (r: Bits<N>)
        ensures
            r.wf(),
            r@ == xor_seq(Bits::<N>::from_val(self as nat)@, rhs@),
    {
        let a: Bits<N> = Bits::from(self);
        a ^ rhs
    }
}

impl<const N: usize> vstd::std_specs::ops::BitXorSpecImpl<Bits<N>> for LiteralType {
    open spec fn obeys_bitxor_spec() -> bool {
        true
    }

    open spec fn bitxor_req(self, rhs: Bits<N>) -> bool {
        rhs.wf() && (N <= 32 ==> self < pow2(N as nat))
    }

    open spec fn bitxor_spec(self, rhs: Bits<N>) -> Bits<N> {
        Bits::<N>::from_val(self as nat).xor_bits(rhs)
    }
}

impl<const N: usize> std::ops::Shr<Bits<N>> for Bits<N> {
    type Output = Bits<N>;

    /// Shifts towards bit 0, filling with clear bits.
    fn shr(self, rhs: Bits<N>) -> (r: Bits<N>)
        ensures
            r.wf(),
            r@ == shr_seq(self@, Bits::<N>::shift_amount(rhs.val())),
    {
        let r = match self {
            Bits::Short(x) => {
                match rhs {
                    Bits::Short(y) => {
                        let z = x >> y;
                        proof {
                            ShortBitVec::<N>::lemma_view_val(x);
                            ShortBitVec::<N>::lemma_view_val(y);
                        }
                        Bits::Short(z)
                    },
                    Bits::Long(_) => {
                        proof {
                            assert(false);
                        }
                        self
                    },
                }
            },
            Bits::Long(x) => {
                match rhs {
                    Bits::Long(y) => Bits::Long(x >> y),
                    Bits::Short(_) => {
                        proof {
                            assert(false);
                        }
                        self
                    },
                }
            },
        };
        proof {
            Self::lemma_shr_bits(self, rhs, r);
        }
        r
    }
}

impl<const N: usize> vstd::std_specs::ops::ShrSpecImpl<Bits<N>> for Bits<N> {
    open spec fn obeys_shr_spec() -> bool {
        true
    }

    open spec fn shr_req(self, rhs: Bits<N>) -> bool {
        self.wf() && rhs.wf()
    }

    open spec fn shr_spec(self, rhs: Bits<N>) -> Bits<N> {
        self.shr_bits(rhs)
    }
}

impl<const N: usize> std::ops::Shr<LiteralType> for Bits<N> {
    type Output = Bits<N>;

    /// The literal is first made a vector of the same width.
    fn shr(self, rhs: LiteralType) -> (r: Bits<N>)
        ensures
            r.wf(),
            r@ == shr_seq(self@, Bits::<N>::shift_amount(Bits::<N>::from_val(rhs as nat).val())),
    {
        let b: Bits<N> = Bits::from(rhs);
        self >> b
    }
}

impl<const N: usize> vstd::std_specs::ops::ShrSpecImpl<LiteralType> for Bits<N> {
    open spec fn obeys_shr_spec() -> bool {
        true
    }

    open spec fn shr_req(self, rhs: LiteralType) -> bool {
        self.wf() && (N <= 32 ==> rhs < pow2(N as nat))
    }

    open spec fn shr_spec(self, rhs: LiteralType) -> Bits<N> {
        self.shr_bits(Bits::<N>::from_val(rhs as nat))
    }
}

impl<const N: usize> std::ops::Shr<Bits<N>> for LiteralType {
    type Output = Bits<N>;

    /// The literal is first made a vector of the same width.
    fn shr(self, rhs: Bits<N>) -> (r: Bits<N>)
        ensures
            r.wf(),
            r@ == shr_seq(Bits::<N>::from_val(self as nat)@, Bits::<N>::shift_amount(rhs.val())),
    {
        let a: Bits<N> = Bits::from(self);
        a >> rhs
    }
}

impl<const N: usize> vstd::std_specs::ops::ShrSpecImpl<Bits<N>> for LiteralType {
    open spec fn obeys_shr_spec() -> bool {
        true
    }

    open spec fn shr_req(self, rhs: Bits<N>) -> bool {
        rhs.wf() && (N <= 32 ==> self < pow2(N as nat))
    }

    open spec fn shr_spec(self, rhs: Bits<N>) -> Bits<N> {
        Bits::<N>::from_val(self as nat).shr_bits(rhs)
    }
}

impl<const N: usize> std::ops::Shl<Bits<N>> for Bits<N> {
    type Output = Bits<N>;

    /// Shifts away from bit 0, filling with clear bits.
    fn shl(self, rhs: Bits<N>) -> (r: Bits<N>)
        ensures
            r.wf(),
            r@ == shl_seq(self@, Bits::<N>::shift_amount(rhs.val())),
    {
        let r = match self {
            Bits::Short(x) => {
                match rhs {
                    Bits::Short(y) => {
                        let z = x << y;
                        proof {
                            ShortBitVec::<N>::lemma_view_val(x);
                            ShortBitVec::<N>::lemma_view_val(y);
                        }
                        Bits::Short(z)
                    },
                    Bits::Long(_) => {
                        proof {
                            assert(false);
                        }
                        self
                    },
                }
            },
            Bits::Long(x) => {
                match rhs {
                    Bits::Long(y) => Bits::Long(x << y),
                    Bits::Short(_) => {
                        proof {
                            assert(false);
                        }
                        self
                    },
                }
            },
        };
        proof {
            Self::lemma_shl_bits(self, rhs, r);
        }
        r
    }
}

impl<const N: usize> vstd::std_specs::ops::ShlSpecImpl<Bits<N>> for Bits<N> {
    open spec fn obeys_shl_spec() -> bool {
        true
    }

    open spec fn shl_req(self, rhs: Bits<N>) -> bool {
        self.wf() && rhs.wf()
    }

    open spec fn shl_spec(self, rhs: Bits<N>) -> Bits<N> {
        self.shl_bits(rhs)
    }
}

impl<const N: usize> std::ops::Shl<LiteralType> for Bits<N> {
    type Output = Bits<N>;

    /// The literal is first made a vector of the same width.
    fn shl(self, rhs: LiteralType) -> (r: Bits<N>)
        ensures
            r.wf(),
            r@ == shl_seq(self@, Bits::<N>::shift_amount(Bits::<N>::from_val(rhs as nat).val())),
    {
        let b: Bits<N> = Bits::from(rhs);
        self << b
    }
}

impl<const N: usize> vstd::std_specs::ops::ShlSpecImpl<LiteralType> for Bits<N> {
    open spec fn obeys_shl_spec() -> bool {
        true
    }

    open spec fn shl_req(self, rhs: LiteralType) -> bool {
        self.wf() && (N <= 32 ==> rhs < pow2(N as nat))
    }

    open spec fn shl_spec(self, rhs: LiteralType) -> Bits<N> {
        self.shl_bits(Bits::<N>::from_val(rhs as nat))
    }
}

impl<const N: usize> std::ops::Shl<Bits<N>> for LiteralType {
    type Output = Bits<N>;

    /// The literal is first made a vector of the same width.
    fn shl(self, rhs: Bits<N>) -> (r: Bits<N>)
        ensures
            r.wf(),
            r@ == shl_seq(Bits::<N>::from_val(self as nat)@, Bits::<N>::shift_amount(rhs.val())),
    {
        let a: Bits<N> = Bits::from(self);
        a << rhs
    }
}

impl<const N: usize> vstd::std_specs::ops::ShlSpecImpl<Bits<N>> for LiteralType {
    open spec fn obeys_shl_spec() -> bool {
        true
    }

    open spec fn shl_req(self, rhs: Bits<N>) -> bool {
        rhs.wf() && (N <= 32 ==> self < pow2(N as nat))
    }

    open spec fn shl_spec(self, rhs: Bits<N>) -> Bits<N> {
        Bits::<N>::from_val(self as nat).shl_bits(rhs)
    }
}

impl<const N: usize> std::ops::Not for Bits<N> {
    type Output = Bits<N>;

    /// Inverts every bit.
    fn not(self) -> (r: Bits<N>)
        ensures
            r.wf(),
            r@ == not_seq(self@),
    {
        let r = match self {
            Bits::Short(x) => Bits::Short(x.not()),
            Bits::Long(x) => Bits::Long(x.not()),
        };
        proof {
            Self::lemma_of_view(r, not_seq(self@));
        }
        r
    }
}

impl<const N: usize> vstd::std_specs::ops::NotSpecImpl for Bits<N> {
    open spec fn obeys_not_spec() -> bool {
        true
    }

    open spec fn not_req(self) -> bool {
        self.wf()
    }

    open spec fn not_spec(self) -> Bits<N> {
        self.not_bits()
    }
}

impl std::ops::Mul<Bits<16>> for Bits<16> {
    type Output = Bits<32>;

    /// The full 32-bit product of two 16-bit values.
    fn mul(self, rhs: Bits<16>) -> (r: Bits<32>)
        ensures
            r.wf(),
            r.val() == self.val() * rhs.val(),
    {
        let x: u32 = match self {
            Bits::Short(x) => {
                proof {
                    ShortBitVec::<16>::lemma_view_val(x);
                }
                x.short()
            },
            Bits::Long(_) => {
                proof {
                    assert(false);
                }
                0
            },
        };
        let y: u32 = match rhs {
            Bits::Short(y) => {
                proof {
                    ShortBitVec::<16>::lemma_view_val(y);
                }
                y.short()
            },
            Bits::Long(_) => {
                proof {
                    assert(false);
                }
                0
            },
        };
        proof {
            vstd::arithmetic::power2::lemma2_to64();
            assert(x * y < 0x1_0000_0000) by (nonlinear_arith)
                requires
                    x < 0x1_0000,
                    y < 0x1_0000,
            ;
        }
        let p = x * y;
        let z: ShortBitVec<32> = ShortBitVec::from(p);
        proof {
            ShortBitVec::<32>::lemma_from_word(p);
            ShortBitVec::<32>::lemma_view_val(z);
            lemma_small_mod(p as nat, pow2(32));
            Bits::<32>::lemma_of_val(Bits::Short(z), (x * y) as nat);
        }
        Bits::Short(z)
    }
}

impl vstd::std_specs::ops::MulSpecImpl<Bits<16>> for Bits<16> {
    open spec fn obeys_mul_spec() -> bool {
        true
    }

    open spec fn mul_req(self, rhs: Bits<16>) -> bool {
        self.wf() && rhs.wf()
    }

    open spec fn mul_spec(self, rhs: Bits<16>) -> Bits<32> {
        Bits::<32>::from_val(self.val() * rhs.val())
    }
}

impl<const N: usize> std::ops::Add<bool> for Bits<N> {
    type Output = Bits<N>;

    /// Adds one when the flag is set.
    fn add(self, rhs: bool) -> (r: Bits<N>)
        ensures
            r.wf(),
            r.val() == (self.val() + (if rhs {
                1nat
            } else {
                0nat
            })) % pow2(N as nat),
    {
        if rhs {
            let one: Bits<N> = Bits::from(1u64);
            proof {
                lemma_pow2_pos(N as nat);
                lemma_add_mod_noop_right(self.val() as int, 1, pow2(N as nat) as int);
            }
            self + one
        } else {
            proof {
                Self::lemma_wf_view(self);
                lemma_small_mod(self.val(), pow2(N as nat));
            }
            self
        }
    }
}

impl<const N: usize> vstd::std_specs::ops::AddSpecImpl<bool> for Bits<N> {
    open spec fn obeys_add_spec() -> bool {
        true
    }

    open spec fn add_req(self, rhs: bool) -> bool {
        self.wf()
    }

    open spec fn add_spec(self, rhs: bool) -> Bits<N> {
        if rhs {
            self.sum(Bits::<N>::from_val(1))
        } else {
            self
        }
    }
}

impl<const N: usize> Bits<N> {
    /// Equality of two vectors held the same way; vectors held in different
    /// ways are never equal.
    pub open spec fn same_bits(self, other: Self) -> bool {
        match (self, other) {
            (Bits::Short(x), Bits::Short(y)) => x.word() == y.word(),
            (Bits::Long(x), Bits::Long(y)) => x@ == y@,
            _ => false,
        }
    }

    /// For well formed vectors, `==` holds exactly when the values are equal,
    /// that is, when the vectors are the same.
    pub proof fn law_eq_matches_values(a: Self, b: Self)
        requires
            a.wf(),
            b.wf(),
        ensures
            a.same_bits(b) == (a.val() == b.val()),
            a.same_bits(b) == (a == b),
    {
        match (a, b) {
            (Bits::Short(x), Bits::Short(y)) => {
                ShortBitVec::<N>::lemma_view_val(x);
                ShortBitVec::<N>::lemma_view_val(y);
            },
            (Bits::Long(x), Bits::Long(y)) => {
                crate::hdl_core::bit_vec::BitVec::<N>::lemma_view(x);
                crate::hdl_core::bit_vec::BitVec::<N>::lemma_view(y);
                if x.val() == y.val() {
                    crate::hdl_core::bit_math::lemma_seq_val_injective(x@, y@);
                }
            },
            _ => {},
        }
        if a.val() == b.val() {
            Self::lemma_val_eq(a, b);
        }
    }
}

impl<const N: usize> PartialEq<Bits<N>> for Bits<N> {
    fn eq(&self, other: &Bits<N>) -> (r: bool) {
        match self {
            Bits::Short(x) => match other {
                Bits::Short(y) => *x == *y,
                Bits::Long(_) => false,
            },
            Bits::Long(x) => match other {
                Bits::Long(y) => *x == *y,
                Bits::Short(_) => false,
            },
        }
    }
}

impl<const N: usize> vstd::std_specs::cmp::PartialEqSpecImpl<Bits<N>> for Bits<N> {
    open spec fn obeys_eq_spec() -> bool {
        true
    }

    open spec fn eq_spec(&self, other: &Bits<N>) -> bool {
        self.same_bits(*other)
    }
}

impl<const N: usize> Eq for Bits<N> {

}

impl<const N: usize> PartialEq<LiteralType> for Bits<N> {
    /// The literal is first made a vector of the same width.
    fn eq(&self, other: &LiteralType) -> (r: bool) {
        let o: Bits<N> = Bits::from(*other);
        *self == o
    }
}

impl<const N: usize> vstd::std_specs::cmp::PartialEqSpecImpl<LiteralType> for Bits<N> {
    open spec fn obeys_eq_spec() -> bool {
        true
    }

    open spec fn eq_spec(&self, other: &LiteralType) -> bool {
        self.same_bits(Bits::<N>::from_val(*other as nat))
    }
}

impl<const N: usize> PartialEq<Bits<N>> for LiteralType {
    /// The literal is first made a vector of the same width.
    fn eq(&self, other: &Bits<N>) -> (r: bool) {
        let s: Bits<N> = Bits::from(*self);
        s == *other
    }
}

impl<const N: usize> vstd::std_specs::cmp::PartialEqSpecImpl<Bits<N>> for LiteralType {
    open spec fn obeys_eq_spec() -> bool {
        true
    }

    open spec fn eq_spec(&self, other: &Bits<N>) -> bool {
        Bits::<N>::from_val(*self as nat).same_bits(*other)
    }
}

impl PartialEq<bool> for Bits<1> {
    /// Compares the single bit with the flag.
    fn eq(&self, other: &bool) -> (r: bool) {
        bool::from(*self) == *other
    }
}

impl vstd::std_specs::cmp::PartialEqSpecImpl<bool> for Bits<1> {
    open spec fn obeys_eq_spec() -> bool {
        true
    }

    open spec fn eq_spec(&self, other: &bool) -> bool {
        self@[0] == *other
    }
}

impl PartialEq<Bits<1>> for bool {
    /// Compares the flag with the single bit.
    fn eq(&self, other: &Bits<1>) -> (r: bool) {
        *self == bool::from(*other)
    }
}

impl vstd::std_specs::cmp::PartialEqSpecImpl<Bits<1>> for bool {
    open spec fn obeys_eq_spec() -> bool {
        true
    }

    open spec fn eq_spec(&self, other: &Bits<1>) -> bool {
        *self == other@[0]
    }
}

impl<const N: usize> Bits<N> {
    /// The `M` bits starting at bit `index`; bits beyond the top read as zero.
    pub fn get_bits<const M: usize>(&self, index: usize) -> (r: Bits<M>)
        requires
            self.wf(),
            index <= N,
        ensures
            r.wf(),
            r@ == resize_seq(shr_seq(self@, Self::shift_amount(index as nat)), M as nat),
            r.val() == (self.val() / pow2(Self::shift_amount(index as nat))) % pow2(M as nat),
    {
        proof {
            crate::hdl_core::bit_math::lemma_lt_pow2(N as nat);
            if index < N {
                lemma_pow2_strictly_increases(index as nat, N as nat);
            }
            crate::hdl_core::bit_math::lemma_lt_pow2(index as nat);
            lemma_small_mod(index as nat, pow2(N as nat));
            Self::lemma_from_val(index as nat);
        }
        let s = *self >> (index as LiteralType);
        let r = bit_cast::<M, N>(s);
        proof {
            let k = Self::shift_amount(index as nat);
            Self::lemma_wf_view(*self);
            crate::hdl_core::bit_vec::lemma_usize_pow2();
            lemma_pow2_pos(usize::BITS as nat);
            assert(k <= index);
            crate::hdl_core::bit_math::lemma_seq_val_shr(self@, k);
            crate::hdl_core::bit_math::lemma_seq_val_resize(shr_seq(self@, k), M as nat);
        }
        r
    }

    /// Replaces the `M` bits starting at bit `index` with those of `rhs`.
    pub fn set_bits<const M: usize>(&mut self, index: usize, rhs: Bits<M>)
        requires
            old(self).wf(),
            rhs.wf(),
            index + M <= N,
        ensures
            final(self).wf(),
            final(self)@ == with_bits(old(self)@, index as nat, rhs@),
    {
        proof {
            crate::hdl_core::bit_math::lemma_lt_pow2(N as nat);
            lemma_small_mod(index as nat, pow2(N as nat));
            crate::hdl_core::bit_vec::lemma_usize_pow2();
            lemma_small_mod(index as nat, pow2(usize::BITS as nat));
            Self::lemma_wf_view(*self);
            Self::lemma_from_val(index as nat);
            Bits::<M>::lemma_wf_view(rhs);
        }
        let ones = Bits::<M>::mask();
        let wide_ones = bit_cast::<N, M>(ones);
        let shifted_ones = wide_ones << (index as LiteralType);
        let mask = shifted_ones.not();
        let masked = *self & mask;
        let wide = bit_cast::<N, M>(rhs);
        let replace = wide << (index as LiteralType);
        let result = masked | replace;
        proof {
            let k = Self::shift_amount(index as nat);
            let old_v = self@;
            Bits::<M>::lemma_wf_view(ones);
            assert(M > 0 ==> k == index);
            assert forall|i: int| 0 <= i < N implies #[trigger] result@[i] == (if index <= i < index
                + M {
                rhs@[i - index]
            } else {
                old_v[i]
            }) by {
                if M > 0 {
                    assert(k == index);
                }
                if i >= k && i - k < M {
                    assert(ones@[i - k]);
                }
                assert(shifted_ones@[i] == (i >= k && i - k < M));
                assert(replace@[i] == (i >= k && i - k < M && rhs@[i - k]));
            }
            assert(result@ =~= Seq::new(
                N as nat,
                |i: int|
                    if index <= i < index + M {
                        rhs@[i - index]
                    } else {
                        old_v[i]
                    },
            ));
        }
        proof {
            Bits::<M>::lemma_wf_view(rhs);
            assert(result@ =~= with_bits(self@, index as nat, rhs@));
        }
        *self = result;
    }
}

} // verus!
