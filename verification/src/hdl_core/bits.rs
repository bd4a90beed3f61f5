//! The [Bits] type: a bit vector whose width `N` is fixed at compile time.
//!
//! Widths up to [SHORT_BITS] are held in one machine word ([ShortBitVec]),
//! wider ones in a `bool` array ([BitVec]).  Arithmetic wraps at `2^N`, as
//! hardware without a carry out does, and all comparisons are unsigned.
use crate::hdl_core::bit_math::{
    lemma_mod_pow2_mod, lemma_nat_bits_val, lemma_seq_val_bound, lemma_seq_val_ones,
    lemma_seq_val_zero, lemma_u32_bits_val, nat_bits, resize_seq, seq_parity, seq_val,
};
use crate::hdl_core::bit_vec::BitVec;
use crate::hdl_core::short_bit_vec::{ShortBitVec, ShortType, SHORT_BITS};
use vstd::arithmetic::div_mod::*;
use vstd::arithmetic::power2::*;
use vstd::bits::*;
use vstd::prelude::*;

verus! {

/// The type that unsuffixed literals take in expressions with [Bits].
pub type LiteralType = u64;

/// The number of bits in a [LiteralType].
pub const LITERAL_BITS: usize = 64;

/// A bit vector of `N` bits.
#[derive(Clone, Copy, Debug)]
pub enum Bits<const N: usize> {
    Short(ShortBitVec<N>),
    Long(BitVec<N>),
}

/// A single bit.
pub type Bit = bool;

impl<const N: usize> View for Bits<N> {
    type V = Seq<bool>;

    /// The `N` bits, least significant first.
    open spec fn view(&self) -> Seq<bool> {
        match *self {
            Bits::Short(x) => x@,
            Bits::Long(x) => x@,
        }
    }
}

impl<const N: usize> Bits<N> {
    /// The representation matches the width: a word up to [SHORT_BITS] bits,
    /// an array beyond.
    pub open spec fn wf(self) -> bool {
        match self {
            Bits::Short(x) => N <= 32 && x.wf(),
            Bits::Long(_) => N > 32,
        }
    }

    /// The unsigned number held.
    pub open spec fn val(self) -> nat {
        seq_val(self@)
    }

    /// The well formed vector holding `v mod 2^N`.
    pub open spec fn from_val(v: nat) -> Self {
        if N <= 32 {
            Bits::Short(ShortBitVec::<N>::from_val(v))
        } else {
            Bits::Long(BitVec::<N>::from_val(v))
        }
    }

    /// The vector a literal stands for in an expression of width `N`.
    pub open spec fn from_literal(x: LiteralType) -> Self {
        Self::from_val(x as nat)
    }

    pub proof fn lemma_from_val(v: nat)
        ensures
            Self::from_val(v).wf(),
            Self::from_val(v).val() == v % pow2(N as nat),
            Self::from_val(v)@ == nat_bits(v, N as nat),
    {
        lemma_pow2_pos(N as nat);
        if N <= 32 {
            ShortBitVec::<N>::lemma_from_val(v);
            ShortBitVec::<N>::lemma_view_val(ShortBitVec::<N>::from_val(v));
            lemma_nat_bits_val(v, N as nat);
            lemma_seq_val_bound(nat_bits(v, N as nat));
            crate::hdl_core::bit_math::lemma_seq_val_injective(
                ShortBitVec::<N>::from_val(v)@,
                nat_bits(v, N as nat),
            );
        } else {
            BitVec::<N>::lemma_from_val(v);
        }
    }

    /// The bits of a well formed vector: `N` of them, standing for its value.
    pub proof fn lemma_wf_view(a: Self)
        requires
            a.wf(),
        ensures
            a@.len() == N,
            a.val() < pow2(N as nat),
    {
        match a {
            Bits::Short(x) => {
                ShortBitVec::<N>::lemma_view_val(x);
            },
            Bits::Long(x) => {
                BitVec::<N>::lemma_view(x);
            },
        }
    }

    /// Well formed vectors with one value are the same vector.
    pub proof fn lemma_val_eq(a: Self, b: Self)
        requires
            a.wf(),
            b.wf(),
            a.val() == b.val(),
        ensures
            a == b,
    {
        match a {
            Bits::Short(x) => {
                match b {
                    Bits::Short(y) => {
                        ShortBitVec::<N>::lemma_view_val(x);
                        ShortBitVec::<N>::lemma_view_val(y);
                        ShortBitVec::<N>::lemma_val_eq(x, y);
                    },
                    Bits::Long(_) => {},
                }
            },
            Bits::Long(x) => {
                match b {
                    Bits::Short(_) => {},
                    Bits::Long(y) => {
                        BitVec::<N>::lemma_val_eq(x, y);
                    },
                }
            },
        }
    }

    /// A well formed vector holding `v mod 2^N` is the vector of `v`.
    pub proof fn lemma_of_val(r: Self, v: nat)
        requires
            r.wf(),
            r.val() == v % pow2(N as nat),
        ensures
            r == Self::from_val(v),
    {
        Self::lemma_from_val(v);
        Self::lemma_val_eq(r, Self::from_val(v));
    }
}

/// The number of bits needed to count `t` items: the least `p` with `2^p >= t`.
pub fn clog2(t: usize) -> (p: usize)
    requires
        t <= pow2((usize::BITS - 1) as nat),
    ensures
        pow2(p as nat) >= t,
        p == 0 || pow2((p - 1) as nat) < t,
{
    let mut p: usize = 0;
    let mut b: usize = 1;
    proof {
        lemma2_to64();
        crate::hdl_core::bit_vec::lemma_usize_pow2();
    }
    while b < t
        invariant
            b == pow2(p as nat),
            p == 0 || pow2((p - 1) as nat) < t,
            t <= pow2((usize::BITS - 1) as nat),
            pow2(usize::BITS as nat) == usize::MAX + 1,
            p < usize::BITS,
            b >= 1,
        decreases usize::BITS - p,
    {
        proof {
            lemma_pow2_unfold((p + 1) as nat);
            lemma_pow2_pos(p as nat);
            let w1 = (usize::BITS - 1) as nat;
            if p as nat >= w1 {
                if p as nat > w1 {
                    lemma_pow2_strictly_increases(w1, p as nat);
                }
            }
            assert(p + 1 <= w1);
            if p + 1 < w1 {
                lemma_pow2_strictly_increases((p + 1) as nat, w1);
            }
            lemma_pow2_strictly_increases(w1, usize::BITS as nat);
            assert(b * 2 > b);
        }
        p = p + 1;
        b = b * 2;
    }
    p
}

/// The vector holding `x`; `x` must fit in `N` bits when `N` is at most
/// [SHORT_BITS].
pub fn bits<const N: usize>(x: LiteralType) -> (r: Bits<N>)
    requires
        N <= 32 ==> x < pow2(N as nat),
    ensures
        r.wf(),
        r.val() == x as nat % pow2(N as nat),
{
    Bits::from(x)
}

/// Conversion from a literal.  A value too wide for a vector of at most
/// [SHORT_BITS] bits is cut to its low `N` bits here, since a conversion
/// cannot demand that its argument fit; [bits] is the conversion that
/// requires it.
impl<const N: usize> From<LiteralType> for Bits<N> {
    /// The vector of the low `N` bits of `x`.
    fn from(x: LiteralType) -> (r: Self)
        ensures
            r.wf(),
            r.val() == x as nat % pow2(N as nat),
    {
        if N > SHORT_BITS {
            let y: BitVec<N> = BitVec::from(x);
            proof {
                lemma_nat_bits_val(x as nat, N as nat);
                BitVec::<N>::lemma_of_val(y, x as nat);
            }
            Bits::Long(y)
        } else {
            let w = x as ShortType;
            let y: ShortBitVec<N> = ShortBitVec::from(w);
            proof {
                ShortBitVec::<N>::lemma_from_word(w);
                ShortBitVec::<N>::lemma_view_val(y);
                assert(w as int == x as int % 0x1_0000_0000) by (bit_vector)
                    requires
                        w == x as u32,
                ;
                lemma2_to64();
                lemma_mod_pow2_mod(x as int, N as nat, 32);
                Self::lemma_of_val(Bits::Short(y), x as nat);
            }
            Bits::Short(y)
        }
    }
}

impl<const N: usize> vstd::std_specs::convert::FromSpecImpl<LiteralType> for Bits<N> {
    open spec fn obeys_from_spec() -> bool {
        true
    }

    open spec fn from_spec(x: LiteralType) -> Self {
        Self::from_val(x as nat)
    }
}

/// Narrows or widens a vector to `M` bits: narrowing drops the most
/// significant bits, widening pads them with zeros.
pub fn bit_cast<const M: usize, const N: usize>(x: Bits<N>) -> (r: Bits<M>)
    requires
        x.wf(),
    ensures
        r.wf(),
        r.val() == x.val() % pow2(M as nat),
        r@ == resize_seq(x@, M as nat),
        r == Bits::<M>::from_val(x.val()),
{
    let r = bit_cast_value::<M, N>(x);
    proof {
        Bits::<M>::lemma_of_val(r, x.val());
        Bits::<M>::lemma_wf_view(r);
        crate::hdl_core::bit_math::lemma_seq_val_resize(x@, M as nat);
        crate::hdl_core::bit_math::lemma_seq_val_injective(r@, resize_seq(x@, M as nat));
    }
    r
}

fn bit_cast_value<const M: usize, const N: usize>(x: Bits<N>) -> (r: Bits<M>)
    requires
        x.wf(),
    ensures
        r.wf(),
        r.val() == x.val() % pow2(M as nat),
{
    match x {
        Bits::Short(t) => {
            proof {
                ShortBitVec::<N>::lemma_view_val(t);
            }
            let t: ShortType = t.into();
            let t = if M < N {
                let m = ShortBitVec::<M>::mask().short();
                proof {
                    lemma2_to64();
                    lemma_pow2_strictly_increases(M as nat, 32);
                    crate::hdl_core::bit_math::lemma_u32_mask(t, m, M as nat);
                }
                t & m
            } else {
                proof {
                    if M > N {
                        lemma_pow2_strictly_increases(N as nat, M as nat);
                    }
                    lemma_small_mod(t as nat, pow2(M as nat));
                }
                t
            };
            proof {
                lemma_pow2_pos(M as nat);
                lemma_mod_twice(x.val() as int, pow2(M as nat) as int);
            }
            let k: Bits<M> = Bits::from(t as LiteralType);
            k
        },
        Bits::Long(t) => {
            if M > SHORT_BITS {
                let y: BitVec<M> = t.resize();
                proof {
                    crate::hdl_core::bit_math::lemma_seq_val_resize(t@, M as nat);
                }
                Bits::Long(y)
            } else {
                let k: ShortType = t.into();
                let y: ShortBitVec<M> = k.into();
                proof {
                    ShortBitVec::<M>::lemma_from_word(k);
                    ShortBitVec::<M>::lemma_view_val(y);
                    lemma2_to64();
                    lemma_mod_pow2_mod(t.val() as int, M as nat, 32);
                }
                Bits::Short(y)
            }
        },
    }
}

impl<const N: usize> Bits<N> {
    /// True when some bit is set (the OR of all bits).
    pub fn any(&self) -> (r: bool)
        requires
            self.wf(),
        ensures
            r == (exists|i: int| 0 <= i < N && #[trigger] self@[i]),
            r == (self.val() != 0),
    {
        match self {
            Bits::Short(x) => {
                let r = x.any();
                proof {
                    ShortBitVec::<N>::lemma_view_val(*x);
                    assert(self@ == x@);
                    assert(forall|i: int| 0 <= i < N ==> self@[i] == x@[i]);
                }
                r
            },
            Bits::Long(x) => {
                let r = x.any();
                proof {
                    assert(self@ == x@);
                    assert(forall|i: int| 0 <= i < N ==> self@[i] == x@[i]);
                }
                r
            },
        }
    }

    /// True when every bit is set (the AND of all bits).
    pub fn all(&self) -> (r: bool)
        requires
            self.wf(),
        ensures
            r == (forall|i: int| 0 <= i < N ==> #[trigger] self@[i]),
            r == (self.val() == pow2(N as nat) - 1),
    {
        match self {
            Bits::Short(x) => {
                let r = x.all();
                proof {
                    ShortBitVec::<N>::lemma_view_val(*x);
                    assert(self@ == x@);
                    assert(forall|i: int| 0 <= i < N ==> self@[i] == x@[i]);
                }
                r
            },
            Bits::Long(x) => {
                let r = x.all();
                proof {
                    assert(self@ == x@);
                    assert(forall|i: int| 0 <= i < N ==> self@[i] == x@[i]);
                }
                r
            },
        }
    }

    /// The exclusive OR of all bits: true when an odd number of them are set.
    pub fn xor(&self) -> (r: bool)
        requires
            self.wf(),
        ensures
            r == seq_parity(self@),
    {
        match self {
            Bits::Short(x) => x.xor(),
            Bits::Long(x) => x.xor(),
        }
    }

    /// The value as an index; only vectors of at most [SHORT_BITS] bits can serve.
    pub fn index(&self) -> (r: usize)
        requires
            self.wf(),
            N <= 32,
        ensures
            r == self.val(),
    {
        match self {
            Bits::Short(x) => {
                proof {
                    ShortBitVec::<N>::lemma_view_val(*x);
                }
                x.short() as usize
            },
            Bits::Long(_) => {
                proof {
                    assert(false);
                }
                0
            },
        }
    }

    /// The width `N`.
    pub fn len(&self) -> (r: usize)
        ensures
            r == N,
    {
        N
    }

    /// True when the width is zero.
    pub fn is_empty(&self) -> (r: bool)
        ensures
            r == (N == 0),
    {
        N == 0
    }

    /// The number of values the width can hold, `2^N`.
    pub fn count() -> (r: u128)
        requires
            N < 128,
        ensures
            r == pow2(N as nat),
    {
        proof {
            crate::hdl_core::bit_math::lemma_u128_one_shl(N as u32);
        }
        1u128 << (N as u32)
    }

    /// Bit `index`.
    pub fn get_bit(&self, index: usize) -> (r: bool)
        requires
            self.wf(),
            index < N,
        ensures
            r == self@[index as int],
    {
        match self {
            Bits::Short(x) => x.get_bit(index),
            Bits::Long(x) => x.get_bit(index),
        }
    }

    /// The same vector with bit `index` set to `val`.
    pub fn replace_bit(&self, index: usize, val: bool) -> (r: Self)
        requires
            self.wf(),
            index < N,
        ensures
            r.wf(),
            r@ == self@.update(index as int, val),
    {
        match self {
            Bits::Short(x) => Bits::Short(x.replace_bit(index, val)),
            Bits::Long(x) => Bits::Long(x.replace_bit(index, val)),
        }
    }

    /// The vector with all `N` bits set.
    pub fn mask() -> (r: Bits<N>)
        ensures
            r.wf(),
            forall|i: int| 0 <= i < N ==> #[trigger] r@[i],
            r.val() == pow2(N as nat) - 1,
    {
        if N <= SHORT_BITS {
            let m = ShortBitVec::<N>::mask();
            proof {
                ShortBitVec::<N>::lemma_view_val(m);
            }
            Bits::Short(m)
        } else {
            let a = [true; N];
            let m: BitVec<N> = BitVec::from(a);
            proof {
                BitVec::<N>::lemma_view(m);
                lemma_seq_val_ones(m@);
            }
            Bits::Long(m)
        }
    }

    /// The width in bits.
    pub fn width() -> (r: usize)
        ensures
            r == N,
    {
        N
    }

    /// The value as a `u8`; the width must be at most 8.
    pub fn to_u8(self) -> (r: u8)
        requires
            self.wf(),
            N <= 8,
        ensures
            r == self.val(),
    {
        let x: LiteralType = LiteralType::from(self);
        proof {
            Self::lemma_wf_view(self);
            if N < 8 {
                lemma_pow2_strictly_increases(N as nat, 8);
            }
            lemma2_to64();
        }
        x as u8
    }

    /// The value as a `u16`; the width must be at most 16.
    pub fn to_u16(self) -> (r: u16)
        requires
            self.wf(),
            N <= 16,
        ensures
            r == self.val(),
    {
        let x: LiteralType = LiteralType::from(self);
        proof {
            Self::lemma_wf_view(self);
            if N < 16 {
                lemma_pow2_strictly_increases(N as nat, 16);
            }
            lemma2_to64();
        }
        x as u16
    }

    /// The value as a `u32`; the width must be at most 32.
    pub fn to_u32(self) -> (r: u32)
        requires
            self.wf(),
            N <= 32,
        ensures
            r == self.val(),
    {
        let x: LiteralType = LiteralType::from(self);
        proof {
            Self::lemma_wf_view(self);
            if N < 32 {
                lemma_pow2_strictly_increases(N as nat, 32);
            }
            lemma2_to64();
        }
        x as u32
    }

    /// The value as a `u64`; the width must be at most 64.
    pub fn to_u64(self) -> (r: u64)
        requires
            self.wf(),
            N <= 64,
        ensures
            r == self.val(),
    {
        LiteralType::from(self)
    }

    /// The value as a `u128`; the width must be at most 128.
    pub fn to_u128(self) -> (r: u128)
        requires
            self.wf(),
            N <= 128,
        ensures
            r == self.val(),
    {
        match self {
            Bits::Short(x) => {
                proof {
                    ShortBitVec::<N>::lemma_view_val(x);
                }
                x.short() as u128
            },
            Bits::Long(x) => {
                proof {
                    BitVec::<N>::lemma_view(x);
                    lemma_pow2_adds(64, 64);
                    lemma2_to64();
                    if N < 128 {
                        lemma_pow2_strictly_increases(N as nat, 128);
                    }
                    lemma_small_mod(x.val(), pow2(128));
                }
                u128::from(x)
            },
        }
    }
}

impl<const N: usize> From<Bits<N>> for LiteralType {
    /// The value, keeping its low 64 bits.
    fn from(x: Bits<N>) -> (r: LiteralType)
        ensures
            x.wf() ==> r == x.val() % pow2(64),
            x.wf() && N <= 64 ==> r == x.val(),
    {
        match x {
            Bits::Short(t) => {
                proof {
                    if x.wf() {
                        ShortBitVec::<N>::lemma_view_val(t);
                        lemma2_to64();
                        lemma_pow2_strictly_increases(32, 64);
                        lemma_small_mod(t.val(), pow2(64));
                    }
                }
                let p: ShortType = t.into();
                p as LiteralType
            },
            Bits::Long(t) => {
                proof {
                    BitVec::<N>::lemma_view(t);
                    lemma2_to64();
                    if N < 64 {
                        lemma_pow2_strictly_increases(N as nat, 64);
                    }
                    if N <= 64 {
                        lemma_small_mod(t.val(), pow2(64));
                    }
                }
                LiteralType::from(t)
            },
        }
    }
}

impl<const N: usize> vstd::std_specs::convert::FromSpecImpl<Bits<N>> for LiteralType {
    open spec fn obeys_from_spec() -> bool {
        true
    }

    open spec fn from_spec(x: Bits<N>) -> LiteralType {
        match x {
            Bits::Short(t) => t.word() as LiteralType,
            Bits::Long(t) => (t.val() % pow2(64)) as LiteralType,
        }
    }
}

impl From<bool> for Bits<1> {
    /// A one-bit vector holding the flag.
    fn from(x: bool) -> (r: Self)
        ensures
            r.wf(),
            r@ == seq![x],
    {
        let r: Bits<1> = if x {
            Bits::from(1u64)
        } else {
            Bits::from(0u64)
        };
        proof {
            lemma2_to64();
            Self::lemma_wf_view(r);
            assert(r@.len() == 1);
            assert(r.val() == (if r@[0] { 1nat } else { 0nat }) + 2 * seq_val(r@.drop_first()));
            assert(r@.drop_first().len() == 0);
            assert(r@ =~= seq![x]);
        }
        r
    }
}

impl vstd::std_specs::convert::FromSpecImpl<bool> for Bits<1> {
    open spec fn obeys_from_spec() -> bool {
        true
    }

    open spec fn from_spec(x: bool) -> Self {
        Self::from_val(if x {
            1
        } else {
            0
        })
    }
}

impl From<Bits<1>> for bool {
    /// The single bit.
    fn from(val: Bits<1>) -> (r: bool) {
        match val {
            Bits::Short(t) => {
                proof {
                    crate::hdl_core::bit_math::lemma_bv_low_bit(t.word());
                }
                (t.short() & 1u32) != 0u32
            },
            Bits::Long(t) => t.get_bit(0),
        }
    }
}

impl vstd::std_specs::convert::FromSpecImpl<Bits<1>> for bool {
    open spec fn obeys_from_spec() -> bool {
        true
    }

    open spec fn from_spec(val: Bits<1>) -> bool {
        val@[0]
    }
}

impl<const N: usize> Default for Bits<N> {
    /// The all-zero vector.
    fn default() -> (r: Bits<N>)
        ensures
            r.wf(),
            r.val() == 0,
    {
        proof {
            lemma_pow2_pos(N as nat);
        }
        bits::<N>(0)
    }
}

/// Conversion of the unsigned integer types into [Bits] of a chosen width.
pub trait ToBits: Sized {
    /// The number the value stands for.
    spec fn bits_value(self) -> nat;

    /// The vector of width `N` holding the value, which must fit.
    fn to_bits<const N: usize>(self) -> (r: Bits<N>)
        requires
            self.bits_value() < pow2(N as nat),
        ensures
            r.wf(),
            r.val() == self.bits_value(),
    ;
}

impl ToBits for u8 {
    open spec fn bits_value(self) -> nat {
        self as nat
    }

    fn to_bits<const N: usize>(self) -> (r: Bits<N>) {
        proof {
            lemma_small_mod(self as nat, pow2(N as nat));
        }
        Bits::from(self as LiteralType)
    }
}

impl ToBits for u16 {
    open spec fn bits_value(self) -> nat {
        self as nat
    }

    fn to_bits<const N: usize>(self) -> (r: Bits<N>) {
        proof {
            lemma_small_mod(self as nat, pow2(N as nat));
        }
        Bits::from(self as LiteralType)
    }
}

impl ToBits for u32 {
    open spec fn bits_value(self) -> nat {
        self as nat
    }

    fn to_bits<const N: usize>(self) -> (r: Bits<N>) {
        proof {
            lemma_small_mod(self as nat, pow2(N as nat));
        }
        Bits::from(self as LiteralType)
    }
}

impl ToBits for u64 {
    open spec fn bits_value(self) -> nat {
        self as nat
    }

    fn to_bits<const N: usize>(self) -> (r: Bits<N>) {
        proof {
            lemma_small_mod(self as nat, pow2(N as nat));
        }
        Bits::from(self)
    }
}

impl ToBits for usize {
    open spec fn bits_value(self) -> nat {
        self as nat
    }

    fn to_bits<const N: usize>(self) -> (r: Bits<N>) {
        proof {
            lemma_small_mod(self as nat, pow2(N as nat));
        }
        Bits::from(self as LiteralType)
    }
}

impl ToBits for u128 {
    open spec fn bits_value(self) -> nat {
        self as nat
    }

    fn to_bits<const N: usize>(self) -> (r: Bits<N>) {
        proof {
            lemma_small_mod(self as nat, pow2(N as nat));
        }
        if N > SHORT_BITS {
            let y: BitVec<N> = BitVec::from(self);
            proof {
                lemma_nat_bits_val(self as nat, N as nat);
            }
            Bits::Long(y)
        } else {
            proof {
                lemma2_to64();
                if N < 32 {
                    lemma_pow2_strictly_increases(N as nat, 32);
                }
            }
            Bits::from(self as LiteralType)
        }
    }
}

} // verus!
