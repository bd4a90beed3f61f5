//! Text forms of [Bits]: binary and hexadecimal digits, most significant first.
use crate::hdl_core::bit_math::{
    lemma_seq_val_resize, lemma_seq_val_shr, resize_seq, seq_val, shr_seq,
};
use crate::hdl_core::bits::{Bits, LiteralType};
use crate::text::chars::{push_char, string_of};
use vstd::arithmetic::power2::*;
use vstd::prelude::*;

verus! {

/// The binary digits of a bit sequence, most significant first.
pub open spec fn binary_digits(s: Seq<bool>) -> Seq<char> {
    Seq::new(
        s.len(),
        |i: int|
            if s[s.len() - 1 - i] {
                '1'
            } else {
                '0'
            },
    )
}

/// The hexadecimal digit for a value below 16.
pub open spec fn hex_char(v: nat, upper: bool) -> char {
    if v < 10 {
        (48 + v) as char
    } else if upper {
        (55 + v) as char
    } else {
        (87 + v) as char
    }
}

/// The number of hexadecimal digits for `n` bits.
pub open spec fn hex_width(n: nat) -> nat {
    (n + 3) / 4
}

/// The `d` low hexadecimal digits of `v`, most significant first.
pub open spec fn hex_digits(v: nat, d: nat, upper: bool) -> Seq<char> {
    Seq::new(d, |j: int| hex_char((v / pow2((4 * (d - 1 - j)) as nat)) % 16, upper))
}

/// The hexadecimal digit of a value below 16.
fn hex_digit(v: u64, upper: bool) -> (c: char)
    requires
        v < 16,
    ensures
        c == hex_char(v as nat, upper),
{
    let b = v as u8;
    if b < 10 {
        (48u8 + b) as char
    } else if upper {
        (55u8 + b) as char
    } else {
        (87u8 + b) as char
    }
}

impl<const N: usize> Bits<N> {
    /// The `N` binary digits, most significant first.
    pub fn to_binary_string(&self) -> (r: String)
        requires
            self.wf(),
        ensures
            r@ == binary_digits(self@),
    {
        proof {
            Self::lemma_wf_view(*self);
        }
        let mut out = String::new();
        for i in 0..N
            invariant
                self.wf(),
                self@.len() == N,
                out@ == binary_digits(self@).take(i as int),
        {
            let c = if self.get_bit(N - 1 - i) {
                '1'
            } else {
                '0'
            };
            push_char(&mut out, c);
            assert(binary_digits(self@).take(i + 1) =~= binary_digits(self@).take(i as int).push(c));
        }
        assert(binary_digits(self@).take(N as int) =~= binary_digits(self@));
        out
    }

    fn hex_string(&self, upper: bool) -> (r: String)
        requires
            self.wf(),
        ensures
            r@ == hex_digits(self.val(), hex_width(N as nat), upper),
    {
        proof {
            Self::lemma_wf_view(*self);
        }
        let digits: usize = N / 4 + if N % 4 == 0 {
            0
        } else {
            1
        };
        assert(digits == hex_width(N as nat));
        let mut out: Vec<char> = Vec::new();
        for digit in 0..digits
            invariant
                self.wf(),
                self@.len() == N,
                digits == hex_width(N as nat),
                out@ == hex_digits(self.val(), digits as nat, upper).take(digit as int),
        {
            let at: usize = 4 * (digits - 1 - digit);
            let nibble: Bits<4> = self.get_bits(at);
            let v: LiteralType = LiteralType::from(nibble);
            proof {
                Bits::<4>::lemma_wf_view(nibble);
                vstd::arithmetic::power2::lemma2_to64();
                assert(Self::shift_amount(at as nat) == at) by {
                    crate::hdl_core::bit_vec::lemma_usize_pow2();
                    if N <= 32 {
                        vstd::arithmetic::div_mod::lemma_small_mod(at as nat, 32);
                    }
                    vstd::arithmetic::div_mod::lemma_small_mod(
                        at as nat,
                        pow2(usize::BITS as nat),
                    );
                }
                lemma_seq_val_shr(self@, at as nat);
                lemma_seq_val_resize(shr_seq(self@, at as nat), 4);
            }
            let c = hex_digit(v, upper);
            out.push(c);
            assert(hex_digits(self.val(), digits as nat, upper).take(digit + 1) =~= hex_digits(
                self.val(),
                digits as nat,
                upper,
            ).take(digit as int).push(c));
        }
        assert(hex_digits(self.val(), digits as nat, upper).take(digits as int) =~= hex_digits(
            self.val(),
            digits as nat,
            upper,
        ));
        string_of(&out)
    }

    /// The lowercase hexadecimal digits, one per started nibble, most
    /// significant first.
    pub fn to_lower_hex_string(&self) -> (r: String)
        requires
            self.wf(),
        ensures
            r@ == hex_digits(self.val(), hex_width(N as nat), false),
    {
        self.hex_string(false)
    }

    /// The uppercase hexadecimal digits, one per started nibble, most
    /// significant first.
    pub fn to_upper_hex_string(&self) -> (r: String)
        requires
            self.wf(),
        ensures
            r@ == hex_digits(self.val(), hex_width(N as nat), true),
    {
        self.hex_string(true)
    }
}

} // verus!
