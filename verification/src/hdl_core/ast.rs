//! The Verilog syntax tree that a circuit's `hdl` hands to the code
//! generator: statements, expressions and literals.
use crate::hdl_core::bit_math::{lemma_seq_val_ones, seq_val};
use crate::hdl_core::bits::Bits;
use crate::hdl_core::bits_text::hex_char;
use crate::text::chars::push_char;
use crate::text::decimal::{decimal_digits, decimal_string};
use num_bigint::BigUint;
use vstd::arithmetic::power2::*;
use vstd::prelude::*;

verus! {

/// Verilog for an external IP core, copied to the output as it stands.
#[derive(Debug, Clone)]
pub struct BlackBox {
    pub code: String,
    pub name: String,
}

/// Verilog that wraps external IP cores inside a generated module.
#[derive(Debug, Clone)]
pub struct Wrapper {
    pub code: String,
    pub cores: String,
}

/// A connection between a signal and its counterpart in another module.
#[derive(Debug, Clone)]
pub enum VerilogLink {
    Forward(VerilogLinkDetails),
    Backward(VerilogLinkDetails),
    Bidirectional(VerilogLinkDetails),
}

/// The names on both ends of a [VerilogLink].
#[derive(Debug, Clone)]
pub struct VerilogLinkDetails {
    pub my_name: String,
    pub owner_name: String,
    pub other_name: String,
}

/// How a module is given in Verilog.
#[derive(Debug)]
pub enum Verilog {
    /// No Verilog at all for the module.
    Empty,
    /// A combinatorial block, generated from the module's update code.
    Combinatorial(VerilogBlock),
    /// Verilog written by hand.
    Custom(String),
    /// A reference to an IP core.
    Blackbox(BlackBox),
    /// External Verilog wrapped into a module.
    Wrapper(Wrapper),
}

impl Default for Verilog {
    fn default() -> (r: Self)
        ensures
            r is Empty,
    {
        Verilog::Empty
    }
}

/// A sequence of statements.
pub type VerilogBlock = Vec<VerilogStatement>;

/// A statement of a combinatorial block.
#[derive(Debug)]
pub enum VerilogStatement {
    Assignment(VerilogExpression, VerilogExpression),
    SliceAssignment {
        base: String,
        width: usize,
        offset: VerilogExpression,
        replacement: VerilogExpression,
    },
    If(VerilogConditional),
    Match(VerilogMatch),
    Loop(VerilogLoop),
    Comment(String),
    Link(Vec<VerilogLink>),
}

/// An assignment to one indexed element.
#[derive(Debug)]
pub struct VerilogIndexAssignment {
    pub target: VerilogExpression,
    pub index: VerilogExpression,
    pub value: VerilogExpression,
}

/// `if`, its block, and what follows `else`.
#[derive(Debug)]
pub struct VerilogConditional {
    pub test: VerilogExpression,
    pub then_block: VerilogBlock,
    pub otherwise: VerilogBlockOrConditional,
}

/// A loop unrolled at generation time: `index` runs from `from` up to,
/// not including, `to`.
#[derive(Debug)]
pub struct VerilogLoop {
    pub index: String,
    pub from: VerilogLiteral,
    pub to: VerilogLiteral,
    pub block: VerilogBlock,
}

/// What follows `else`: a block, another conditional, or nothing.
#[derive(Debug)]
pub enum VerilogBlockOrConditional {
    Block(VerilogBlock),
    Conditional(Box<VerilogStatement>),
    Nothing,
}

/// A `case` statement.
#[derive(Debug)]
pub struct VerilogMatch {
    pub test: VerilogExpression,
    pub cases: Vec<VerilogCase>,
}

/// One arm of a `case` statement.
#[derive(Debug)]
pub struct VerilogCase {
    pub condition: String,
    pub block: VerilogBlock,
}

/// An expression.
#[derive(Debug)]
pub enum VerilogExpression {
    Signal(String),
    Literal(VerilogLiteral),
    Cast(Box<VerilogExpression>, usize),
    Paren(Box<VerilogExpression>),
    Binary(Box<VerilogExpression>, VerilogOp, Box<VerilogExpression>),
    Unary(VerilogOpUnary, Box<VerilogExpression>),
    Index(Box<VerilogExpression>, Box<VerilogExpression>),
    Slice(Box<VerilogExpression>, usize, Box<VerilogExpression>),
    IndexReplace(Box<VerilogExpression>, Box<VerilogExpression>, Box<VerilogExpression>),
}

/// Binary operators of Verilog expressions.
#[derive(Debug, Clone, Copy, PartialEq, Eq, Structural)]
pub enum VerilogOp {
    Add,
    Sub,
    Mul,
    LogicalAnd,
    LogicalOr,
    BitXor,
    BitAnd,
    BitOr,
    Shl,
    Shr,
    Eq,
    Lt,
    Le,
    Ne,
    Ge,
    Gt,
}

/// Unary operators of Verilog expressions.
#[derive(Debug, Clone, Copy, PartialEq, Eq, Structural)]
pub enum VerilogOpUnary {
    Not,
    Neg,
    All,
    Any,
    Xor,
}

/// The digits of `v` in base `base`, most significant first, without
/// leading zeros (zero is the single digit `0`); letters are lower case.
pub open spec fn radix_digits(v: nat, base: nat) -> Seq<char>
    decreases v,
{
    if base < 2 || v < base {
        seq![hex_char(v, false)]
    } else {
        proof {
            assert(v / base < v) by (nonlinear_arith)
                requires
                    base >= 2,
                    v >= base,
            ;
        }
        radix_digits(v / base, base).push(hex_char(v % base, false))
    }
}

/// The number whose base `2^32` digits, least significant first, are `d`.
pub open spec fn digits_value(d: Seq<u32>) -> nat
    decreases d.len(),
{
    if d.len() == 0 {
        0
    } else {
        (d[0] + 0x1_0000_0000 * digits_value(d.drop_first())) as nat
    }
}

/// `BigUint::from_radix_le` of the bits as base-2 digits, then
/// `to_str_radix`: the contract claims the shortest digits of the bits'
/// value in the given radix, lower case.
#[verifier::external_body]
pub(crate) fn radix_text(val: &Vec<bool>, radix: u32) -> (r: String)
    requires
        2 <= radix <= 36,
    ensures
        r@ == radix_digits(seq_val(val@), radix as nat),
{
    let digits: Vec<u8> = val.iter().map(|b| u8::from(*b)).collect();
    BigUint::from_radix_le(&digits, 2).unwrap().to_str_radix(radix)
}

/// `BigUint::from_radix_le` of the bits as base-2 digits, then
/// `to_u32_digits`: the contract claims the base `2^32` digits of the
/// bits' value, least significant first, without a zero at the top.
#[verifier::external_body]
fn u32_digits(val: &Vec<bool>) -> (r: Vec<u32>)
    ensures
        digits_value(r@) == seq_val(val@),
        r@.len() == 0 || r@.last() != 0,
{
    let digits: Vec<u8> = val.iter().map(|b| u8::from(*b)).collect();
    BigUint::from_radix_le(&digits, 2).unwrap().to_u32_digits()
}

/// Digits without a zero at the top stand for at least one.
proof fn lemma_digits_positive(d: Seq<u32>)
    requires
        d.len() > 0,
        d.last() != 0,
    ensures
        digits_value(d) >= 1,
    decreases d.len(),
{
    if d.len() > 1 {
        assert(d.drop_first().last() == d.last());
        lemma_digits_positive(d.drop_first());
    }
}

/// A number of a given width in bits, as it is written in Verilog.
#[derive(Debug, Clone)]
pub struct VerilogLiteral {
    val: Vec<bool>,
    bits: usize,
}

impl VerilogLiteral {
    /// The number.
    pub closed spec fn value(&self) -> nat {
        seq_val(self.val@)
    }

    /// The width in bits.
    pub closed spec fn width(&self) -> usize {
        self.bits
    }

    /// The Verilog text: the width, `'`, then `b` and binary digits for a
    /// width below 20 that is not a multiple of four, else `h` and
    /// hexadecimal digits.
    pub open spec fn text(&self) -> Seq<char> {
        decimal_digits(self.width() as nat) + seq!['\''] + if self.width() % 4 != 0
            && self.width() < 20 {
            seq!['b'] + radix_digits(self.value(), 2)
        } else {
            seq!['h'] + radix_digits(self.value(), 16)
        }
    }

    /// The literal of a vector: its width and value.
    pub fn from_bits<const N: usize>(x: Bits<N>) -> (r: Self)
        requires
            x.wf(),
        ensures
            r.width() == N,
            r.value() == x.val(),
    {
        let mut val: Vec<bool> = Vec::new();
        proof {
            Bits::<N>::lemma_wf_view(x);
        }
        for i in 0..N
            invariant
                x.wf(),
                x@.len() == N,
                val@ == x@.take(i as int),
        {
            val.push(x.get_bit(i));
            assert(val@ =~= x@.take(i + 1));
        }
        assert(x@.take(N as int) =~= x@);
        VerilogLiteral { val, bits: N }
    }

    /// The one-bit literal of a bit.
    pub fn from_bool(x: bool) -> (r: Self)
        ensures
            r.width() == 1,
            r.value() == (if x {
                1nat
            } else {
                0nat
            }),
    {
        let mut val: Vec<bool> = Vec::new();
        val.push(x);
        proof {
            assert(val@.drop_first() =~= Seq::<bool>::empty());
            assert(seq_val(val@.drop_first()) == 0);
        }
        VerilogLiteral { val, bits: 1 }
    }

    /// The 64-bit literal of a number.
    pub fn from_u64(x: u64) -> (r: Self)
        ensures
            r.width() == 64,
            r.value() == x,
    {
        let b: Bits<64> = Bits::from(x);
        proof {
            lemma2_to64();
            assert(pow2(64) == 0x1_0000_0000_0000_0000);
        }
        Self::from_bits(b)
    }

    /// The 32-bit literal of a number.
    pub fn from_u32(x: u32) -> (r: Self)
        ensures
            r.width() == 32,
            r.value() == x,
    {
        let b: Bits<32> = Bits::from(x as u64);
        proof {
            lemma2_to64();
        }
        Self::from_bits(b)
    }

    /// The number as a machine word.
    pub fn as_usize(&self) -> (r: usize)
        requires
            self.value() < 0x1_0000_0000,
        ensures
            r == self.value(),
    {
        let m = u32_digits(&self.val);
        if m.len() == 0 {
            0
        } else if m.len() == 1 {
            proof {
                assert(m@.drop_first() =~= Seq::<u32>::empty());
            }
            m[0] as usize
        } else {
            proof {
                lemma_digits_positive(m@.drop_first());
                assert(m@.drop_first().last() == m@.last());
            }
            0
        }
    }

    /// Whether the number fits in 32 bits.
    pub fn fits_u32(&self) -> (r: bool)
        ensures
            r == (self.value() < 0x1_0000_0000),
    {
        let m = u32_digits(&self.val);
        if m.len() <= 1 {
            proof {
                if m@.len() == 1 {
                    assert(m@.drop_first() =~= Seq::<u32>::empty());
                    assert(digits_value(m@.drop_first()) == 0);
                }
            }
            true
        } else {
            proof {
                lemma_digits_positive(m@.drop_first());
                assert(m@.drop_first().last() == m@.last());
            }
            false
        }
    }

    /// The Verilog text of the literal.
    pub fn to_string(&self) -> (r: String)
        ensures
            r@ == self.text(),
    {
        let mut r = decimal_string(self.bits as u64);
        push_char(&mut r, '\'');
        if self.bits % 4 != 0 && self.bits < 20 {
            push_char(&mut r, 'b');
            let digits = radix_text(&self.val, 2);
            r.append(digits.as_str());
        } else {
            push_char(&mut r, 'h');
            let digits = radix_text(&self.val, 16);
            r.append(digits.as_str());
        }
        r
    }

    /// The text `width'h` and hexadecimal digits.
    pub fn to_lower_hex_string(&self) -> (r: String)
        ensures
            r@ == decimal_digits(self.width() as nat) + seq!['\'', 'h'] + radix_digits(
                self.value(),
                16,
            ),
    {
        let mut r = decimal_string(self.bits as u64);
        push_char(&mut r, '\'');
        push_char(&mut r, 'h');
        let digits = radix_text(&self.val, 16);
        r.append(digits.as_str());
        r
    }
}

/// The hexadecimal text of `2^bits - 1`, the mask of the low `bits` bits.
pub fn mask_hex(bits: usize) -> (r: String)
    ensures
        r@ == radix_digits((pow2(bits as nat) - 1) as nat, 16),
{
    let mut ones: Vec<bool> = Vec::new();
    for i in 0..bits
        invariant
            ones@.len() == i,
            forall|k: int| 0 <= k < i ==> ones@[k],
    {
        ones.push(true);
    }
    proof {
        lemma_seq_val_ones(ones@);
    }
    radix_text(&ones, 16)
}

} // verus!
