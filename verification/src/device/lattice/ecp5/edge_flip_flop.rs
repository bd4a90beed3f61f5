//! Verilog for output flip-flops in the I/O cells of an ECP5 part.
use crate::text::decimal::{decimal_digits, decimal_string};
use crate::text::lines::{join_seq, join_strings, lemma_strings_view_push, strings_view};
use crate::hdl_core::ast::{Verilog, Wrapper};
use vstd::prelude::*;

verus! {

/// The cell for a single bit.
pub open spec fn flip_flop_once() -> Seq<char> {
    "\nOFS1P3DX inst_OFS1P3DX(.SCLK(clk), .SP(1), .D(d), .Q(q), .CD(0));\n    "@
}

/// The Verilog that places one output flip-flop on a one-bit signal.
pub fn wrapper_once() -> (r: &'static str)
    ensures
        r@ == flip_flop_once(),
{
    "\nOFS1P3DX inst_OFS1P3DX(.SCLK(clk), .SP(1), .D(d), .Q(q), .CD(0));\n    "
}

/// The flip-flop for bit `x`.
pub open spec fn flip_flop_cell(x: nat) -> Seq<char> {
    "\nOFS1P3DX ofs_"@
        + decimal_digits(x)
        + "(.SCLK(clk), .SP(1), .D(d["@
        + decimal_digits(x)
        + "]), .Q(d["@
        + decimal_digits(x)
        + "]), .CD(0));\n"@
}

fn flip_flop_cell_text(x: u64) -> (r: String)
    ensures
        r@ == flip_flop_cell(x as nat),
{
    let mut s = String::new();
    s.append("\nOFS1P3DX ofs_");
    s.append(decimal_string(x).as_str());
    s.append("(.SCLK(clk), .SP(1), .D(d[");
    s.append(decimal_string(x).as_str());
    s.append("]), .Q(d[");
    s.append(decimal_string(x).as_str());
    s.append("]), .CD(0));\n");
    s
}

/// The Verilog that places one output flip-flop per bit, for `count` bits,
/// the cells separated by newlines.
pub fn wrapper_multiple(count: usize) -> (r: String)
    ensures
        r@ == join_seq(Seq::new(count as nat, |i: int| flip_flop_cell(i as nat)), seq!['\n']),
{
    let mut parts: Vec<String> = Vec::new();
    for x in 0..count
        invariant
            strings_view(parts@) == Seq::new(x as nat, |i: int| flip_flop_cell(i as nat)),
    {
        let ghost before = parts@;
        let piece = flip_flop_cell_text(x as u64);
        parts.push(piece);
        proof {
            lemma_strings_view_push(before, piece);
            assert(strings_view(parts@) =~= Seq::new(
                (x + 1) as nat,
                |i: int| flip_flop_cell(i as nat),
            ));
        }
    }
    proof {
        reveal_strlit("\n");
        assert("\n"@ =~= seq!['\n']);
    }
    let bufs = join_strings(&parts, "\n");
    bufs
}

/// The declarations of the I/O cells that the code uses.
pub open spec fn cores() -> Seq<char> {
    "\n(* blackbox *)\nmodule OFS1P3DX(input D, input SP, input SCLK, input CD, output Q);\nendmodule\n            "@
}

/// The code for a signal of `count` bits.
pub open spec fn wrapper_code(count: nat) -> Seq<char> {
    if count == 1 {
        flip_flop_once()
    } else {
        join_seq(Seq::new(count, |i: int| flip_flop_cell(i as nat)), seq!['\n'])
    }
}

/// The Verilog of output flip-flops on a signal of `bits` bits: the cells wrapped
/// around the declarations they use.
pub fn hdl(bits: usize) -> (r: Verilog)
    ensures
        r matches Verilog::Wrapper(w) && w.code@ == wrapper_code(bits as nat) && w.cores@
            == cores(),
{
    let code = if bits == 1 {
        String::from_str(wrapper_once())
    } else {
        wrapper_multiple(bits)
    };
    let cores = String::from_str("\n(* blackbox *)\nmodule OFS1P3DX(input D, input SP, input SCLK, input CD, output Q);\nendmodule\n            ");
    Verilog::Wrapper(Wrapper { code, cores })
}

/// `t` stands somewhere in `s`.
pub open spec fn holds_text(s: Seq<char>, t: Seq<char>) -> bool {
    exists|i: int| 0 <= i && i + t.len() <= s.len() && #[trigger] s.subrange(i, i + t.len()) == t
}

/// Law: the cell of a one-bit signal feeds the wrapper's input `d` to the
/// flip-flop's `D` pin and drives the wrapper's output `q` from its `Q` pin.
pub proof fn law_one_bit_cell_connects_d_to_q()
    ensures
        holds_text(wrapper_code(1), seq!['.', 'D', '(', 'd', ')']),
        holds_text(wrapper_code(1), seq!['.', 'Q', '(', 'q', ')']),
{
    reveal_strlit("\nOFS1P3DX inst_OFS1P3DX(.SCLK(clk), .SP(1), .D(d), .Q(q), .CD(0));\n    ");
    let s = wrapper_code(1);
    let d = seq!['.', 'D', '(', 'd', ')'];
    let q = seq!['.', 'Q', '(', 'q', ')'];
    assert(s.subrange(44int, 44int + d.len()) =~= d);
    assert(s.subrange(51int, 51int + q.len()) =~= q);
}

} // verus!
