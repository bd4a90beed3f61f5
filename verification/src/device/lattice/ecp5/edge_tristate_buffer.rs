//! Verilog for registered tristate buffers in the I/O cells of an ECP5 part.
use crate::text::decimal::{decimal_digits, decimal_string};
use crate::text::lines::{join_seq, join_strings, lemma_strings_view_push, strings_view};
use crate::hdl_core::ast::{Verilog, Wrapper};
use vstd::prelude::*;

verus! {

/// The buffer for a single bit.
pub open spec fn tristate_once() -> Seq<char> {
    "\n    wire bb_input;\n    wire bb_output;\n\n    OFS1P3DX obuf(.D(to_pin), .CD(0), .SP(1), .SCLK(clk), .Q(bb_input));\n    IFS1P3DX ibuf(.D(bb_output), .CD(0), .SP(1), .SCLK(clk), .Q(from_pin));\n    BB bb(.I(bb_input), .O(bb_output), .B(pin), .T(output_enable));\n"@
}

/// The Verilog that places one registered tristate buffer on a one-bit pin.
pub fn wrapper_once() -> (r: &'static str)
    ensures
        r@ == tristate_once(),
{
    "\n    wire bb_input;\n    wire bb_output;\n\n    OFS1P3DX obuf(.D(to_pin), .CD(0), .SP(1), .SCLK(clk), .Q(bb_input));\n    IFS1P3DX ibuf(.D(bb_output), .CD(0), .SP(1), .SCLK(clk), .Q(from_pin));\n    BB bb(.I(bb_input), .O(bb_output), .B(pin), .T(output_enable));\n"
}

/// The buffer for bit `x`.
pub open spec fn tristate_cell(x: nat) -> Seq<char> {
    "\n    OFS1P3DX obuf_"@
        + decimal_digits(x)
        + "(.D(to_pin["@
        + decimal_digits(x)
        + "]), .CD(0), .SP(1), .SCLK(clk), .Q(bb_input["@
        + decimal_digits(x)
        + "]));\n    IFS1P3DX ibuf_"@
        + decimal_digits(x)
        + "(.D(bb_output["@
        + decimal_digits(x)
        + "]), .CD(0), .SP(1), .SCLK(clk), .Q(from_pin["@
        + decimal_digits(x)
        + "]));\n    BB bb_"@
        + decimal_digits(x)
        + "(.I(bb_input["@
        + decimal_digits(x)
        + "]), .O(bb_output["@
        + decimal_digits(x)
        + "]), .B(pin["@
        + decimal_digits(x)
        + "]), .T(output_enable));\n        "@
}

fn tristate_cell_text(x: u64) -> (r: String)
    ensures
        r@ == tristate_cell(x as nat),
{
    let mut s = String::new();
    s.append("\n    OFS1P3DX obuf_");
    s.append(decimal_string(x).as_str());
    s.append("(.D(to_pin[");
    s.append(decimal_string(x).as_str());
    s.append("]), .CD(0), .SP(1), .SCLK(clk), .Q(bb_input[");
    s.append(decimal_string(x).as_str());
    s.append("]));\n    IFS1P3DX ibuf_");
    s.append(decimal_string(x).as_str());
    s.append("(.D(bb_output[");
    s.append(decimal_string(x).as_str());
    s.append("]), .CD(0), .SP(1), .SCLK(clk), .Q(from_pin[");
    s.append(decimal_string(x).as_str());
    s.append("]));\n    BB bb_");
    s.append(decimal_string(x).as_str());
    s.append("(.I(bb_input[");
    s.append(decimal_string(x).as_str());
    s.append("]), .O(bb_output[");
    s.append(decimal_string(x).as_str());
    s.append("]), .B(pin[");
    s.append(decimal_string(x).as_str());
    s.append("]), .T(output_enable));\n        ");
    s
}

/// The wires and buffers for `count` bits.
pub open spec fn tristate_multiple(count: nat, bufs: Seq<char>) -> Seq<char> {
    "\nwire ["@
        + decimal_digits(count)
        + ":0] bb_input;\nwire ["@
        + decimal_digits(count)
        + ":0] bb_output;\n\n"@
        + bufs
        + "\n    "@
}

/// The Verilog that declares the buffer wires and places one registered
/// tristate buffer per bit, for `count` bits.
pub fn wrapper_multiple(count: usize) -> (r: String)
    ensures
        r@ == tristate_multiple(
            count as nat,
            join_seq(Seq::new(count as nat, |i: int| tristate_cell(i as nat)), seq!['\n']),
        ),
{
    let mut parts: Vec<String> = Vec::new();
    for x in 0..count
        invariant
            strings_view(parts@) == Seq::new(x as nat, |i: int| tristate_cell(i as nat)),
    {
        let ghost before = parts@;
        let piece = tristate_cell_text(x as u64);
        parts.push(piece);
        proof {
            lemma_strings_view_push(before, piece);
            assert(strings_view(parts@) =~= Seq::new(
                (x + 1) as nat,
                |i: int| tristate_cell(i as nat),
            ));
        }
    }
    proof {
        reveal_strlit("\n");
        assert("\n"@ =~= seq!['\n']);
    }
    let bufs = join_strings(&parts, "\n");
    let mut s = String::new();
    s.append("\nwire [");
    s.append(decimal_string(count as u64).as_str());
    s.append(":0] bb_input;\nwire [");
    s.append(decimal_string(count as u64).as_str());
    s.append(":0] bb_output;\n\n");
    s.append(bufs.as_str());
    s.append("\n    ");
    s
}

/// The declarations of the I/O cells that the code uses.
pub open spec fn cores() -> Seq<char> {
    "\n(* blackbox *)\nmodule IFS1P3DX(input D, input SP, input SCLK, input CD, output Q);\nendmodule\n\n(* blackbox *)\nmodule OFS1P3DX(input D, input SP, input SCLK, input CD, output Q);\nendmodule\n\n(* blackbox *)\nmodule BB(input I, input T, output O, inout B);\nendmodule\n            "@
}

/// The code for a signal of `count` bits.
pub open spec fn wrapper_code(count: nat) -> Seq<char> {
    if count == 1 {
        tristate_once()
    } else {
        tristate_multiple(count, join_seq(Seq::new(count, |i: int| tristate_cell(i as nat)), seq!['\n']))
    }
}

/// The Verilog of registered tristate buffers on a signal of `bits` bits: the cells wrapped
/// around the declarations they use.
pub fn hdl(bits: usize) -> (r: Verilog)
    ensures
        r matches Verilog::Wrapper(w) && w.code@ == wrapper_code(bits as nat) && w.cores@
            == cores(),
{
    let code = if bits == 1 {
        String::from_str(wrapper_once())
    } else {
        wrapper_multiple(bits)
    };
    let cores = String::from_str("\n(* blackbox *)\nmodule IFS1P3DX(input D, input SP, input SCLK, input CD, output Q);\nendmodule\n\n(* blackbox *)\nmodule OFS1P3DX(input D, input SP, input SCLK, input CD, output Q);\nendmodule\n\n(* blackbox *)\nmodule BB(input I, input T, output O, inout B);\nendmodule\n            ");
    Verilog::Wrapper(Wrapper { code, cores })
}

} // verus!
