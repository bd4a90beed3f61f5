//! Verilog for registered tristate buffers with an input delay on an ECP5 part.
use crate::text::decimal::{decimal_digits, decimal_string};
use crate::text::lines::{join_seq, join_strings, lemma_strings_view_push, strings_view};
use crate::hdl_core::ast::{Verilog, Wrapper};
use vstd::prelude::*;

verus! {

/// The buffer and delay for a single bit.
pub open spec fn delayed_once(delay: nat) -> Seq<char> {
    "\n    wire bb_to_pin;\n    wire bb_from_pin_a;\n    wire bb_from_pin_z;\n\n    OFS1P3DX obuf(.D(to_pin), .CD(1'b0), .SP(1'b1), .SCLK(clk), .Q(bb_to_pin));\n    IFS1P3DX ibuf(.D(bb_from_pin_z), .CD(1'b0), .SP(1'b1), .SCLK(clk), .Q(from_pin));\n    BB bb(.I(bb_to_pin), .O(bb_from_pin_a), .B(pin), .T(~output_enable));\n\n    defparam dg.DEL_VALUE = "@
        + decimal_digits(delay)
        + ";\n    defparam dg.DEL_MODE = \"USER_DEFINED\";\n    DELAYG dg(.A(bb_from_pin_a),.Z(bb_from_pin_z));\n"@
}

/// The Verilog that places one registered tristate buffer with an input
/// delay of `delay` steps on a one-bit pin.
pub fn wrapper_once(delay: u8) -> (r: String)
    ensures
        r@ == delayed_once(delay as nat),
{
    let mut s = String::new();
    s.append("\n    wire bb_to_pin;\n    wire bb_from_pin_a;\n    wire bb_from_pin_z;\n\n    OFS1P3DX obuf(.D(to_pin), .CD(1'b0), .SP(1'b1), .SCLK(clk), .Q(bb_to_pin));\n    IFS1P3DX ibuf(.D(bb_from_pin_z), .CD(1'b0), .SP(1'b1), .SCLK(clk), .Q(from_pin));\n    BB bb(.I(bb_to_pin), .O(bb_from_pin_a), .B(pin), .T(~output_enable));\n\n    defparam dg.DEL_VALUE = ");
    s.append(decimal_string(delay as u64).as_str());
    s.append(";\n    defparam dg.DEL_MODE = \"USER_DEFINED\";\n    DELAYG dg(.A(bb_from_pin_a),.Z(bb_from_pin_z));\n");
    s
}

/// The buffer and delay for bit `x`.
pub open spec fn delayed_cell(x: nat, delay: nat) -> Seq<char> {
    "\n    OFS1P3DX obuf_"@
        + decimal_digits(x)
        + "(.D(to_pin["@
        + decimal_digits(x)
        + "]), .CD(1'b0), .SP(1'b1), .SCLK(clk), .Q(bb_to_pin["@
        + decimal_digits(x)
        + "]));\n    IFS1P3DX ibuf_"@
        + decimal_digits(x)
        + "(.D(bb_from_pin_z["@
        + decimal_digits(x)
        + "]), .CD(1'b0), .SP(1'b1), .SCLK(clk), .Q(from_pin["@
        + decimal_digits(x)
        + "]));\n    BB bb_"@
        + decimal_digits(x)
        + "(.I(bb_to_pin["@
        + decimal_digits(x)
        + "]), .O(bb_from_pin_a["@
        + decimal_digits(x)
        + "]), .B(pin["@
        + decimal_digits(x)
        + "]), .T(~output_enable));\n\n    defparam dg_from_pin_"@
        + decimal_digits(x)
        + ".DEL_VALUE = "@
        + decimal_digits(delay)
        + ";\n    defparam dg_from_pin_"@
        + decimal_digits(x)
        + ".DEL_MODE = \"USER_DEFINED\";\n    DELAYG dg_from_pin_"@
        + decimal_digits(x)
        + "(.A(bb_from_pin_a["@
        + decimal_digits(x)
        + "]),.Z(bb_from_pin_z["@
        + decimal_digits(x)
        + "]));\n        "@
}

fn delayed_cell_text(x: u64, delay: u64) -> (r: String)
    ensures
        r@ == delayed_cell(x as nat, delay as nat),
{
    let mut s = String::new();
    s.append("\n    OFS1P3DX obuf_");
    s.append(decimal_string(x).as_str());
    s.append("(.D(to_pin[");
    s.append(decimal_string(x).as_str());
    s.append("]), .CD(1'b0), .SP(1'b1), .SCLK(clk), .Q(bb_to_pin[");
    s.append(decimal_string(x).as_str());
    s.append("]));\n    IFS1P3DX ibuf_");
    s.append(decimal_string(x).as_str());
    s.append("(.D(bb_from_pin_z[");
    s.append(decimal_string(x).as_str());
    s.append("]), .CD(1'b0), .SP(1'b1), .SCLK(clk), .Q(from_pin[");
    s.append(decimal_string(x).as_str());
    s.append("]));\n    BB bb_");
    s.append(decimal_string(x).as_str());
    s.append("(.I(bb_to_pin[");
    s.append(decimal_string(x).as_str());
    s.append("]), .O(bb_from_pin_a[");
    s.append(decimal_string(x).as_str());
    s.append("]), .B(pin[");
    s.append(decimal_string(x).as_str());
    s.append("]), .T(~output_enable));\n\n    defparam dg_from_pin_");
    s.append(decimal_string(x).as_str());
    s.append(".DEL_VALUE = ");
    s.append(decimal_string(delay).as_str());
    s.append(";\n    defparam dg_from_pin_");
    s.append(decimal_string(x).as_str());
    s.append(".DEL_MODE = \"USER_DEFINED\";\n    DELAYG dg_from_pin_");
    s.append(decimal_string(x).as_str());
    s.append("(.A(bb_from_pin_a[");
    s.append(decimal_string(x).as_str());
    s.append("]),.Z(bb_from_pin_z[");
    s.append(decimal_string(x).as_str());
    s.append("]));\n        ");
    s
}

/// The wires and buffers for `count` bits.
pub open spec fn delayed_multiple(count: nat, bufs: Seq<char>) -> Seq<char> {
    "\nwire ["@
        + decimal_digits(count)
        + ":0] bb_to_pin;\nwire ["@
        + decimal_digits(count)
        + ":0] bb_from_pin_a;\nwire ["@
        + decimal_digits(count)
        + ":0] bb_from_pin_z;\n\n"@
        + bufs
        + "\n    "@
}

/// The Verilog that declares the buffer wires and places one registered
/// tristate buffer with an input delay per bit, for `count` bits.
pub fn wrapper_multiple(count: usize, delay: u8) -> (r: String)
    ensures
        r@ == delayed_multiple(
            count as nat,
            join_seq(
                Seq::new(count as nat, |i: int| delayed_cell(i as nat, delay as nat)),
                seq!['\n'],
            ),
        ),
{
    let mut parts: Vec<String> = Vec::new();
    for x in 0..count
        invariant
            strings_view(parts@) == Seq::new(x as nat, |i: int| delayed_cell(i as nat, delay as nat)),
    {
        let ghost before = parts@;
        let piece = delayed_cell_text(x as u64, delay as u64);
        parts.push(piece);
        proof {
            lemma_strings_view_push(before, piece);
            assert(strings_view(parts@) =~= Seq::new(
                (x + 1) as nat,
                |i: int| delayed_cell(i as nat, delay as nat),
            ));
        }
    }
    proof {
        reveal_strlit("\n");
        assert("\n"@ =~= seq!['\n']);
    }
    let bufs = join_strings(&parts, "\n");
    let mut s = String::new();
    s.append("\nwire [");
    s.append(decimal_string(count as u64).as_str());
    s.append(":0] bb_to_pin;\nwire [");
    s.append(decimal_string(count as u64).as_str());
    s.append(":0] bb_from_pin_a;\nwire [");
    s.append(decimal_string(count as u64).as_str());
    s.append(":0] bb_from_pin_z;\n\n");
    s.append(bufs.as_str());
    s.append("\n    ");
    s
}

/// The declarations of the I/O cells that the code uses.
pub open spec fn cores() -> Seq<char> {
    "\n(* blackbox *)\nmodule IFS1P3DX(input D, input SP, input SCLK, input CD, output Q);\nendmodule\n\n(* blackbox *)\nmodule OFS1P3DX(input D, input SP, input SCLK, input CD, output Q);\nendmodule\n\n(* blackbox *)\nmodule BB(input I, input T, output O, inout B);\nendmodule\n\n(* blackbox *)\nmodule DELAYG(input A, output Z);\nparameter DEL_MODE = \"USER_DEFINED\";\nparameter DEL_VALUE = 0;\nendmodule\n\n            "@
}

/// The code for a signal of `count` bits.
pub open spec fn wrapper_code(count: nat, delay: nat) -> Seq<char> {
    if count == 1 {
        delayed_once(delay)
    } else {
        delayed_multiple(count, join_seq(Seq::new(count, |i: int| delayed_cell(i as nat, delay)), seq!['\n']))
    }
}

/// The Verilog of delayed tristate buffers on a signal of `bits` bits: the cells wrapped
/// around the declarations they use.
pub fn hdl(bits: usize, delay: u8) -> (r: Verilog)
    ensures
        r matches Verilog::Wrapper(w) && w.code@ == wrapper_code(bits as nat, delay as nat) && w.cores@
            == cores(),
{
    let code = if bits == 1 {
        wrapper_once(delay)
    } else {
        wrapper_multiple(bits, delay)
    };
    let cores = String::from_str("\n(* blackbox *)\nmodule IFS1P3DX(input D, input SP, input SCLK, input CD, output Q);\nendmodule\n\n(* blackbox *)\nmodule OFS1P3DX(input D, input SP, input SCLK, input CD, output Q);\nendmodule\n\n(* blackbox *)\nmodule BB(input I, input T, output O, inout B);\nendmodule\n\n(* blackbox *)\nmodule DELAYG(input A, output Z);\nparameter DEL_MODE = \"USER_DEFINED\";\nparameter DEL_VALUE = 0;\nendmodule\n\n            ");
    Verilog::Wrapper(Wrapper { code, cores })
}

} // verus!
