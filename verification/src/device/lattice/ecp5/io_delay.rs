//! Verilog for input delay cells on an ECP5 part.
use crate::text::decimal::{decimal_digits, decimal_string};
use crate::text::lines::{join_seq, join_strings, lemma_strings_view_push, strings_view};
use crate::hdl_core::ast::{Verilog, Wrapper};
use vstd::prelude::*;

verus! {

/// The delay cell for a single bit.
pub open spec fn io_delay_once(delay: nat) -> Seq<char> {
    "\ndefparam udel_dataini0.DEL_VALUE = "@
        + decimal_digits(delay)
        + " ;\ndefparam udel_dataini0.DEL_MODE = \"USER_DEFINED\" ;\nDELAYG udel_dataini0 (.A(buf_dataini0), .Z(dataini_t0));\n    "@
}

/// The Verilog that places one input delay of `delay` steps on a one-bit
/// signal.
pub fn wrapper_once(delay: u8) -> (r: String)
    ensures
        r@ == io_delay_once(delay as nat),
{
    let mut s = String::new();
    s.append("\ndefparam udel_dataini0.DEL_VALUE = ");
    s.append(decimal_string(delay as u64).as_str());
    s.append(" ;\ndefparam udel_dataini0.DEL_MODE = \"USER_DEFINED\" ;\nDELAYG udel_dataini0 (.A(buf_dataini0), .Z(dataini_t0));\n    ");
    s
}

/// The delay cell for bit `x`.
pub open spec fn io_delay_cell(x: nat, delay: nat) -> Seq<char> {
    "\ndefparam udel_datain_"@
        + decimal_digits(x)
        + ".DEL_VALUE = "@
        + decimal_digits(delay)
        + " ;\ndefparam udel_datain_"@
        + decimal_digits(x)
        + ".DEL_MODE = \"USER_DEFINED\" ;\nDELAYG udel_datain_"@
        + decimal_digits(x)
        + " (.A(a["@
        + decimal_digits(x)
        + "]), .Z(z["@
        + decimal_digits(x)
        + "]));\n    "@
}

fn io_delay_cell_text(x: u64, delay: u64) -> (r: String)
    ensures
        r@ == io_delay_cell(x as nat, delay as nat),
{
    let mut s = String::new();
    s.append("\ndefparam udel_datain_");
    s.append(decimal_string(x).as_str());
    s.append(".DEL_VALUE = ");
    s.append(decimal_string(delay).as_str());
    s.append(" ;\ndefparam udel_datain_");
    s.append(decimal_string(x).as_str());
    s.append(".DEL_MODE = \"USER_DEFINED\" ;\nDELAYG udel_datain_");
    s.append(decimal_string(x).as_str());
    s.append(" (.A(a[");
    s.append(decimal_string(x).as_str());
    s.append("]), .Z(z[");
    s.append(decimal_string(x).as_str());
    s.append("]));\n    ");
    s
}

/// The Verilog that places one input delay per bit, for `count` bits, the
/// cells separated by newlines.
pub fn wrapper_multiple(count: usize, delay: u8) -> (r: String)
    ensures
        r@ == join_seq(
            Seq::new(count as nat, |i: int| io_delay_cell(i as nat, delay as nat)),
            seq!['\n'],
        ),
{
    let mut parts: Vec<String> = Vec::new();
    for x in 0..count
        invariant
            strings_view(parts@) == Seq::new(x as nat, |i: int| io_delay_cell(i as nat, delay as nat)),
    {
        let ghost before = parts@;
        let piece = io_delay_cell_text(x as u64, delay as u64);
        parts.push(piece);
        proof {
            lemma_strings_view_push(before, piece);
            assert(strings_view(parts@) =~= Seq::new(
                (x + 1) as nat,
                |i: int| io_delay_cell(i as nat, delay as nat),
            ));
        }
    }
    proof {
        reveal_strlit("\n");
        assert("\n"@ =~= seq!['\n']);
    }
    let bufs = join_strings(&parts, "\n");
    bufs
}

/// The declarations of the I/O cells that the code uses.
pub open spec fn cores() -> Seq<char> {
    "\n(* blackbox *)\nmodule DELAYG(input A, output Z);\nparameter DEL_MODE = \"USER_DEFINED\";\nparameter DEL_VALUE = 0;\nendmodule\n            "@
}

/// The code for a signal of `count` bits.
pub open spec fn wrapper_code(count: nat, delay: nat) -> Seq<char> {
    if count == 1 {
        io_delay_once(delay)
    } else {
        join_seq(Seq::new(count, |i: int| io_delay_cell(i as nat, delay)), seq!['\n'])
    }
}

/// The Verilog of input delay cells on a signal of `bits` bits: the cells wrapped
/// around the declarations they use.
pub fn hdl(bits: usize, delay: u8) -> (r: Verilog)
    ensures
        r matches Verilog::Wrapper(w) && w.code@ == wrapper_code(bits as nat, delay as nat) && w.cores@
            == cores(),
{
    let code = if bits == 1 {
        wrapper_once(delay)
    } else {
        wrapper_multiple(bits, delay)
    };
    let cores = String::from_str("\n(* blackbox *)\nmodule DELAYG(input A, output Z);\nparameter DEL_MODE = \"USER_DEFINED\";\nparameter DEL_VALUE = 0;\nendmodule\n            ");
    Verilog::Wrapper(Wrapper { code, cores })
}

} // verus!
