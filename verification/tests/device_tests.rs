use rust_hdl::docs::vcd2svg::timed_value::{changes, Renderable, TimedValue, VectorValue};
use rust_hdl::device::lattice::ecp5::{edge_flip_flop, edge_tristate_buffer, edge_tristate_buffer_delayed, io_delay};

#[test]
fn flip_flop_cells() {
    assert!(edge_flip_flop::wrapper_once().contains("OFS1P3DX inst_OFS1P3DX"));
    let expected = (0..3)
        .map(|x| {
            format!(
                "\nOFS1P3DX ofs_{x}(.SCLK(clk), .SP(1), .D(d[{x}]), .Q(d[{x}]), .CD(0));\n",
                x = x
            )
        })
        .collect::<Vec<_>>()
        .join("\n");
    assert_eq!(edge_flip_flop::wrapper_multiple(3), expected);
    assert_eq!(edge_flip_flop::wrapper_multiple(0), "");
}

#[test]
fn tristate_cells() {
    assert!(edge_tristate_buffer::wrapper_once().contains("BB bb(.I(bb_input)"));
    let bufs = (0..12)
        .map(|x| {
            format!(
                "\n    OFS1P3DX obuf_{x}(.D(to_pin[{x}]), .CD(0), .SP(1), .SCLK(clk), .Q(bb_input[{x}]));\n    IFS1P3DX ibuf_{x}(.D(bb_output[{x}]), .CD(0), .SP(1), .SCLK(clk), .Q(from_pin[{x}]));\n    BB bb_{x}(.I(bb_input[{x}]), .O(bb_output[{x}]), .B(pin[{x}]), .T(output_enable));\n        ",
                x = x
            )
        })
        .collect::<Vec<_>>()
        .join("\n");
    let expected = format!(
        "\nwire [{B}:0] bb_input;\nwire [{B}:0] bb_output;\n\n{bufs}\n    ",
        B = 12,
        bufs = bufs
    );
    assert_eq!(edge_tristate_buffer::wrapper_multiple(12), expected);
}

#[test]
fn delayed_tristate_cells() {
    let once = edge_tristate_buffer_delayed::wrapper_once(7);
    assert!(once.contains("defparam dg.DEL_VALUE = 7;"));
    let multi = edge_tristate_buffer_delayed::wrapper_multiple(2, 15);
    assert!(multi.starts_with("\nwire [2:0] bb_to_pin;"));
    assert!(multi.contains("defparam dg_from_pin_1.DEL_VALUE = 15;"));
    assert!(multi.contains("DELAYG dg_from_pin_0(.A(bb_from_pin_a[0]),.Z(bb_from_pin_z[0]));"));
}

#[test]
fn io_delay_cells() {
    assert_eq!(
        io_delay::wrapper_once(255),
        "\ndefparam udel_dataini0.DEL_VALUE = 255 ;\ndefparam udel_dataini0.DEL_MODE = \"USER_DEFINED\" ;\nDELAYG udel_dataini0 (.A(buf_dataini0), .Z(dataini_t0));\n    "
    );
    let expected = (0..2)
        .map(|x| {
            format!(
                "\ndefparam udel_datain_{x}.DEL_VALUE = {delay} ;\ndefparam udel_datain_{x}.DEL_MODE = \"USER_DEFINED\" ;\nDELAYG udel_datain_{x} (.A(a[{x}]), .Z(z[{x}]));\n    ",
                x = x,
                delay = 3
            )
        })
        .collect::<Vec<_>>()
        .join("\n");
    assert_eq!(io_delay::wrapper_multiple(2, 3), expected);
}

#[test]
fn big_value_traces_change() {
    let vals = vec![
        TimedValue { time: 0, value: VectorValue::from_bits(&vec![true, false, true]) },
        // The same number with a high zero.
        TimedValue { time: 1, value: VectorValue::from_bits(&vec![true, false, true, false]) },
        TimedValue {
            time: 2,
            value: VectorValue::from_bits(&vec![false, true, true, true, true, true, true, true]),
        },
    ];
    let c = changes(&vals);
    assert_eq!(c.len(), 2);
    assert_eq!(c[1].time, 2);
    assert_eq!(c[1].value.render(), "0hfe");
    assert_eq!(true.render(), "1");
}

use rust_hdl::hdl_core::ast::Verilog;

fn wrapper_parts(v: Verilog) -> (String, String) {
    match v {
        Verilog::Wrapper(w) => (w.code, w.cores),
        _ => panic!("not a wrapper"),
    }
}

#[test]
fn device_hdl_wraps_cells_and_cores() {
    let (code, cores) = wrapper_parts(edge_flip_flop::hdl(1));
    assert_eq!(code, edge_flip_flop::wrapper_once());
    assert_eq!(
        cores,
        "\n(* blackbox *)\nmodule OFS1P3DX(input D, input SP, input SCLK, input CD, output Q);\nendmodule\n            "
    );
    let (code, _) = wrapper_parts(edge_flip_flop::hdl(3));
    assert_eq!(code, edge_flip_flop::wrapper_multiple(3));
    let (code, cores) = wrapper_parts(edge_tristate_buffer::hdl(1));
    assert_eq!(code, edge_tristate_buffer::wrapper_once());
    assert!(cores.contains("module BB(input I, input T, output O, inout B);"));
    let (code, cores) = wrapper_parts(edge_tristate_buffer_delayed::hdl(4, 7));
    assert_eq!(code, edge_tristate_buffer_delayed::wrapper_multiple(4, 7));
    assert!(cores.contains("parameter DEL_MODE = \"USER_DEFINED\";"));
    let (code, cores) = wrapper_parts(io_delay::hdl(1, 9));
    assert_eq!(code, io_delay::wrapper_once(9));
    assert!(cores.starts_with("\n(* blackbox *)\nmodule DELAYG(input A, output Z);"));
}
