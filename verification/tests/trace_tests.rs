use rust_hdl::docs::vcd2svg::timed_value::{Renderable, VectorValue};
use rust_hdl::docs::vcd2svg::trace_collection::{
    collect, SignalTrace, TraceCollection, TraceError, TraceEvent,
};

fn chosen() -> Vec<(String, String, u32)> {
    vec![
        ("!".to_string(), "top.clk".to_string(), 1),
        ("\"".to_string(), "top.bus".to_string(), 8),
        ("#".to_string(), "top.msg".to_string(), 0),
    ]
}

// The value with the given bits, least significant first.
fn vector(bits: &[bool]) -> VectorValue {
    VectorValue::from_bits(&bits.to_vec())
}

#[test]
fn collect_keeps_changes_of_chosen_signals() {
    let events = vec![
        TraceEvent::Timestamp(0),
        TraceEvent::ChangeScalar("!".to_string(), Some('0')),
        TraceEvent::ChangeVector("\"".to_string(), Some("101".to_string())),
        TraceEvent::Timestamp(10),
        TraceEvent::ChangeScalar("!".to_string(), Some('1')),
        // Changes of signals not chosen are ignored, whatever their level.
        TraceEvent::ChangeScalar("$".to_string(), None),
        TraceEvent::ChangeString("#".to_string(), "hi".to_string()),
        TraceEvent::Other,
        TraceEvent::Timestamp(25),
        TraceEvent::ChangeVector("\"".to_string(), Some("111".to_string())),
        // A change of the wrong kind for a code is ignored too.
        TraceEvent::ChangeScalar("\"".to_string(), Some('1')),
    ];
    let c = collect(chosen(), &events).unwrap();
    assert_eq!(c.signal_names.len(), 3);
    assert_eq!(c.signal_names[1].1, "top.bus");
    match &c.traces[0] {
        SignalTrace::Bits(s) => {
            let got: Vec<(u64, bool)> = s.iter().map(|v| (v.time, v.value)).collect();
            assert_eq!(got, vec![(0, false), (10, true)]);
        }
        _ => panic!("clk is a single bit"),
    }
    match &c.traces[1] {
        SignalTrace::Vectors(s) => {
            let got: Vec<(u64, String)> = s.iter().map(|v| (v.time, v.value.render())).collect();
            assert_eq!(got, vec![(0, "0h5".to_string()), (25, "0h7".to_string())]);
        }
        _ => panic!("bus is a vector"),
    }
    match &c.traces[2] {
        SignalTrace::Strings(s) => {
            assert_eq!(s.len(), 1);
            assert_eq!(s[0].time, 10);
            assert_eq!(s[0].value, "hi");
        }
        _ => panic!("msg is a string"),
    }
}

#[test]
fn collect_refuses_unsupported_levels_of_chosen_signals() {
    let events = vec![
        TraceEvent::Timestamp(0),
        TraceEvent::ChangeVector("\"".to_string(), None),
    ];
    assert!(matches!(collect(chosen(), &events), Err(TraceError::UnsupportedValue)));
    let events = vec![TraceEvent::ChangeScalar("!".to_string(), None)];
    assert!(matches!(collect(chosen(), &events), Err(TraceError::UnsupportedValue)));
}

#[test]
fn collect_with_no_signals_or_commands() {
    let c = collect(vec![], &vec![TraceEvent::Timestamp(3)]).unwrap();
    assert!(c.signal_names.is_empty() && c.traces.is_empty());
    let c = collect(chosen(), &vec![]).unwrap();
    assert!(matches!(&c.traces[0], SignalTrace::Bits(s) if s.is_empty()));
}

const DUMP: &str = "$timescale 1ps $end
$scope module top $end
$var wire 1 ! clk $end
$var wire 4 \" bus $end
$var string 0 # msg $end
$upscope $end
$enddefinitions $end
#0
0!
b0011 \"
#10
1!
shello #
#20
b1111 \"
bx1 $
";

#[test]
fn dumps_are_parsed_into_traces() {
    let names = vec!["top.clk".to_string(), "top.bus".to_string(), "top.msg".to_string()];
    let c = TraceCollection::parse(&names, &DUMP.as_bytes().to_vec()).unwrap();
    assert_eq!(c.signal_names[0], ("!".to_string(), "top.clk".to_string()));
    match &c.traces[0] {
        SignalTrace::Bits(s) => {
            let got: Vec<(u64, bool)> = s.iter().map(|v| (v.time, v.value)).collect();
            assert_eq!(got, vec![(0, false), (10, true)]);
        }
        _ => panic!("clk is a single bit"),
    }
    match &c.traces[1] {
        // The first level of a vector is taken as its least significant bit.
        SignalTrace::Vectors(s) => {
            let got: Vec<(u64, String)> = s.iter().map(|v| (v.time, v.value.render())).collect();
            assert_eq!(got, vec![(0, "0hc".to_string()), (20, "0hf".to_string())]);
        }
        _ => panic!("bus is a vector"),
    }
    match &c.traces[2] {
        SignalTrace::Strings(s) => {
            assert_eq!(s.len(), 1);
            assert_eq!((s[0].time, s[0].value.as_str()), (10, "hello"));
        }
        _ => panic!("msg is a string"),
    }
}

#[test]
fn dump_errors() {
    let names = vec!["top.clk".to_string(), "top.nothere".to_string()];
    assert!(matches!(
        TraceCollection::parse(&names, &DUMP.as_bytes().to_vec()),
        Err(TraceError::UnknownSignal(1))
    ));
    let bad = "$scope module top $end\n$var wire 1 ! clk $end\n$upscope $end\n$enddefinitions $end\n#0\nz!\n";
    let names = vec!["top.clk".to_string()];
    assert!(matches!(
        TraceCollection::parse(&names, &bad.as_bytes().to_vec()),
        Err(TraceError::UnsupportedValue)
    ));
    assert!(matches!(
        TraceCollection::parse(&names, &b"$var wire".to_vec()),
        Err(TraceError::Unreadable)
    ));
    // The first error met in the dump's order is the one reported.
    let head = "$scope module top $end\n$var wire 1 ! clk $end\n$upscope $end\n$enddefinitions $end\n";
    let level_first = format!("{}#0\nz!\n#zz\n", head);
    assert!(matches!(
        TraceCollection::parse(&names, &level_first.as_bytes().to_vec()),
        Err(TraceError::UnsupportedValue)
    ));
    let malformed_first = format!("{}#zz\nz!\n", head);
    assert!(matches!(
        TraceCollection::parse(&names, &malformed_first.as_bytes().to_vec()),
        Err(TraceError::Unreadable)
    ));
    let fine = format!("{}#0\n1!\n", head);
    assert!(TraceCollection::parse(&names, &fine.as_bytes().to_vec()).is_ok());
}

#[test]
fn vector_values_render_in_hex() {
    assert_eq!(vector(&[]).render(), "0h0");
    assert_eq!(vector(&[false, true, true, true, true]).render(), "0h1e");
    assert_eq!(vector(&[false, false, false]).render(), "0h0");
}


use rust_hdl::docs::vcd2svg::trace_text::{draw_traces, name_column_width};
use rust_hdl::docs::vcd2svg::waveform::WaveformElement;

#[test]
fn name_column_is_longest_name_at_least_four() {
    assert_eq!(name_column_width(&vec![]), 4);
    assert_eq!(name_column_width(&vec!["ab".to_string()]), 4);
    assert_eq!(
        name_column_width(&vec!["clk".to_string(), "data_bus".to_string()]),
        8
    );
    // Widths count bytes.
    assert_eq!(name_column_width(&vec!["ĉĉĉ".to_string()]), 6);
}

#[test]
fn traces_are_laid_out_in_rows_of_three() {
    let names = vec!["clk".to_string(), "data_bus".to_string()];
    let clock = vec![
        WaveformElement::Value("0".to_string()),
        WaveformElement::Value("0".to_string()),
        WaveformElement::Value("0".to_string()),
    ];
    let waves = vec![
        vec![WaveformElement::Low, WaveformElement::RisingEdge, WaveformElement::High],
        vec![WaveformElement::High, WaveformElement::FallingEdge, WaveformElement::Low],
    ];
    let text = draw_traces(&names, &clock, &waves, 12).to_string();
    let lines: Vec<Vec<char>> = text.split('\n').map(|l| l.chars().collect()).collect();
    assert_eq!(lines.len(), 9);
    for l in &lines {
        assert_eq!(l.len(), 12);
    }
    let row = |r: usize| lines[r].iter().collect::<String>();
    assert!(row(1).starts_with("    time "));
    assert!(row(4).starts_with("     clk "));
    assert!(row(7).starts_with("data_bus "));
    for (k, wave) in waves.iter().enumerate() {
        for (j, e) in wave.iter().enumerate() {
            let (top, mid, bottom) = e.to_symbols();
            assert_eq!(lines[3 * k + 3][9 + j], top);
            assert_eq!(lines[3 * k + 4][9 + j], mid);
            assert_eq!(lines[3 * k + 5][9 + j], bottom);
        }
    }
    for (j, e) in clock.iter().enumerate() {
        let (top, _, bottom) = e.to_symbols();
        assert_eq!(lines[0][9 + j], top);
        assert_eq!(lines[2][9 + j], bottom);
    }
}
