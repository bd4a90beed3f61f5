use rust_hdl::docs::vcd2svg::draw::draw_symbols;
use rust_hdl::docs::vcd2svg::render::{render_bool, render_multibit, SignalBin};
use rust_hdl::docs::vcd2svg::text_frame::TextFrame;
use rust_hdl::docs::vcd2svg::waveform::WaveformElement;
use rust_hdl::hdl_core::atom::AtomKind;
use rust_hdl::hdl_core::block::Block;
use rust_hdl::hdl_core::check_all::check_all;
use rust_hdl::hdl_core::check_connected::check_connected;
use rust_hdl::hdl_core::check_error::CheckError;
use rust_hdl::hdl_core::check_write_inputs::check_inputs_not_written;
use rust_hdl::hdl_core::probe::{AtomInfo, Probe};
use rust_hdl::hdl_core::simulate::{simulate, SimError};

// A module with one input, one output and a local signal, whose logic writes
// the names in `writes`.
struct Toy {
    input_connected: bool,
    writes: Vec<String>,
    settle_after: usize,
    updates: usize,
}

impl Block for Toy {
    fn connect_all(&mut self) {}
    fn update_all(&mut self) {
        self.updates += 1;
    }
    fn has_changed(&self) -> bool {
        self.updates < self.settle_after
    }
    fn accept<P: Probe>(&self, name: &str, probe: &mut P) {
        probe.visit_start_scope(name);
        probe.visit_atom(
            "a",
            &AtomInfo { id: 1, connected: self.input_connected, kind: AtomKind::InputParameter, bits: 1 },
        );
        probe.visit_start_namespace("bus");
        probe.visit_atom(
            "b",
            &AtomInfo { id: 2, connected: true, kind: AtomKind::InputParameter, bits: 4 },
        );
        probe.visit_end_namespace("bus");
        probe.visit_atom(
            "y",
            &AtomInfo { id: 3, connected: true, kind: AtomKind::OutputParameter, bits: 1 },
        );
        probe.visit_end_scope(name, &self.writes);
    }
}

fn toy(connected: bool, writes: &[&str]) -> Toy {
    Toy {
        input_connected: connected,
        writes: writes.iter().map(|s| s.to_string()).collect(),
        settle_after: 3,
        updates: 0,
    }
}

#[test]
fn connected_circuit_passes() {
    assert_eq!(check_connected(&toy(true, &[])), Ok(()));
    assert_eq!(check_all(&toy(true, &["y"])), Ok(()));
}

#[test]
fn open_input_is_reported() {
    match check_connected(&toy(false, &[])) {
        Err(CheckError::OpenSignal(m)) => {
            assert_eq!(m.len(), 1);
            assert_eq!(m[&1].path, "uut");
            assert_eq!(m[&1].name, "a");
        }
        other => panic!("unexpected {:?}", other),
    }
}

#[test]
fn written_inputs_are_reported() {
    match check_inputs_not_written(&toy(true, &["a", "bus$b", "y"])) {
        Err(CheckError::WritesToInputs(v)) => {
            assert_eq!(v.len(), 2);
            assert_eq!(v[0].path, "uut");
            assert_eq!(v[0].name, "a");
            assert_eq!(v[1].name, "bus$b");
        }
        other => panic!("unexpected {:?}", other),
    }
    assert!(matches!(check_all(&toy(false, &["a"])), Err(CheckError::WritesToInputs(_))));
    assert!(matches!(check_all(&toy(false, &[])), Err(CheckError::OpenSignal(_))));
    assert!(matches!(check_all(&toy(true, &["a"])), Err(CheckError::WritesToInputs(_))));
}

#[test]
fn simulate_settles_or_gives_up() {
    let mut t = toy(true, &[]);
    assert!(simulate(&mut t, 10));
    assert_eq!(t.updates, 3);
    let mut u = toy(true, &[]);
    assert!(!simulate(&mut u, 2));
    let mut v = toy(true, &[]);
    assert!(!simulate(&mut v, 0));
    let e: SimError = CheckError::LogicLoops(vec![]).into();
    assert_eq!(e, SimError::Check(CheckError::LogicLoops(vec![])));
}

#[test]
fn atom_kinds() {
    assert!(AtomKind::InputParameter.is_parameter());
    assert!(AtomKind::OutputPassthrough.is_parameter());
    assert!(!AtomKind::LocalSignal.is_parameter());
    assert!(AtomKind::StubInputSignal.is_stub());
    assert!(!AtomKind::Constant.is_stub());
}

fn bin<T: rust_hdl::docs::vcd2svg::timed_value::SignalType>(
    before: Option<T>,
    after: Option<T>,
    changes: usize,
) -> SignalBin<T> {
    SignalBin { start_time: 0, end_time: 0, values: vec![], before, after, changes }
}

#[test]
fn bool_bins_render_edges() {
    let bins = vec![
        bin(None, None, 0),
        bin(None, Some(false), 1),
        bin(Some(false), Some(true), 1),
        bin(Some(true), Some(false), 1),
        bin(Some(true), Some(true), 2),
        bin(Some(true), Some(true), 5),
        bin(Some(true), Some(true), 11),
    ];
    assert_eq!(
        render_bool(&bins),
        vec![
            WaveformElement::Invalid,
            WaveformElement::Low,
            WaveformElement::RisingEdge,
            WaveformElement::FallingEdge,
            WaveformElement::LowDensity,
            WaveformElement::MediumDensity,
            WaveformElement::HighDensity,
        ]
    );
}

#[test]
fn multibit_bins_render_values() {
    let bins = vec![
        bin(Some("x".to_string()), Some("x".to_string()), 0),
        bin(None, Some("y".to_string()), 1),
        bin(Some("x".to_string()), Some("y".to_string()), 1),
    ];
    assert_eq!(
        render_multibit(&bins),
        vec![
            WaveformElement::Value("x".to_string()),
            WaveformElement::Value("?".to_string()),
            WaveformElement::Transition,
        ]
    );
}

#[test]
fn symbols_are_drawn_with_labels() {
    let mut f = TextFrame::new(8);
    let els = vec![
        WaveformElement::Low,
        WaveformElement::Value("ab".to_string()),
        WaveformElement::Value("ab".to_string()),
        WaveformElement::RisingEdge,
        WaveformElement::High,
    ];
    draw_symbols(&els, &mut f, 0, 1);
    assert_eq!(
        f.to_string(),
        "  ──┌─  \n  ab│   \n ───┘   "
    );
}

#[test]
fn long_labels_are_cut_to_their_run() {
    let mut f = TextFrame::new(10);
    let els = vec![
        WaveformElement::Low,
        WaveformElement::Value("abc".to_string()),
        WaveformElement::Value("abc".to_string()),
        WaveformElement::Low,
    ];
    draw_symbols(&els, &mut f, 0, 0);
    assert_eq!(f.to_string(), " ──       \n a…       \n────      ");
}
