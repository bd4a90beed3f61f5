use rust_hdl::hdl_core::bits::Bits;
use rust_hdl::hls::controller::{BaseController, BaseControllerState, ControllerInputs};
use rust_hdl::hls::sdram_controller_tester::{
    SDRAMControllerTester, TesterInputs, TesterState,
};

fn word(data: u64) -> ControllerInputs {
    ControllerInputs {
        from_cpu_data: Bits::from(data),
        from_cpu_empty: false,
        to_cpu_full: false,
        bus_ready: true,
        bus_to_controller: Bits::from(0),
    }
}

fn nothing() -> ControllerInputs {
    ControllerInputs {
        from_cpu_data: Bits::from(0),
        from_cpu_empty: true,
        to_cpu_full: false,
        bus_ready: true,
        bus_to_controller: Bits::from(0),
    }
}

#[test]
fn controller_ping_echoes_the_word() {
    let mut c: BaseController<4> = BaseController::new();
    let out = c.update(&word(0x0167));
    assert!(!out.from_cpu_read && !out.to_cpu_write);
    assert_eq!(c.state, BaseControllerState::Ping);
    let out = c.update(&word(0x0167));
    assert!(out.to_cpu_write && out.from_cpu_read);
    assert_eq!(u64::from(out.to_cpu_data), 0x0167);
    assert_eq!(c.state, BaseControllerState::Idle);
}

#[test]
fn controller_skips_noops() {
    let mut c: BaseController<4> = BaseController::new();
    let out = c.update(&word(0x0042));
    assert!(out.from_cpu_read && !out.bus_strobe && !out.to_cpu_write);
    assert_eq!(c.state, BaseControllerState::Idle);
}

#[test]
fn controller_unknown_opcode_waits() {
    let mut c: BaseController<4> = BaseController::new();
    let out = c.update(&word(0x0900));
    assert!(!out.from_cpu_read);
    assert_eq!(c.state, BaseControllerState::Idle);
}

#[test]
fn controller_reads_count_words() {
    let mut c: BaseController<4> = BaseController::new();
    // READ from bus address 5.
    let out = c.update(&word(0x0205));
    assert!(out.bus_address_strobe && out.from_cpu_read);
    assert_eq!(u64::from(out.bus_address), 5);
    assert_eq!(c.state, BaseControllerState::ReadLoadCount);
    c.update(&word(3));
    assert_eq!(c.state, BaseControllerState::Read);
    let mut sent = vec![];
    for k in 0..5u64 {
        let mut i = nothing();
        i.bus_to_controller = Bits::from(100 + k);
        // The queue to the CPU is full every other clock.
        i.to_cpu_full = k == 1;
        let out = c.update(&i);
        if out.to_cpu_write {
            assert!(out.bus_strobe);
            sent.push(u64::from(out.to_cpu_data));
        }
    }
    assert_eq!(sent, vec![100, 102, 103]);
    assert_eq!(c.state, BaseControllerState::Idle);
}

#[test]
fn controller_writes_count_words() {
    let mut c: BaseController<4> = BaseController::new();
    c.update(&word(0x0307));
    assert_eq!(c.state, BaseControllerState::WriteLoadCount);
    c.update(&word(2));
    let out = c.update(&word(0xAAAA));
    assert!(out.bus_strobe && out.from_cpu_read);
    assert_eq!(u64::from(out.bus_from_controller), 0xAAAA);
    assert_eq!(u64::from(c.counter), 1);
    // Nothing moves while the CPU sends nothing.
    let out = c.update(&nothing());
    assert!(!out.bus_strobe);
    c.update(&word(0xBBBB));
    assert_eq!(c.state, BaseControllerState::Idle);
}

#[test]
fn controller_poll_reports_ready() {
    let mut c: BaseController<4> = BaseController::new();
    c.update(&word(0x0401));
    assert_eq!(c.state, BaseControllerState::PollWait);
    c.update(&nothing());
    let out = c.update(&nothing());
    assert!(out.to_cpu_write);
    assert_eq!(u64::from(out.to_cpu_data), 0xFF01);
    let mut c: BaseController<4> = BaseController::new();
    c.update(&word(0x0401));
    c.update(&nothing());
    let mut busy = nothing();
    busy.bus_ready = false;
    let out = c.update(&busy);
    assert_eq!(u64::from(out.to_cpu_data), 0xFF00);
}

#[test]
fn controller_stream_stops_on_nonzero_word() {
    let mut c: BaseController<4> = BaseController::new();
    c.update(&word(0x0502));
    c.update(&nothing());
    assert_eq!(c.state, BaseControllerState::Stream);
    let mut i = nothing();
    i.bus_to_controller = Bits::from(9);
    let out = c.update(&i);
    assert!(out.to_cpu_write && out.bus_strobe);
    let out = c.update(&word(0));
    assert!(out.from_cpu_read);
    assert_eq!(c.state, BaseControllerState::Stream);
    c.update(&word(1));
    assert_eq!(c.state, BaseControllerState::Idle);
}

fn tester_inputs() -> TesterInputs {
    TesterInputs {
        cmd_strobe: false,
        count: Bits::from(8),
        controller_busy: false,
        controller_data_out: Bits::from(0),
        controller_data_valid: false,
        lsfr_num: Bits::from(0),
        entropy_full: false,
        entropy_empty: false,
        entropy_data_out: Bits::from(0),
        output_full: false,
        output_empty: true,
        output_data_out: Bits::from(0),
        lsfr_validate_num: Bits::from(0),
    }
}

#[test]
fn tester_runs_write_then_read_then_check() {
    let mut t: SDRAMControllerTester<6, 4> = SDRAMControllerTester::new();
    let mut i = tester_inputs();
    i.cmd_strobe = true;
    assert!(t.update(&i).cmd_ready);
    assert_eq!(t.regs.state, TesterState::Writing);
    let i = tester_inputs();
    let out = t.update(&i);
    assert!(out.controller_cmd_strobe && out.controller_write_not_read && out.entropy_read);
    assert_eq!(u64::from(out.controller_cmd_address), 0);
    let out = t.update(&i);
    assert_eq!(u64::from(out.controller_cmd_address), 4);
    assert_eq!(u64::from(t.regs.write_count), 8);
    let out = t.update(&i);
    assert!(out.write_strobe && !out.controller_cmd_strobe);
    assert_eq!(t.regs.state, TesterState::Reading);
    let out = t.update(&i);
    assert!(out.controller_cmd_strobe && !out.controller_write_not_read);
    t.update(&i);
    // All reads are out; the run waits for the checks.
    let out = t.update(&i);
    assert!(!out.controller_cmd_strobe && !out.error_strobe);
    assert_eq!(t.regs.state, TesterState::Reading);
    // Two words come back: one as predicted, one not.
    let mut w = tester_inputs();
    w.output_empty = false;
    w.output_data_out = Bits::from(7);
    w.lsfr_validate_num = Bits::from(7);
    assert!(t.update(&w).output_read);
    assert!(t.update(&w).lsfr_validate_strobe);
    w.output_data_out = Bits::from(5);
    t.update(&w);
    let mut v = tester_inputs();
    v.lsfr_validate_num = Bits::from(6);
    t.update(&v);
    assert_eq!(u64::from(t.regs.validation_count), 4);
    assert_eq!(u64::from(t.regs.error_count), 2);
    t.update(&v);
    t.update(&v);
    t.update(&v);
    assert_eq!(u64::from(t.regs.validation_count), 4);
    let mut w = tester_inputs();
    w.output_empty = false;
    t.update(&w);
    t.update(&tester_inputs());
    assert_eq!(u64::from(t.regs.validation_count), 6);
    let mut w = tester_inputs();
    w.output_empty = false;
    t.update(&w);
    t.update(&tester_inputs());
    let out = t.update(&tester_inputs());
    assert!(out.error_strobe && out.validation_strobe);
    assert_eq!(u64::from(out.error_port), 2);
    assert_eq!(u64::from(out.validation_port), 8);
    assert_eq!(t.regs.state, TesterState::Idle);
}

use rust_hdl::hls::mosi_port::{MOSIPort, MOSIPortInputs};
use rust_hdl::hls::mosi_wide_port::{MOSIWidePort, WidePortInputs};
use rust_hdl::hls::router::{Router, RouterInputs};

fn router_inputs(address: u64, address_strobe: bool) -> RouterInputs<16, 8> {
    RouterInputs {
        address: Bits::from(address),
        address_strobe,
        from_controller: Bits::from(0x1234),
        strobe: true,
        node_to_controller: vec![Bits::from(0xA), Bits::from(0xB)],
        node_ready: vec![true, true],
    }
}

#[test]
fn router_maps_ports_after_one_another() {
    let names = vec!["left".to_string(), "right".to_string()];
    let ports = vec![
        vec!["x".to_string(), "y".to_string()],
        vec!["z".to_string()],
    ];
    let mut r: Router<16, 8, 2> = Router::new(&names, &ports);
    assert_eq!(r.address_map, vec!["left_x", "left_y", "right_z"]);
    assert_eq!(u64::from(r.node_start_address[1]), 2);
    assert_eq!(u64::from(r.node_end_address[1]), 3);
    // The master strobes address 2: the first port of the second node.
    let out = r.update(&router_inputs(2, true));
    assert!(!out.ready);
    assert_eq!(u64::from(r.regs.active), 1);
    assert_eq!(u64::from(r.regs.virtual_address), 0);
    let out = r.update(&router_inputs(0, false));
    assert!(out.ready);
    assert_eq!(u64::from(out.to_controller), 0xB);
    assert!(out.nodes[1].strobe && out.nodes[1].address_strobe);
    assert_eq!(u64::from(out.nodes[1].from_controller), 0x1234);
    assert!(!out.nodes[0].strobe);
    // An address past the last port selects no new node.
    r.update(&router_inputs(7, true));
    assert_eq!(u64::from(r.regs.active), 1);
    r.update(&router_inputs(1, true));
    assert_eq!(u64::from(r.regs.active), 0);
    assert_eq!(u64::from(r.regs.virtual_address), 1);
}

#[test]
fn mosi_port_latches_writes() {
    let mut p: MOSIPort<16> = MOSIPort::new();
    let write = MOSIPortInputs { select: true, strobe: true, from_controller: Bits::from(77), ready: true };
    // Not yet selected: the write is ignored, but the port is now selected.
    p.update(&write);
    assert_eq!(u64::from(p.regs.state), 0);
    let out = p.update(&write);
    assert!(out.bus_ready);
    let out = p.update(&MOSIPortInputs { select: false, strobe: false, from_controller: Bits::from(0), ready: true });
    assert_eq!(u64::from(out.port_out), 77);
    assert!(out.strobe_out);
}

#[test]
fn mosi_wide_port_assembles_words_first_most_significant() {
    let mut p: MOSIWidePort<32, 16> = MOSIWidePort::new();
    let word = |w: u64| WidePortInputs { select: true, strobe: true, from_controller: Bits::from(w) };
    p.update(&WidePortInputs { select: true, strobe: false, from_controller: Bits::from(0) });
    let out = p.update(&word(0xDEAD));
    assert!(!out.strobe_out);
    let out = p.update(&word(0xBEEF));
    assert!(!out.strobe_out);
    let out = p.update(&WidePortInputs { select: true, strobe: false, from_controller: Bits::from(0) });
    assert!(out.strobe_out);
    assert_eq!(u64::from(out.port_out), 0xDEAD_BEEF);
    assert_eq!(u64::from(p.regs.count), 0);
}
