use rust_hdl::hdl_core::bits::Bits;
use rust_hdl::sim::micron_sdr_sdram_sim::{
    MasterState, MicronCommand, MicronInputs, MicronOutputs, MicronSDRSimulator,
};
use rust_hdl::sim::sdr_sdram::bank::{BankInputs, BankOutputs, BankState, MemoryBank};
use rust_hdl::sim::sdr_sdram::sdr_sdram_bank_sim;
use rust_hdl::sim::sdr_sdram::sdr_sdram_cmd_sim::SDRAMCommand;

// At 500 MHz the MT48LC8M16A2 timings are, in clocks: tRAS 22, tRC 33,
// tRCD 10, tRP 10; a row must be refreshed every 7813 clocks, and an auto
// refresh takes 33.
fn mk_bank_sim() -> MemoryBank<5, 5, 10, 16> {
    MemoryBank::new(22, 33, 10, 10, 7813, 33)
}

fn bank_clock(
    bank: &mut MemoryBank<5, 5, 10, 16>,
    cmd: SDRAMCommand,
    address: u64,
) -> BankOutputs<10, 16> {
    let inputs = BankInputs {
        cas_delay: Bits::from(3),
        address: Bits::from(address),
        burst_len: Bits::from(8),
        cmd,
        write_data: Bits::from(0),
        select: true,
        mem_read_data: Bits::from(0),
        delayed_data: Bits::from(0),
        delayed_valid: false,
    };
    bank.update(&inputs)
}

fn bank_cycles(bank: &mut MemoryBank<5, 5, 10, 16>, cmd: SDRAMCommand, n: usize) {
    for _ in 0..n {
        bank_clock(bank, cmd, 0);
    }
}

#[test]
fn bank_test_bank_activation_immediate_close_is_ok_with_delay() {
    let mut x = mk_bank_sim();
    bank_cycles(&mut x, SDRAMCommand::NOP, 31);
    bank_clock(&mut x, SDRAMCommand::Active, 14);
    // Enough NOPs to meet the active-to-precharge time.
    bank_cycles(&mut x, SDRAMCommand::NOP, 21);
    bank_clock(&mut x, SDRAMCommand::Precharge, 0);
    for _ in 0..9 {
        bank_clock(&mut x, SDRAMCommand::NOP, 0);
        assert!(x.regs.state != BankState::Idle);
    }
    bank_clock(&mut x, SDRAMCommand::NOP, 0);
    assert!(x.regs.state == BankState::Idle);
    bank_cycles(&mut x, SDRAMCommand::NOP, 10);
    assert!(!bank_clock(&mut x, SDRAMCommand::NOP, 0).error);
}

#[test]
fn bank_test_bank_activation_immediate_close_fails_for_timing() {
    let mut x = mk_bank_sim();
    bank_cycles(&mut x, SDRAMCommand::NOP, 2);
    bank_clock(&mut x, SDRAMCommand::Active, 14);
    bank_cycles(&mut x, SDRAMCommand::NOP, 20);
    bank_clock(&mut x, SDRAMCommand::Precharge, 0);
    bank_cycles(&mut x, SDRAMCommand::NOP, 10);
    assert!(bank_clock(&mut x, SDRAMCommand::NOP, 0).error);
}

#[test]
fn bank_precharge_one_clock_early_fails() {
    let mut x = mk_bank_sim();
    bank_cycles(&mut x, SDRAMCommand::NOP, 31);
    bank_clock(&mut x, SDRAMCommand::Active, 14);
    bank_cycles(&mut x, SDRAMCommand::NOP, 20);
    assert_eq!(x.regs.state, BankState::Active);
    bank_clock(&mut x, SDRAMCommand::Precharge, 0);
    assert_eq!(x.regs.state, BankState::Error);
    // A failed bank stays failed, whatever it is given.
    bank_clock(&mut x, SDRAMCommand::Active, 3);
    bank_clock(&mut x, SDRAMCommand::AutoRefresh, 0);
    bank_cycles(&mut x, SDRAMCommand::NOP, 5);
    assert_eq!(x.regs.state, BankState::Error);
    let out = bank_clock(&mut x, SDRAMCommand::NOP, 0);
    assert!(out.error && out.busy);
}

#[test]
fn bank_activation_loads_the_row() {
    let mut x = mk_bank_sim();
    let out = bank_clock(&mut x, SDRAMCommand::NOP, 0);
    assert!(!out.busy && !out.error);
    bank_cycles(&mut x, SDRAMCommand::NOP, 12);
    bank_clock(&mut x, SDRAMCommand::Active, 0b1_0110);
    assert_eq!(x.regs.state, BankState::Active);
    assert_eq!(u64::from(x.regs.active_row), 0b1_0110);
    assert_eq!(u64::from(x.regs.t_activate), 0);
    // The memory address puts the row above the five column bits.
    let out = bank_clock(&mut x, SDRAMCommand::NOP, 0);
    assert_eq!(u64::from(out.mem_address), 0b1_0110 << 5);
    assert!(out.busy);
}

#[test]
fn bank_read_too_soon_after_activation_fails() {
    let mut x = mk_bank_sim();
    bank_cycles(&mut x, SDRAMCommand::NOP, 12);
    bank_clock(&mut x, SDRAMCommand::Active, 1);
    bank_cycles(&mut x, SDRAMCommand::NOP, 3);
    bank_clock(&mut x, SDRAMCommand::Read, 0);
    assert_eq!(x.regs.state, BankState::Error);
}

#[test]
fn bank_read_burst_with_auto_precharge() {
    let mut x = mk_bank_sim();
    bank_cycles(&mut x, SDRAMCommand::NOP, 12);
    bank_clock(&mut x, SDRAMCommand::Active, 1);
    bank_cycles(&mut x, SDRAMCommand::NOP, 9);
    // Bit 10 of the address asks for a precharge at the end of the burst.
    bank_clock(&mut x, SDRAMCommand::Read, 1024 + 4);
    assert_eq!(x.regs.state, BankState::Reading);
    assert!(x.regs.auto_precharge);
    assert_eq!(u64::from(x.regs.active_col), 4);
    for k in 0..8 {
        let out = bank_clock(&mut x, SDRAMCommand::NOP, 0);
        assert!(out.valid_delay_in);
        assert_eq!(u64::from(out.mem_address), (1 << 5) + 4 + k);
    }
    let out = bank_clock(&mut x, SDRAMCommand::NOP, 0);
    assert!(!out.valid_delay_in);
    assert_eq!(x.regs.state, BankState::Precharging);
    assert_eq!(u64::from(out.data_delay), 1);
    assert_eq!(u64::from(out.valid_delay), 2);
}

#[test]
fn bank_write_burst_drives_the_memory() {
    let mut x = mk_bank_sim();
    bank_cycles(&mut x, SDRAMCommand::NOP, 12);
    bank_clock(&mut x, SDRAMCommand::Active, 2);
    bank_cycles(&mut x, SDRAMCommand::NOP, 9);
    bank_clock(&mut x, SDRAMCommand::Write, 0);
    assert_eq!(x.regs.state, BankState::Writing);
    let mut enabled = 0;
    for _ in 0..8 {
        let out = bank_clock(&mut x, SDRAMCommand::NOP, 0);
        if out.mem_write_enable {
            enabled += 1;
        }
    }
    assert_eq!(enabled, 8);
    assert_eq!(x.regs.state, BankState::Active);
    assert!(!bank_clock(&mut x, SDRAMCommand::NOP, 0).mem_write_enable);
}

#[test]
fn bank_missed_refresh_fails() {
    let mut x: MemoryBank<5, 5, 10, 16> = MemoryBank::new(22, 33, 10, 10, 50, 5);
    bank_clock(&mut x, SDRAMCommand::AutoRefresh, 0);
    assert_eq!(x.regs.state, BankState::Autorefreshing);
    bank_cycles(&mut x, SDRAMCommand::NOP, 5);
    assert_eq!(x.regs.state, BankState::Idle);
    bank_cycles(&mut x, SDRAMCommand::NOP, 44);
    assert_eq!(x.regs.state, BankState::Idle);
    bank_clock(&mut x, SDRAMCommand::NOP, 0);
    assert_eq!(x.regs.state, BankState::Error);
}

#[test]
fn bank_unselected_bank_ignores_commands() {
    let mut x = mk_bank_sim();
    let inputs = BankInputs {
        cas_delay: Bits::from(3),
        address: Bits::from(5),
        burst_len: Bits::from(8),
        cmd: SDRAMCommand::Write,
        write_data: Bits::from(7),
        select: false,
        mem_read_data: Bits::from(0),
        delayed_data: Bits::from(0),
        delayed_valid: false,
    };
    x.update(&inputs);
    assert_eq!(x.regs.state, BankState::Idle);
    assert_eq!(u64::from(x.regs.write_reg), 7);
}

// A bank with its memory array and delay lines around it, clock by clock.
// The array puts out, one clock later, the word at the address the bank
// drove; a delay line of `d` clocks puts out what it was given `d` clocks
// before.
struct BankRig {
    bank: MemoryBank<5, 5, 10, 16>,
    memory: std::collections::HashMap<u64, u64>,
    array_out: u64,
    data_line: Vec<u64>,
    valid_line: Vec<bool>,
}

impl BankRig {
    fn clock(&mut self, cmd: SDRAMCommand, address: u64, write_data: u64) -> BankOutputs<10, 16> {
        let t = self.data_line.len();
        let data_delay = 1;
        let valid_delay = 2;
        let inputs = BankInputs {
            cas_delay: Bits::from(3),
            address: Bits::from(address),
            burst_len: Bits::from(8),
            cmd,
            write_data: Bits::from(write_data),
            select: true,
            mem_read_data: Bits::from(self.array_out),
            delayed_data: Bits::from(if t >= data_delay { self.data_line[t - data_delay] } else { 0 }),
            delayed_valid: t >= valid_delay && self.valid_line[t - valid_delay],
        };
        let out = self.bank.update(&inputs);
        assert_eq!(u64::from(out.data_delay), data_delay as u64);
        assert_eq!(u64::from(out.valid_delay), valid_delay as u64);
        self.data_line.push(u64::from(out.data_delay_in));
        self.valid_line.push(out.valid_delay_in);
        if out.mem_write_enable {
            self.memory.insert(u64::from(out.mem_address), u64::from(out.mem_write_data));
        }
        self.array_out = *self.memory.get(&u64::from(out.mem_address)).unwrap_or(&0);
        out
    }
}

#[test]
fn test_bank_write() {
    // Clock period is 500 MHz or 2000ps
    let clock_period = 2000;
    let mut rig = BankRig {
        bank: mk_bank_sim(),
        memory: std::collections::HashMap::new(),
        array_out: 0,
        data_line: vec![],
        valid_line: vec![],
    };
    let data = [
        0xABCD_u64, 0xDEAD_u64, 0xBEEF, 0x1234, 0xFACE, 0x5EA1, 0xCAFE, 0xBABE,
    ];
    let mut outs: Vec<BankOutputs<10, 16>> = vec![];
    let mut read_times = vec![];
    let mut go = |rig: &mut BankRig, cmd: SDRAMCommand, address: u64, write_data: u64| {
        if cmd == SDRAMCommand::Read {
            read_times.push(rig.data_line.len());
        }
        outs.push(rig.clock(cmd, address, write_data));
    };
    for _ in 0..31 {
        go(&mut rig, SDRAMCommand::NOP, 0, 0);
    }
    go(&mut rig, SDRAMCommand::Active, 14, 0);
    // Enough NOPs to meet the active-to-write time: tRCD is 20 ns, less
    // the clock that loads the write command.
    let wait_for_active = 20_000 - clock_period;
    for _ in 0..(wait_for_active / clock_period) {
        go(&mut rig, SDRAMCommand::NOP, 0, 0);
    }
    go(&mut rig, SDRAMCommand::Write, 0, data[0]);
    for datum in data.iter().skip(1) {
        go(&mut rig, SDRAMCommand::NOP, 0, *datum);
    }
    for _ in 0..11 {
        go(&mut rig, SDRAMCommand::NOP, 0, 0);
    }
    // Read the data back out
    go(&mut rig, SDRAMCommand::Read, 0, 0);
    for _ in 0..9 {
        go(&mut rig, SDRAMCommand::NOP, 0, 0);
    }
    // Read the data back out - with auto precharge
    go(&mut rig, SDRAMCommand::Read, 1024, 0);
    // Ten clocks, then the precharge time of 20 ns.
    for _ in 0..(11 + 10) {
        go(&mut rig, SDRAMCommand::NOP, 0, 0);
    }
    let last = rig.clock(SDRAMCommand::NOP, 0, 0);
    assert!(!last.busy);
    assert!(!last.error);
    assert!(outs.iter().all(|o| !o.error));
    let valid: Vec<usize> = (0..outs.len()).filter(|k| outs[*k].read_valid).collect();
    let read: Vec<u64> = valid.iter().map(|k| u64::from(outs[*k].read_data)).collect();
    let expected: Vec<u64> = data.iter().chain(data.iter()).cloned().collect();
    assert_eq!(read, expected);
    // The data comes CAS delay clocks after the read command.
    assert_eq!((valid[0] - read_times[0]) as u64 * clock_period, 3 * clock_period);
    assert_eq!((valid[8] - read_times[1]) as u64 * clock_period, 3 * clock_period);
}

fn mk_simple_bank() -> sdr_sdram_bank_sim::MemoryBank<5, 5, 10, 16> {
    sdr_sdram_bank_sim::MemoryBank::new(22, 33, 10, 10)
}

fn simple_clock(
    bank: &mut sdr_sdram_bank_sim::MemoryBank<5, 5, 10, 16>,
    cmd: SDRAMCommand,
    address: u64,
) -> sdr_sdram_bank_sim::BankOutputs<10, 16> {
    let inputs = sdr_sdram_bank_sim::BankInputs {
        address: Bits::from(address),
        burst_len: Bits::from(8),
        cmd,
        write_data: Bits::from(0),
        mem_read_data: Bits::from(0),
    };
    bank.update(&inputs)
}

#[test]
fn sdr_sdram_bank_sim_test_bank_activation_immediate_close_is_ok_with_delay() {
    let mut x = mk_simple_bank();
    for _ in 0..31 {
        simple_clock(&mut x, SDRAMCommand::NOP, 0);
    }
    simple_clock(&mut x, SDRAMCommand::Active, 14);
    for _ in 0..21 {
        simple_clock(&mut x, SDRAMCommand::NOP, 0);
    }
    simple_clock(&mut x, SDRAMCommand::Precharge, 0);
    for _ in 0..9 {
        simple_clock(&mut x, SDRAMCommand::NOP, 0);
        assert!(x.regs.state != sdr_sdram_bank_sim::BankState::Idle);
    }
    simple_clock(&mut x, SDRAMCommand::NOP, 0);
    assert!(x.regs.state == sdr_sdram_bank_sim::BankState::Idle);
    for _ in 0..10 {
        simple_clock(&mut x, SDRAMCommand::NOP, 0);
    }
    assert!(!simple_clock(&mut x, SDRAMCommand::NOP, 0).error);
}

#[test]
fn sdr_sdram_bank_sim_test_bank_activation_immediate_close_fails_for_timing() {
    let mut x = mk_simple_bank();
    for _ in 0..2 {
        simple_clock(&mut x, SDRAMCommand::NOP, 0);
    }
    simple_clock(&mut x, SDRAMCommand::Active, 14);
    for _ in 0..20 {
        simple_clock(&mut x, SDRAMCommand::NOP, 0);
    }
    simple_clock(&mut x, SDRAMCommand::Precharge, 0);
    for _ in 0..10 {
        simple_clock(&mut x, SDRAMCommand::NOP, 0);
    }
    assert!(simple_clock(&mut x, SDRAMCommand::NOP, 0).error);
}

#[test]
fn simple_bank_idle_refuses_other_commands() {
    let mut x = mk_simple_bank();
    simple_clock(&mut x, SDRAMCommand::Read, 0);
    assert_eq!(x.regs.state, sdr_sdram_bank_sim::BankState::Error);
    let out = simple_clock(&mut x, SDRAMCommand::NOP, 0);
    assert!(out.error);
}

fn micron_clock(
    chip: &mut MicronSDRSimulator<16>,
    cmd: MicronCommand,
    address: u64,
) -> MicronOutputs {
    chip.update(&MicronInputs { cmd, address: Bits::from(address) })
}

fn micron_nops(chip: &mut MicronSDRSimulator<16>, n: usize) {
    for _ in 0..n {
        micron_clock(chip, MicronCommand::NOP, 0);
    }
}

// At 125 MHz the MT48LC8M16A2 needs 12500 clocks to boot, 3 to precharge,
// 9 to auto refresh and 2 to load its mode register.
fn mk_sdr_sim() -> MicronSDRSimulator<16> {
    MicronSDRSimulator::new(12500, 3, 9, 2)
}

#[test]
fn micron_sdr_sdram_sim_test_sdram_init_works() {
    let mut x = mk_sdr_sim();
    micron_nops(&mut x, 12502);
    micron_clock(&mut x, MicronCommand::Precharge, 0xFFF);
    micron_nops(&mut x, 4);
    micron_clock(&mut x, MicronCommand::AutoRefresh, 0);
    micron_nops(&mut x, 10);
    micron_clock(&mut x, MicronCommand::AutoRefresh, 0);
    micron_nops(&mut x, 10);
    micron_clock(&mut x, MicronCommand::LoadModeRegister, 0b000_0_00_011_0_011);
    micron_nops(&mut x, 20);
    assert!(x.regs.state == MasterState::Ready);
    let out = micron_clock(&mut x, MicronCommand::NOP, 0);
    assert!(out.test_ready && !out.test_error);
    assert_eq!(u64::from(x.regs.cas_latency), 3);
    assert_eq!(u64::from(x.regs.burst_len), 3);
    // A ready chip stays ready, whatever it is given.
    micron_clock(&mut x, MicronCommand::Read, 0);
    assert!(x.regs.state == MasterState::Ready);
}

#[test]
fn micron_command_during_boot_fails() {
    let mut x = mk_sdr_sim();
    micron_nops(&mut x, 100);
    micron_clock(&mut x, MicronCommand::Precharge, 0xFFF);
    assert!(x.regs.state == MasterState::Error);
    assert!(micron_clock(&mut x, MicronCommand::NOP, 0).test_error);
}

#[test]
fn micron_precharge_must_select_all_banks() {
    let mut x = MicronSDRSimulator::<16>::new(2, 3, 9, 2);
    micron_nops(&mut x, 3);
    assert!(x.regs.state == MasterState::WaitPrecharge);
    micron_clock(&mut x, MicronCommand::Precharge, 0x3FF);
    assert!(x.regs.state == MasterState::Error);
}

#[test]
fn micron_mode_load_needs_two_refreshes() {
    let mut x = MicronSDRSimulator::<16>::new(2, 3, 9, 2);
    micron_nops(&mut x, 3);
    micron_clock(&mut x, MicronCommand::Precharge, 0xFFF);
    micron_nops(&mut x, 4);
    assert!(x.regs.state == MasterState::WaitAutorefresh);
    micron_clock(&mut x, MicronCommand::AutoRefresh, 0);
    micron_nops(&mut x, 10);
    assert_eq!(u64::from(x.regs.auto_refresh_init_counter), 1);
    micron_clock(&mut x, MicronCommand::LoadModeRegister, 0b011_0_011);
    assert!(x.regs.state == MasterState::Error);
}

#[test]
fn micron_unsupported_cas_latency_fails() {
    let mut x = MicronSDRSimulator::<16>::new(2, 3, 9, 2);
    micron_nops(&mut x, 3);
    micron_clock(&mut x, MicronCommand::Precharge, 0xFFF);
    micron_nops(&mut x, 4);
    for _ in 0..2 {
        micron_clock(&mut x, MicronCommand::AutoRefresh, 0);
        micron_nops(&mut x, 10);
    }
    // A CAS latency of 4 clocks is not supported.
    micron_clock(&mut x, MicronCommand::LoadModeRegister, 0b100_0_011);
    assert!(x.regs.state == MasterState::LoadModeRegister);
    micron_clock(&mut x, MicronCommand::NOP, 0);
    assert!(x.regs.state == MasterState::Error);
}
