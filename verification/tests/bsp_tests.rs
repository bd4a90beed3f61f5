use rust_hdl::bsp::ok_xem6010::ddr_fifo::{DDRFIFOInputs, DDRFIFOState, DDRFIFO};
use rust_hdl::bsp::ok_xem6010::mig::{
    MIGCommand, MIGInputs, MIGInstruction, MIGState, MaskedWrite, MemoryInterfaceGenerator,
};
use rust_hdl::hdl_core::bits::Bits;

fn fifo_inputs() -> DDRFIFOInputs {
    DDRFIFOInputs {
        read: false,
        write: false,
        data_in: Bits::from(0),
        calib_done: true,
        mig_cmd_full: false,
        mig_wr_full: false,
        mig_wr_error: false,
        mig_wr_underrun: false,
        mig_rd_empty: false,
        mig_rd_error: false,
        mig_rd_overflow: false,
        mig_rd_data: Bits::from(0),
        front_porch_empty: false,
        front_porch_almost_empty: true,
        front_porch_almost_full: false,
        front_porch_full: false,
        front_porch_data_out: Bits::from(0),
        back_porch_empty: true,
        back_porch_almost_empty: true,
        back_porch_almost_full: false,
        back_porch_full: false,
        back_porch_data_out: Bits::from(0),
    }
}

#[test]
fn ddr_fifo_moves_a_packet_in_and_out() {
    let mut f = DDRFIFO::new();
    let mut i = fifo_inputs();
    i.calib_done = false;
    f.update(&i);
    assert_eq!(f.state, DDRFIFOState::Booting);
    let i = fifo_inputs();
    f.update(&i);
    assert_eq!(f.state, DDRFIFOState::Busy);
    f.update(&i);
    assert_eq!(f.state, DDRFIFOState::Idle);
    // Nothing to store and nothing stored: the FIFO waits.
    f.update(&i);
    assert_eq!(f.state, DDRFIFOState::Idle);
    // The front porch fills up: a packet of 32 words moves in.
    let mut full = fifo_inputs();
    full.front_porch_almost_empty = false;
    f.update(&full);
    assert_eq!(f.state, DDRFIFOState::Write);
    assert_eq!(u64::from(f.transfer_in_count), 32);
    let mut moved = 0;
    for _ in 0..40 {
        let out = f.update(&i);
        if out.mig_wr_enable {
            assert!(out.front_porch_read);
            moved += 1;
        }
        if f.state != DDRFIFOState::Write {
            break;
        }
    }
    assert_eq!(moved, 32);
    assert_eq!(f.state, DDRFIFOState::WriteComplete);
    let out = f.update(&i);
    assert!(out.mig_cmd_enable);
    assert_eq!(out.mig_cmd.instruction, MIGInstruction::Write);
    assert_eq!(u64::from(out.mig_cmd.burst_len), 31);
    assert_eq!(u64::from(out.mig_cmd.byte_address), 0);
    f.update(&i);
    assert_eq!(u64::from(f.write_address), 128);
    let out = f.update(&i);
    // The DDR memory now holds data.
    assert_eq!(u64::from(out.status), 32);
    assert_eq!(f.state, DDRFIFOState::Idle);
    let out = f.update(&i);
    assert!(out.mig_cmd_enable);
    assert_eq!(out.mig_cmd.instruction, MIGInstruction::Read);
    assert_eq!(f.state, DDRFIFOState::Read);
    let mut moved = 0;
    for _ in 0..40 {
        let out = f.update(&i);
        if out.mig_rd_enable {
            assert!(out.back_porch_write);
            moved += 1;
        }
        if f.state != DDRFIFOState::Read {
            break;
        }
    }
    assert_eq!(moved, 32);
    f.update(&i);
    assert_eq!(u64::from(f.read_address), 128);
    let out = f.update(&i);
    assert_eq!(u64::from(out.status), 0);
}

#[test]
fn ddr_fifo_status_bits() {
    let f = DDRFIFO::new();
    let mut f = f;
    let mut i = fifo_inputs();
    i.mig_wr_error = true;
    i.mig_cmd_full = true;
    i.mig_rd_overflow = true;
    assert_eq!(u64::from(f.update(&i).status), 1 + 4 + 16);
}

fn mig_inputs() -> MIGInputs {
    MIGInputs {
        p0_cmd_enable: false,
        p0_cmd: MIGCommand::default(),
        p0_wr_enable: false,
        p0_wr_data: MaskedWrite::default(),
        p0_rd_enable: false,
        cmd_fifo_empty: true,
        cmd_fifo_full: false,
        cmd_fifo_write_fill: Bits::from(0),
        cmd_fifo_data_out: MIGCommand::default(),
        write_fifo_full: false,
        write_fifo_underflow: false,
        write_fifo_overflow: false,
        write_fifo_write_fill: Bits::from(0),
        write_fifo_data_out: MaskedWrite::default(),
        read_fifo_empty: true,
        read_fifo_full: false,
        read_fifo_underflow: false,
        read_fifo_overflow: false,
        read_fifo_read_fill: Bits::from(0),
        read_fifo_data_out: Bits::from(0),
    }
}

fn command(instruction: MIGInstruction, burst_len: u64, byte_address: u64) -> MIGInputs {
    let mut i = mig_inputs();
    i.cmd_fifo_empty = false;
    i.cmd_fifo_data_out = MIGCommand {
        instruction,
        burst_len: Bits::from(burst_len),
        byte_address: Bits::from(byte_address),
    };
    i
}

fn calibrated() -> MemoryInterfaceGenerator {
    let mut g = MemoryInterfaceGenerator::new();
    let i = mig_inputs();
    for k in 0..102 {
        let out = g.update(&i);
        assert!(!out.calib_done);
        assert_eq!(out.reset_out, k != 101);
    }
    assert!(g.update(&i).calib_done);
    assert_eq!(g.registers_now().state, MIGState::Idle);
    g
}

#[test]
fn mig_reads_back_what_it_wrote() {
    let mut g = calibrated();
    let out = g.update(&command(MIGInstruction::Write, 2, 0x40));
    assert!(out.cmd_fifo_read);
    assert_eq!(g.registers_now().state, MIGState::Writing);
    assert_eq!(u64::from(g.registers_now().address), 0x10);
    for k in 0..3u64 {
        let mut i = mig_inputs();
        i.write_fifo_data_out = MaskedWrite { mask: Bits::from(0), data: Bits::from(0xA0 + k) };
        assert!(g.update(&i).write_fifo_read);
    }
    assert!(!g.update(&mig_inputs()).write_fifo_read);
    assert_eq!(g.registers_now().state, MIGState::Idle);
    g.update(&command(MIGInstruction::ReadPrecharge, 3, 0x44));
    let mut words = vec![];
    for _ in 0..5 {
        let out = g.update(&mig_inputs());
        if out.read_fifo_write {
            words.push(u64::from(out.read_fifo_data_in));
        }
    }
    // Addresses never written read as zero.
    assert_eq!(words, vec![0xA1, 0xA2, 0, 0]);
}

#[test]
fn mig_misaligned_command_fails() {
    let mut g = calibrated();
    g.update(&command(MIGInstruction::Read, 0, 0x42));
    assert_eq!(g.registers_now().state, MIGState::Error);
    g.update(&command(MIGInstruction::Read, 0, 0x40));
    assert_eq!(g.registers_now().state, MIGState::Error);
}

#[test]
fn mig_refresh_takes_the_command() {
    let mut g = calibrated();
    let out = g.update(&command(MIGInstruction::Refresh, 0, 0));
    assert!(!out.cmd_fifo_read);
    assert_eq!(g.registers_now().state, MIGState::Refresh);
    assert!(g.update(&mig_inputs()).cmd_fifo_read);
    assert_eq!(g.registers_now().state, MIGState::Idle);
}
