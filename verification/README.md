# rust_hdl

A hardware description library whose logic is verified with Verus.

- `src/` is the verified library:
  - `hdl_core`: bit vectors (`Bits<N>`) and their arithmetic, the Verilog
    syntax tree, the code generator (names made Verilog identifiers, blocks
    written with `begin`/`end`, loops unrolled), the design-rule checks, and
    the scheduler that decides which testbench of a simulation runs next;
  - `sim`, `bsp`, `hls`: cycle-by-cycle models of SDRAM chips and banks, a
    DDR memory interface and FIFO, host-side controllers, routers and ports,
    each as a step function from registers and inputs to registers and
    outputs, with laws about their behaviour over many cycles;
  - `docs`: the reader of value-change dumps into traces (the dump parsed
    by the `vcd` crate) and the text renderer of traces;
  - `device`, `toolchain`: Verilog and pin-constraint text for FPGA parts.
- `tests/` runs the library on concrete values.
- `app/` is the runtime around it: the threads and channels of the
  simulation engine, reading dump files into bytes, floating point picture
  layout and memory timings given in nanoseconds.
