# LJD 16-bit computer emulator, verified

A library that emulates the LJD 16-bit computer (a cartridge-based machine with a
16-register CPU and a Harvard memory layout), with its behaviour stated in Verus
contracts and proved.

- `src/isa.rs` is the model: what each instruction, a CPU step and a frame of
  execution do to the machine state.
- `src/memory.rs`, `src/cpu.rs` and `src/computer.rs` are the executable emulator,
  each function proved against that model.
- `src/laws.rs` holds properties proved of the model (read-after-write, ROMs never
  change, END is a fixed point, failed stores change nothing, ...).
- `app/` is the command-line program: argument parsing, reading the cartridge
  file, the frame timing loop and printing.
