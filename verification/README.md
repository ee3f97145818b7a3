# Phantom

A CHIP-8 emulator core, verified with Verus. The CPU is a headless,
deterministic state machine: `Cpu::step()` fetches, decodes and executes one
opcode, and every operation is specified against an abstract machine.

Layout:

- `src/machine.rs`: the abstract machine (`Machine`) and what each opcode,
  timer tick, key event and program load does to it.
- `src/cpu.rs`: the executable CPU, whose operations are proved to follow the
  machine; `Cpu::can_step` tells a front end whether the next step stays within
  the machine's stack and memory, and `Cpu::run_frame` runs one frame of steps
  followed by a timer tick.
- `src/display.rs`: the 64x32 XOR-drawn pixel buffer and its text rendering.
- `src/rng.rs`: the random sources for `CXNN` (the `rand` generator, or a fixed
  list for tests). `RandSource::may_yield` says which bytes a source may hand
  out next, and `Cpu::step` is proved to use one of them for `CXNN`.
- `src/font.rs`, `src/demo.rs`: the built-in font and the bundled demo ROM.
- `src/laws.rs`: properties spanning several operations (call/return,
  register dump and load, XOR drawing twice, timers, determinism, ...).
- `app/main.rs`: the command-line runner and terminal renderer.
