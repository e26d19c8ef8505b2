# chip8

A CHIP-8 interpreter whose instruction semantics are specified and proved with Verus.

- `src/machine.rs` — the mathematical model: the state as sequences and integers, the
  meaning of every instruction, and when an instruction can run without fault.
- `src/cpu.rs` — the interpreter's state and the register, stack, timer, memory and key
  instructions, each proved to implement its model.
- `src/sprite.rs` — sprite drawing (DXYN) and its bounds check.
- `src/step.rs` — fetch, decode and execute one instruction.
- `src/boot.rs` — the power-on state with the built-in font, and program loading.
- `src/display.rs` — the squares the window draws for lit pixels.
- `src/host.rs` — keyboard and window events.
- `src/laws.rs` — properties across instructions (call/return, redraw erases, store/load,
  decimal digits, carry and borrow, waiting for a key, the timers, the pixel invariant).
- `src/random.rs` — the random byte source (the `rand` crate).
- `app/main.rs` — the SDL window, the ROM file and the main loop.
