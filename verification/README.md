# soma

A Game Boy (DMG) emulator whose core is verified with Verus.

## Layout

- `src/` — the verified library:
  - `rom.rs`, `io.rs`, `memory.rs`: the ROM image, the I/O ports and the
    memory map, modelled by `MemView` (reads, writes, bank selection);
  - `semantics.rs`: what each implemented SM83 instruction does, as a spec
    function from registers and memory to the next state, with the laws
    proved about it;
  - `sm83.rs`: the CPU, each instruction proved against `semantics.rs`;
  - `fault.rs`: whether the next instruction would stop the emulator;
  - `dmg.rs`: the system (CPU and memory), the step and the picture;
  - `interrupt.rs`: V-Blank interrupt dispatch;
  - `gdb.rs`: the GDB remote protocol (command parsing and replies);
  - `debugger.rs`, `disasm.rs`: the debugger's state, the text it shows,
    breakpoints and the disassembly cache;
  - `text.rs`, `bytes.rs`: hex digits, character search, byte pairs.
- `tests/` — tests of the library.
- `app/` — the program: command line, ROM loading, the emulation thread,
  the GDB TCP server and the egui user interface.

Decoding instructions for display is done by the `psy` assembler in `app/`;
the library takes its decode table as a plain `Vec<(u8, u8)>`.
