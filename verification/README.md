# win16emu

An emulator for 16-bit Windows programs (NE executables), written in Verus: the
library's behaviour is stated in `requires` / `ensures` contracts and proved.

Layout:

- `src/` — the verified library.
  - `loader.rs`, `executable.rs`: the MZ and NE headers, module references, entry table,
    segment table and relocations, and the memory image a program starts from.
  - `machine.rs`, `emulator.rs`, `registers.rs`, `memory.rs`, `mod_rm.rs`: the 8086 subset
    that is executed, one instruction per `step`, as a function on a machine model.
  - `module.rs`, `emulated_kernel.rs`, `emulated_user.rs`, `emulated_gdi.rs`,
    `emulated_keyboard.rs`: the system calls of the emulated modules.
  - `object_environment.rs`, `window_manager.rs`, `bitmap.rs`, `message_queue.rs`,
    `handle_table.rs`, `heap.rs` and the allocators: the state those calls work on.
  - `laws.rs`: properties that relate several operations.
- `tests/` — tests on concrete values.
- `app/` — the program around the library: reading the file, the run loop, and the
  SDL2 window that shows the bitmaps.
