# mdgbe

A Game Boy emulator whose machine is a verified library.

- `src/cartridge.rs`: the MBC1 cartridge (ROM banking, external RAM behind
  its enable register).
- `src/bus.rs`: the memory map, the joypad register and the OAM transfer.
- `src/sm83.rs`: the CPU's instruction set as functions over `CpuView` and
  `BusView`; `src/cpu.rs` runs it on the registers, one function per
  instruction.
- `src/ppu.rs`: the picture unit, one dot at a time.
- `src/apu.rs`: the sound unit, one dot at a time; it hands out each
  sample's channel levels, which the program mixes.
- `src/gameboy.rs`: the whole machine and one frame of it.
- `app/main.rs`: the program: the file dialog, the window, the sound device,
  the keyboard and the mixer.
