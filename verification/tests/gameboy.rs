use mdgbe::cartridge::Cartridge_MBC1;
use mdgbe::gameboy::{Button, Gameboy, FRAME_T_CYCLES};

fn cartridge(program: &[u8]) -> Cartridge_MBC1 {
    let mut cart = Cartridge_MBC1::new();
    let mut h = [0u8; 80];
    h[0x47] = 1;
    cart.load_header(h);
    for (i, b) in program.iter().enumerate() {
        cart.rom[0x100 + i] = *b;
    }
    cart
}

#[test]
fn new_machine() {
    let gb = Gameboy::new();
    assert_eq!(gb.bus.io_regs[0], 0xCF);
    assert_eq!(gb.cpu.registers().pc, 0x100);
    assert!(gb.frame().iter().all(|row| row.iter().all(|&p| p == (3, 3, 3))));
    assert_eq!(FRAME_T_CYCLES, 456 * 154);
}

#[test]
fn frame_of_a_tight_loop() {
    let mut gb = Gameboy::new();
    // JR -2 takes 12 cycles; a frame holds 5852 of them exactly.
    gb.bus.cartridge = cartridge(&[0x18, 0xFE]);
    let samples = gb.run_frame().unwrap();
    assert_eq!(samples.len(), 738);
    assert_eq!(gb.cpu.registers().pc, 0x100);
    assert_eq!(gb.cpu.registers().t_states, 70224);
    // 153 line ends have passed.
    assert_eq!(gb.bus.io_regs[0x44], 153);
    assert_eq!(gb.bus.io_regs[0x0F] & 1, 1);
    // LCDC 0 with clear tiles and BGP 0: every drawn pixel is white.
    assert!(gb.frame().iter().all(|row| row.iter().all(|&p| p == (255, 255, 255))));
    let samples = gb.run_frame().unwrap();
    assert_eq!(samples.len(), 738);
    assert_eq!(gb.cpu.registers().t_states, 2 * 70224);
}

#[test]
fn frame_carries_extra_cycles() {
    let mut gb = Gameboy::new();
    // JP to 0x0150, where a JP to itself (16 cycles) loops.
    let mut program = vec![0u8; 0x60];
    program[0..3].copy_from_slice(&[0xC3, 0x50, 0x01]);
    program[0x50..0x53].copy_from_slice(&[0xC3, 0x50, 0x01]);
    gb.bus.cartridge = cartridge(&program);
    gb.run_frame().unwrap();
    // 70224 = 16 * 4389: the frame ends on an instruction boundary.
    assert_eq!(gb.cpu.registers().t_states, 70224);
    // NOP, NOP, NOP, JR -5: 4 + 4 + 4 + 12 = 24 cycles per turn; 70224 = 24 * 2926.
    let mut gb = Gameboy::new();
    gb.bus.cartridge = cartridge(&[0x00, 0x00, 0x00, 0x18, 0xFB]);
    gb.run_frame().unwrap();
    assert_eq!(gb.cpu.registers().pc, 0x100);
}

#[test]
fn frame_with_missing_opcode_fails() {
    let mut gb = Gameboy::new();
    gb.bus.cartridge = cartridge(&[0x00, 0xD3]);
    assert!(gb.run_frame().is_none());
}

#[test]
fn program_writes_reach_the_bus() {
    let mut gb = Gameboy::new();
    // LD A,0x42; LD (0xC000),A; JR -2
    gb.bus.cartridge = cartridge(&[0x3E, 0x42, 0xEA, 0x00, 0xC0, 0x18, 0xFE]);
    gb.run_frame().unwrap();
    assert_eq!(gb.bus.wram1[0], 0x42);
}

#[test]
fn buttons_set_bus_lines() {
    let mut gb = Gameboy::new();
    gb.set_button(Button::A, true);
    gb.set_button(Button::Down, true);
    assert!(gb.bus.a && gb.bus.down);
    gb.set_button(Button::A, false);
    assert!(!gb.bus.a && gb.bus.down);
    gb.set_button(Button::Start, true);
    gb.set_button(Button::Select, true);
    gb.set_button(Button::B, true);
    gb.set_button(Button::Up, true);
    gb.set_button(Button::Left, true);
    gb.set_button(Button::Right, true);
    assert!(gb.bus.start && gb.bus.select && gb.bus.b && gb.bus.up && gb.bus.left && gb.bus.right);
    // 0xCF selects neither group: all lines read high.
    assert_eq!(gb.bus.read(0xFF00), 0xCF);
    // Bit 4: A (released), B, Select, Start (held) on lines 0-3.
    gb.bus.write(0xFF00, 0x10);
    assert_eq!(gb.bus.read(0xFF00), 0xD1);
}

#[test]
fn frame_ends_less_than_24_cycles_past() {
    let mut gb = Gameboy::new();
    // CALL 0x0110 (24 cycles); at 0x0110: RET (16); at 0x0103: JR -5 (12).
    let mut program = vec![0u8; 0x20];
    program[0..3].copy_from_slice(&[0xCD, 0x10, 0x01]);
    program[3..5].copy_from_slice(&[0x18, 0xFB]);
    program[0x10] = 0xC9;
    gb.bus.cartridge = cartridge(&program);
    for k in 1..=3u32 {
        gb.run_frame().unwrap();
        let t = gb.cpu.registers().t_states;
        assert!(t >= 70224 * k && t < 70224 * k + 24);
    }
}
