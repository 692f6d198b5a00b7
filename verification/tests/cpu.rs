use mdgbe::bus::Bus;
use mdgbe::cartridge::Cartridge_MBC1;
use mdgbe::cpu::Cpu;

/// A CPU after boot and a bus whose ROM holds `program` at 0x0100.
fn machine(program: &[u8]) -> (Cpu, Bus) {
    let mut cart = Cartridge_MBC1::new();
    let mut h = [0u8; 80];
    h[0x47] = 1;
    cart.load_header(h);
    for (i, b) in program.iter().enumerate() {
        cart.rom[0x100 + i] = *b;
    }
    (Cpu::new(), Bus::new(cart))
}

fn run(cpu: &mut Cpu, bus: &mut Bus, steps: usize) -> Vec<u32> {
    (0..steps).map(|_| cpu.step(bus)).collect()
}

#[test]
fn boot_registers() {
    let (cpu, _) = machine(&[]);
    let r = cpu.registers();
    assert_eq!(r.a, 0x01);
    assert!(!r.zf && !r.nf && !r.hf && !r.cf);
    assert_eq!((r.bc, r.de, r.hl, r.sp, r.pc), (0xFF13, 0x00C1, 0x8403, 0xFFFE, 0x0100));
    assert_eq!((r.t_states, r.ime), (0, 0));
}

#[test]
fn nop_takes_four_cycles() {
    let (mut cpu, mut bus) = machine(&[0x00]);
    assert_eq!(cpu.step(&mut bus), 4);
    assert_eq!(cpu.registers().pc, 0x101);
    assert_eq!(cpu.registers().t_states, 4);
}

#[test]
fn load_immediate_and_store_absolute() {
    // LD A,0x42; LD (0xC000),A
    let (mut cpu, mut bus) = machine(&[0x3E, 0x42, 0xEA, 0x00, 0xC0]);
    assert_eq!(run(&mut cpu, &mut bus, 2), vec![8, 16]);
    assert_eq!(bus.read(0xC000), 0x42);
    assert_eq!(cpu.registers().a, 0x42);
    assert_eq!(cpu.registers().pc, 0x105);
    assert_eq!(cpu.registers().t_states, 24);
}

#[test]
fn add_sets_zero_and_carry() {
    // LD A,0x3A; ADD A,0xC6
    let (mut cpu, mut bus) = machine(&[0x3E, 0x3A, 0xC6, 0xC6]);
    assert_eq!(run(&mut cpu, &mut bus, 2), vec![8, 8]);
    let r = cpu.registers();
    assert_eq!(r.a, 0x00);
    assert!(r.zf && !r.nf && !r.hf && r.cf);
}

#[test]
fn add_half_carry_from_new_low_nibble() {
    // LD A,0x08; ADD A,0x08: the new A is 0x10, and 0x0 + 0x8 does not pass 15.
    let (mut cpu, mut bus) = machine(&[0x3E, 0x08, 0xC6, 0x08]);
    run(&mut cpu, &mut bus, 2);
    let r = cpu.registers();
    assert_eq!(r.a, 0x10);
    assert!(!r.zf && !r.hf && !r.cf);
    // LD A,0x0F; ADD A,0x01: the new A is 0x10 as well.
    let (mut cpu, mut bus) = machine(&[0x3E, 0x0F, 0xC6, 0x01]);
    run(&mut cpu, &mut bus, 2);
    assert!(!cpu.registers().hf);
    // LD A,0x0E; ADD A,0x0E: the new A is 0x1C, and 0xC + 0xE passes 15.
    let (mut cpu, mut bus) = machine(&[0x3E, 0x0E, 0xC6, 0x0E]);
    run(&mut cpu, &mut bus, 2);
    assert_eq!(cpu.registers().a, 0x1C);
    assert!(cpu.registers().hf);
}

#[test]
fn sub_and_compare() {
    // LD A,0x10; SUB 0x20; CP 0xF0
    let (mut cpu, mut bus) = machine(&[0x3E, 0x10, 0xD6, 0x20, 0xFE, 0xF0]);
    run(&mut cpu, &mut bus, 2);
    let r = cpu.registers();
    assert_eq!(r.a, 0xF0);
    assert!(!r.zf && r.nf && r.cf);
    run(&mut cpu, &mut bus, 1);
    let r = cpu.registers();
    assert_eq!(r.a, 0xF0);
    assert!(r.zf && r.nf && !r.cf);
}

#[test]
fn logic_operations() {
    // LD A,0xF0; AND 0x3C; OR 0x01; XOR 0x31
    let (mut cpu, mut bus) = machine(&[0x3E, 0xF0, 0xE6, 0x3C, 0xF6, 0x01, 0xEE, 0x31]);
    run(&mut cpu, &mut bus, 2);
    assert_eq!(cpu.registers().a, 0x30);
    assert!(cpu.registers().hf);
    run(&mut cpu, &mut bus, 1);
    assert_eq!(cpu.registers().a, 0x31);
    run(&mut cpu, &mut bus, 1);
    assert_eq!(cpu.registers().a, 0x00);
    assert!(cpu.registers().zf && !cpu.registers().hf);
}

#[test]
fn inc_dec_flags() {
    // LD B,0xFF; INC B; DEC B
    let (mut cpu, mut bus) = machine(&[0x06, 0xFF, 0x04, 0x05]);
    assert_eq!(run(&mut cpu, &mut bus, 2), vec![8, 4]);
    let r = cpu.registers();
    assert_eq!(r.bc >> 8, 0x00);
    assert!(r.zf && !r.nf && r.hf);
    run(&mut cpu, &mut bus, 1);
    let r = cpu.registers();
    assert_eq!(r.bc >> 8, 0xFF);
    assert!(!r.zf && r.nf && r.hf);
}

#[test]
fn push_then_pop_moves_pair() {
    // LD BC,0x1234; PUSH BC; POP DE
    let (mut cpu, mut bus) = machine(&[0x01, 0x34, 0x12, 0xC5, 0xD1]);
    assert_eq!(run(&mut cpu, &mut bus, 3), vec![12, 16, 12]);
    let r = cpu.registers();
    assert_eq!(r.de, 0x1234);
    assert_eq!(r.sp, 0xFFFE);
    assert_eq!(bus.read(0xFFFD), 0x12);
    assert_eq!(bus.read(0xFFFC), 0x34);
}

#[test]
fn push_pop_af_keeps_low_nibble() {
    // LD A,0x80; ADD A,0x80 (Z and C); PUSH AF; POP BC
    let (mut cpu, mut bus) = machine(&[0x3E, 0x80, 0xC6, 0x80, 0xF5, 0xC1]);
    run(&mut cpu, &mut bus, 4);
    assert_eq!(cpu.registers().bc, 0x0090);
}

#[test]
fn call_and_return() {
    // 0x100: CALL 0x0110; 0x103: LD A,0x77; 0x110: RET
    let mut program = vec![0u8; 0x20];
    program[0..3].copy_from_slice(&[0xCD, 0x10, 0x01]);
    program[3..5].copy_from_slice(&[0x3E, 0x77]);
    program[0x10] = 0xC9;
    let (mut cpu, mut bus) = machine(&program);
    assert_eq!(cpu.step(&mut bus), 24);
    assert_eq!(cpu.registers().pc, 0x110);
    assert_eq!(cpu.registers().sp, 0xFFFC);
    assert_eq!(cpu.step(&mut bus), 16);
    assert_eq!(cpu.registers().pc, 0x103);
    assert_eq!(cpu.registers().sp, 0xFFFE);
    cpu.step(&mut bus);
    assert_eq!(cpu.registers().a, 0x77);
}

#[test]
fn conditional_jumps() {
    // XOR A (Z set); JR NZ,+2 (not taken); JR Z,+2 (taken)
    let (mut cpu, mut bus) = machine(&[0xAF, 0x20, 0x02, 0x28, 0x02]);
    assert_eq!(run(&mut cpu, &mut bus, 3), vec![4, 8, 12]);
    assert_eq!(cpu.registers().pc, 0x107);
}

#[test]
fn jump_relative_backwards() {
    let (mut cpu, mut bus) = machine(&[0x18, 0xFE]);
    assert_eq!(cpu.step(&mut bus), 12);
    assert_eq!(cpu.registers().pc, 0x100);
}

#[test]
fn jump_absolute_and_restart() {
    let mut program = vec![0u8; 0x60];
    program[0..3].copy_from_slice(&[0xC3, 0x50, 0x01]);
    program[0x50] = 0xFF;
    let (mut cpu, mut bus) = machine(&program);
    assert_eq!(cpu.step(&mut bus), 16);
    assert_eq!(cpu.registers().pc, 0x150);
    assert_eq!(cpu.step(&mut bus), 16);
    assert_eq!(cpu.registers().pc, 0x38);
    assert_eq!(cpu.registers().sp, 0xFFFC);
    assert_eq!(bus.read(0xFFFC), 0x51);
    assert_eq!(bus.read(0xFFFD), 0x01);
}

#[test]
fn daa_after_addition() {
    // LD A,0x15; ADD A,0x27; DAA
    let (mut cpu, mut bus) = machine(&[0x3E, 0x15, 0xC6, 0x27, 0x27]);
    run(&mut cpu, &mut bus, 3);
    assert_eq!(cpu.registers().a, 0x42);
    assert!(!cpu.registers().cf);
}

#[test]
fn daa_after_subtraction() {
    // LD A,0x42; SUB 0x15 (0x2D, H set by the rule on the new A); DAA
    let (mut cpu, mut bus) = machine(&[0x3E, 0x42, 0xD6, 0x15, 0x27]);
    run(&mut cpu, &mut bus, 2);
    assert_eq!(cpu.registers().a, 0x2D);
    assert!(!cpu.registers().hf);
    run(&mut cpu, &mut bus, 1);
    assert_eq!(cpu.registers().a, 0x2D);
}

#[test]
fn cpl_scf_ccf() {
    // LD A,0x35; CPL; SCF; CCF
    let (mut cpu, mut bus) = machine(&[0x3E, 0x35, 0x2F, 0x37, 0x3F]);
    run(&mut cpu, &mut bus, 2);
    assert_eq!(cpu.registers().a, 0xCA);
    assert!(cpu.registers().nf && cpu.registers().hf);
    run(&mut cpu, &mut bus, 1);
    assert!(cpu.registers().cf && !cpu.registers().nf);
    run(&mut cpu, &mut bus, 1);
    assert!(!cpu.registers().cf);
}

#[test]
fn rotates_of_a() {
    // LD A,0x81; RLCA; RRA
    let (mut cpu, mut bus) = machine(&[0x3E, 0x81, 0x07, 0x1F]);
    run(&mut cpu, &mut bus, 2);
    assert_eq!(cpu.registers().a, 0x03);
    assert!(cpu.registers().cf && !cpu.registers().zf);
    run(&mut cpu, &mut bus, 1);
    assert_eq!(cpu.registers().a, 0x81);
    assert!(cpu.registers().cf);
}

#[test]
fn prefixed_swap_and_bits() {
    // LD A,0xAB; SWAP A; RES 3,A; BIT 3,A; SET 3,A; BIT 3,A
    let (mut cpu, mut bus) = machine(&[0x3E, 0xAB, 0xCB, 0x37, 0xCB, 0x9F, 0xCB, 0x5F, 0xCB, 0xDF, 0xCB, 0x5F]);
    assert_eq!(run(&mut cpu, &mut bus, 2), vec![8, 8]);
    assert_eq!(cpu.registers().a, 0xBA);
    run(&mut cpu, &mut bus, 2);
    assert_eq!(cpu.registers().a, 0xB2);
    assert!(cpu.registers().zf && cpu.registers().hf);
    run(&mut cpu, &mut bus, 2);
    assert_eq!(cpu.registers().a, 0xBA);
    assert!(!cpu.registers().zf);
}

#[test]
fn prefixed_on_memory() {
    // LD HL,0xC000; LD (HL),0x80; SLA (HL); BIT 0,(HL)
    let (mut cpu, mut bus) = machine(&[0x21, 0x00, 0xC0, 0x36, 0x80, 0xCB, 0x26, 0xCB, 0x46]);
    assert_eq!(run(&mut cpu, &mut bus, 4), vec![12, 12, 16, 12]);
    assert_eq!(bus.read(0xC000), 0x00);
    assert!(cpu.registers().cf && cpu.registers().zf);
}

#[test]
fn load_hl_increment_and_decrement() {
    // LD HL,0xC010; LD A,0x5A; LD (HL+),A; LD (HL-),A; LD A,(HL-)
    let (mut cpu, mut bus) = machine(&[0x21, 0x10, 0xC0, 0x3E, 0x5A, 0x22, 0x32, 0x3A]);
    run(&mut cpu, &mut bus, 5);
    assert_eq!(bus.read(0xC010), 0x5A);
    assert_eq!(bus.read(0xC011), 0x5A);
    assert_eq!(cpu.registers().a, 0x5A);
    assert_eq!(cpu.registers().hl, 0xC00F);
}

#[test]
fn add_hl_and_sp_offset() {
    // LD HL,0x0FFF; LD BC,0x0001; ADD HL,BC; ADD SP,-2; LD HL,SP+1
    let (mut cpu, mut bus) = machine(&[0x21, 0xFF, 0x0F, 0x01, 0x01, 0x00, 0x09, 0xE8, 0xFE, 0xF8, 0x01]);
    run(&mut cpu, &mut bus, 3);
    assert_eq!(cpu.registers().hl, 0x1000);
    // H comes from the new HL: 0x000 + 0x001 does not pass 0xFFF.
    assert!(!cpu.registers().hf && !cpu.registers().cf);
    assert_eq!(cpu.step(&mut bus), 16);
    assert_eq!(cpu.registers().sp, 0xFFFC);
    assert_eq!(cpu.step(&mut bus), 12);
    assert_eq!(cpu.registers().hl, 0xFFFD);
}

#[test]
fn high_page_loads() {
    // LD A,0x99; LDH (0x80),A; LD C,0x81; LD (C),A; LDH A,(0x90)
    let (mut cpu, mut bus) = machine(&[0x3E, 0x99, 0xE0, 0x80, 0x0E, 0x81, 0xE2, 0xF0, 0x90]);
    assert_eq!(run(&mut cpu, &mut bus, 5), vec![8, 12, 8, 8, 12]);
    assert_eq!(bus.read(0xFF80), 0x99);
    assert_eq!(bus.read(0xFF81), 0x99);
    assert_eq!(cpu.registers().a, 0x00);
}

#[test]
fn interrupt_master_enable() {
    // EI; DI
    let (mut cpu, mut bus) = machine(&[0xFB, 0xF3]);
    run(&mut cpu, &mut bus, 1);
    assert_eq!(cpu.registers().ime, 1);
    run(&mut cpu, &mut bus, 1);
    assert_eq!(cpu.registers().ime, 0);
}

#[test]
fn stop_takes_no_cycles_and_skips_a_byte() {
    let (mut cpu, mut bus) = machine(&[0x10, 0x00, 0x00]);
    assert_eq!(cpu.step(&mut bus), 0);
    assert_eq!(cpu.registers().pc, 0x102);
}

#[test]
fn missing_opcodes_have_no_step() {
    for op in [0xD3u8, 0xDB, 0xDD, 0xE3, 0xE4, 0xEB, 0xEC, 0xED, 0xF4, 0xFC, 0xFD, 0x76] {
        let (mut cpu, mut bus) = machine(&[op]);
        assert_eq!(cpu.try_step(&mut bus), None, "opcode {:x}", op);
    }
}

#[test]
fn jump_into_switchable_bank() {
    let (mut cpu, mut bus) = machine(&[0xC3, 0x00, 0x40]);
    assert_eq!(cpu.try_step(&mut bus), Some(16));
    assert_eq!(cpu.registers().pc, 0x4000);
    assert_eq!(cpu.try_step(&mut bus), Some(4));
    assert_eq!(cpu.registers().pc, 0x4001);
}

#[test]
fn reading_past_the_rom_has_no_step() {
    let (mut cpu, mut bus) = machine(&[0xC3, 0x00, 0x03]);
    bus.cartridge.rom.truncate(0x200);
    assert_eq!(cpu.try_step(&mut bus), Some(16));
    assert_eq!(cpu.try_step(&mut bus), None);
}

#[test]
fn try_step_matches_step() {
    let (mut cpu, mut bus) = machine(&[0x3E, 0x42]);
    assert_eq!(cpu.try_step(&mut bus), Some(8));
    assert_eq!(cpu.registers().a, 0x42);
}

#[test]
fn swap_twice_restores_register() {
    // LD D,0x3C; SWAP D; SWAP D
    let (mut cpu, mut bus) = machine(&[0x16, 0x3C, 0xCB, 0x32, 0xCB, 0x32]);
    run(&mut cpu, &mut bus, 2);
    assert_eq!(cpu.registers().de >> 8, 0xC3);
    run(&mut cpu, &mut bus, 1);
    assert_eq!(cpu.registers().de >> 8, 0x3C);
}

#[test]
fn rrc_after_rlc_restores_register() {
    // LD E,0x96; RLC E; RRC E
    let (mut cpu, mut bus) = machine(&[0x1E, 0x96, 0xCB, 0x03, 0xCB, 0x0B]);
    run(&mut cpu, &mut bus, 2);
    assert_eq!(cpu.registers().de & 0xFF, 0x2D);
    assert!(cpu.registers().cf);
    run(&mut cpu, &mut bus, 1);
    assert_eq!(cpu.registers().de & 0xFF, 0x96);
}

#[test]
fn cpl_twice_restores_a() {
    // LD A,0x5C; CPL; CPL
    let (mut cpu, mut bus) = machine(&[0x3E, 0x5C, 0x2F, 0x2F]);
    run(&mut cpu, &mut bus, 3);
    assert_eq!(cpu.registers().a, 0x5C);
}

#[test]
fn rr_after_rl_restores_register_and_carry() {
    // SCF; LD B,0x5A; RL B; RR B
    let (mut cpu, mut bus) = machine(&[0x37, 0x06, 0x5A, 0xCB, 0x10, 0xCB, 0x18]);
    run(&mut cpu, &mut bus, 3);
    assert_eq!(cpu.registers().bc >> 8, 0xB5);
    assert!(!cpu.registers().cf);
    run(&mut cpu, &mut bus, 1);
    assert_eq!(cpu.registers().bc >> 8, 0x5A);
    assert!(cpu.registers().cf);
}

#[test]
fn push_af_pop_af_restores_af() {
    // LD A,0x80; ADD A,0x80 (Z, C); PUSH AF; XOR A; POP AF
    let (mut cpu, mut bus) = machine(&[0x3E, 0x80, 0xC6, 0x80, 0xF5, 0xAF, 0xF1]);
    run(&mut cpu, &mut bus, 2);
    let before = cpu.registers();
    run(&mut cpu, &mut bus, 3);
    let after = cpu.registers();
    assert_eq!((after.a, after.zf, after.nf, after.hf, after.cf), (before.a, before.zf, before.nf, before.hf, before.cf));
    assert_eq!(after.sp, before.sp);
    assert_eq!(after.f_low, 0);
}

#[test]
fn push_one_pair_pop_another() {
    // LD DE,0xBEEF; PUSH DE; POP HL
    let (mut cpu, mut bus) = machine(&[0x11, 0xEF, 0xBE, 0xD5, 0xE1]);
    run(&mut cpu, &mut bus, 3);
    assert_eq!(cpu.registers().hl, 0xBEEF);
    assert_eq!(cpu.registers().de, 0xBEEF);
    assert_eq!(cpu.registers().sp, 0xFFFE);
}

#[test]
fn cycle_counter_sums_step_results() {
    let (mut cpu, mut bus) = machine(&[0x3E, 0x12, 0xCD, 0x10, 0x01, 0x00, 0x00]);
    let mut total = 0u32;
    for _ in 0..3 {
        let t = cpu.step(&mut bus);
        assert!(t <= 24);
        total += t;
    }
    assert_eq!(cpu.registers().t_states, total);
}
