use mdgbe::bus::Bus;
use mdgbe::cartridge::Cartridge_MBC1;

fn bus() -> Bus {
    let mut cart = Cartridge_MBC1::new();
    let mut h = [0u8; 80];
    h[0x47] = 1;
    cart.load_header(h);
    Bus::new(cart)
}

#[test]
fn new_bus_is_zeroed() {
    let b = bus();
    assert!(b.vram.iter().all(|&x| x == 0));
    assert!(b.io_regs.iter().all(|&x| x == 0));
    assert_eq!(b.ie_register, 0);
    assert!(!b.a && !b.start && !b.up);
}

#[test]
fn memory_regions_round_trip() {
    let mut b = bus();
    for (addr, v) in [(0x8000u16, 1u8), (0x9FFF, 2), (0xC000, 3), (0xCFFF, 4), (0xD000, 5), (0xDFFF, 6), (0xFE00, 7), (0xFE9F, 8), (0xFF80, 9), (0xFFFE, 10), (0xFFFF, 11)] {
        b.write(addr, v);
        assert_eq!(b.read(addr), v, "address {:x}", addr);
    }
    assert_eq!(b.vram[0x1FFF], 2);
    assert_eq!(b.wram2[0xFFF], 6);
    assert_eq!(b.oam[0x9F], 8);
    assert_eq!(b.hram[0x7E], 10);
    assert_eq!(b.ie_register, 11);
}

#[test]
fn unmapped_addresses_read_zero() {
    let mut b = bus();
    b.write(0xE000, 0x55);
    assert_eq!(b.read(0xE000), 0);
    b.write(0xFEA0, 0x55);
    assert_eq!(b.read(0xFEA0), 0);
}

#[test]
fn interrupt_flag_reads_high_bits_set() {
    let mut b = bus();
    b.write(0xFF0F, 0x01);
    assert_eq!(b.io_regs[0x0F], 0x01);
    assert_eq!(b.read(0xFF0F), 0xE1);
}

#[test]
fn io_registers_round_trip() {
    let mut b = bus();
    b.write(0xFF42, 0x33);
    assert_eq!(b.read(0xFF42), 0x33);
    assert_eq!(b.io_regs[0x42], 0x33);
}

#[test]
fn joypad_write_keeps_only_selection_bits() {
    let mut b = bus();
    b.io_regs[0] = 0xCF;
    b.write(0xFF00, 0xFF);
    assert_eq!(b.io_regs[0], 0xFF);
    b.write(0xFF00, 0x10);
    assert_eq!(b.io_regs[0], 0xDF);
    b.write(0xFF00, 0x00);
    assert_eq!(b.io_regs[0], 0xCF);
}

#[test]
fn joypad_reads_held_buttons_low() {
    let mut b = bus();
    b.io_regs[0] = 0xCF;
    // Bit 4 set: A, B, Select, Start on lines 0-3.
    b.write(0xFF00, 0x10);
    assert_eq!(b.read(0xFF00), 0xDF);
    b.a = true;
    assert_eq!(b.read(0xFF00), 0xDE);
    b.start = true;
    assert_eq!(b.read(0xFF00), 0xD6);
    // Bit 5 set: Right, Left, Up, Down.
    b.write(0xFF00, 0x20);
    assert_eq!(b.read(0xFF00), 0xEF);
    b.left = true;
    assert_eq!(b.read(0xFF00), 0xED);
    // Nothing selected: all lines high.
    b.write(0xFF00, 0x00);
    assert_eq!(b.read(0xFF00), 0xCF);
}

#[test]
fn joypad_both_groups_combine() {
    let mut b = bus();
    b.write(0xFF00, 0x30);
    b.right = true;
    // Line 0 is low for A or Right.
    assert_eq!(b.read(0xFF00) & 0x0F, 0x0E);
}

#[test]
fn dma_copies_page_to_oam() {
    let mut b = bus();
    for i in 0..160u16 {
        b.write(0xC100 + i, (i as u8).wrapping_mul(3));
    }
    b.write(0xFF46, 0xC1);
    for i in 0..160usize {
        assert_eq!(b.oam[i], (i as u8).wrapping_mul(3));
    }
    assert_eq!(b.io_regs[0x46], 0xC1);
}

#[test]
fn dma_from_rom() {
    let mut b = bus();
    b.cartridge.rom[0x0200] = 0x42;
    b.cartridge.rom[0x0200 + 159] = 0x24;
    b.write(0xFF46, 0x02);
    assert_eq!(b.oam[0], 0x42);
    assert_eq!(b.oam[159], 0x24);
}

#[test]
fn cartridge_range_goes_to_cartridge() {
    let mut b = bus();
    b.cartridge.rom[0x7FFF] = 0x9A;
    assert_eq!(b.read(0x7FFF), 0x9A);
    b.cartridge.ram = vec![0; 8192];
    b.write(0x0000, 0x0A);
    b.write(0xA000, 0x66);
    assert_eq!(b.cartridge.ram[0], 0x66);
}

#[test]
fn load_cartridge_consumes_bus() {
    let b = bus();
    b.load_cartridge(Cartridge_MBC1::new());
}
