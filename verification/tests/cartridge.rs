use mdgbe::cartridge::Cartridge_MBC1;

fn header(rom_size: u8, ram_size: u8) -> [u8; 80] {
    let mut h = [0u8; 80];
    h[0x47] = 1;
    h[0x48] = rom_size;
    h[0x49] = ram_size;
    h
}

#[test]
fn load_header_sizes_rom() {
    let mut cart = Cartridge_MBC1::new();
    assert!(cart.load_header(header(2, 3)));
    assert_eq!(cart.rom.len(), 32768 << 2);
    assert!(cart.rom.iter().all(|&b| b == 0));
    assert!(cart.ram.is_empty());
}

#[test]
fn load_header_unknown_ram_size() {
    let mut cart = Cartridge_MBC1::new();
    cart.ram = vec![7; 4];
    assert!(!cart.load_header(header(0, 9)));
    assert_eq!(cart.rom.len(), 32768);
    assert_eq!(cart.ram, vec![7; 4]);
}

#[test]
fn fixed_bank_reads_rom_start() {
    let mut cart = Cartridge_MBC1::new();
    cart.load_header(header(1, 0));
    cart.rom[0x0123] = 0x5A;
    assert_eq!(cart.read(0x0123), 0x5A);
}

#[test]
fn rom_bank_switching() {
    let mut cart = Cartridge_MBC1::new();
    cart.load_header(header(2, 0));
    cart.rom[3 * 0x4000 + 5] = 0xAB;
    cart.rom[0x4000 + 5] = 0xCD;
    // Bank 1 is selected after reset.
    assert_eq!(cart.read(0x4005), 0xCD);
    cart.write(0x2000, 3);
    assert_eq!(cart.read(0x4005), 0xAB);
    // Bank 0 selects bank 1.
    cart.write(0x2000, 0);
    assert_eq!(cart.read(0x4005), 0xCD);
}

#[test]
fn bank_number_masked_by_rom_size() {
    let mut cart = Cartridge_MBC1::new();
    cart.load_header(header(0, 0));
    cart.rom[0x4000 + 9] = 0x11;
    // Two banks: 3 selects bank 3 % 2 == 1.
    cart.write(0x2000, 3);
    assert_eq!(cart.read(0x4009), 0x11);
}

#[test]
fn ram_needs_enable_for_each_access() {
    let mut cart = Cartridge_MBC1::new();
    cart.load_header(header(0, 2));
    cart.ram = vec![0; 8192];
    // RAM disabled: writes are ignored and reads give 0xFF.
    cart.write(0xA010, 0x77);
    assert_eq!(cart.ram[0x10], 0);
    assert_eq!(cart.read(0xA010), 0xFF);
    cart.write(0x0000, 0x0A);
    cart.write(0xA010, 0x5A);
    assert_eq!(cart.ram[0x10], 0x5A);
    // The write disabled RAM again.
    assert_eq!(cart.read(0xA010), 0xFF);
    cart.write(0x1FFF, 0x0A);
    assert_eq!(cart.read(0xA010), 0x5A);
    assert_eq!(cart.read(0xA010), 0xFF);
}

#[test]
fn ram_enable_uses_low_nibble() {
    let mut cart = Cartridge_MBC1::new();
    cart.load_header(header(0, 2));
    cart.ram = vec![0; 8192];
    cart.ram[3] = 0x42;
    cart.write(0x0000, 0xFA);
    assert_eq!(cart.read(0xA003), 0x42);
}

#[test]
fn mode_one_banks_ram_with_bank2() {
    let mut cart = Cartridge_MBC1::new();
    cart.load_header(header(0, 3));
    cart.ram = vec![0; 32768];
    cart.ram[2 * 0x2000 + 1] = 0x99;
    cart.write(0x6000, 1);
    cart.write(0x4000, 2);
    cart.write(0x0000, 0x0A);
    assert_eq!(cart.read(0xA001), 0x99);
}

#[test]
fn mode_one_banks_low_rom_with_bank2() {
    let mut cart = Cartridge_MBC1::new();
    cart.load_header(header(5, 0));
    cart.rom[0x80000 + 7] = 0x3C;
    cart.write(0x4000, 1);
    // Mode 0: the low area is bank 0.
    assert_eq!(cart.read(0x0007), 0);
    cart.write(0x6000, 1);
    assert_eq!(cart.read(0x0007), 0x3C);
}

#[test]
fn reads_outside_cartridge_give_zero() {
    let mut cart = Cartridge_MBC1::new();
    cart.load_header(header(0, 0));
    assert_eq!(cart.read(0xC000), 0);
    cart.write(0xC000, 0x12);
    assert_eq!(cart.read(0xC000), 0);
}

#[test]
fn load_rom_bytes_copies_prefix() {
    let mut cart = Cartridge_MBC1::new();
    cart.load_header(header(0, 0));
    cart.load_rom_bytes(&[1, 2, 3]);
    assert_eq!(&cart.rom[0..4], &[1, 2, 3, 0]);
    assert_eq!(cart.rom.len(), 32768);
    assert_eq!(cart.read(0x0002), 3);
    let long = vec![9u8; 40000];
    cart.load_rom_bytes(&long);
    assert_eq!(cart.rom.len(), 32768);
    assert!(cart.rom.iter().all(|&b| b == 9));
}
