use mdgbe::bus::Bus;
use mdgbe::cartridge::Cartridge_MBC1;
use mdgbe::ppu::{Ppu, PALETTE};

fn bus() -> Bus {
    let mut cart = Cartridge_MBC1::new();
    let mut h = [0u8; 80];
    h[0x47] = 1;
    cart.load_header(h);
    Bus::new(cart)
}

fn dots(ppu: &mut Ppu, frame: &mut [[(u8, u8, u8); 160]; 144], bus: &mut Bus, n: usize) {
    for _ in 0..n {
        ppu.buffer(frame, bus);
    }
}

#[test]
fn palette_shades() {
    assert_eq!(PALETTE, [(255, 255, 255), (170, 170, 170), (85, 85, 85), (0, 0, 0)]);
}

#[test]
fn line_ends_after_456_dots() {
    let mut ppu = Ppu::new();
    let mut b = bus();
    let mut frame = [[(3, 3, 3); 160]; 144];
    dots(&mut ppu, &mut frame, &mut b, 456);
    assert_eq!(b.io_regs[0x44], 0);
    dots(&mut ppu, &mut frame, &mut b, 1);
    assert_eq!(b.io_regs[0x44], 1);
    dots(&mut ppu, &mut frame, &mut b, 456);
    assert_eq!(b.io_regs[0x44], 2);
}

#[test]
fn vblank_raises_interrupt_flag() {
    let mut ppu = Ppu::new();
    let mut b = bus();
    let mut frame = [[(3, 3, 3); 160]; 144];
    b.io_regs[0x44] = 143;
    dots(&mut ppu, &mut frame, &mut b, 456);
    assert_eq!(b.io_regs[0x0F], 0);
    dots(&mut ppu, &mut frame, &mut b, 1);
    assert_eq!(b.io_regs[0x44], 144);
    assert_eq!(b.io_regs[0x0F], 0xE1);
}

#[test]
fn ly_wraps_after_line_153() {
    let mut ppu = Ppu::new();
    let mut b = bus();
    let mut frame = [[(3, 3, 3); 160]; 144];
    b.io_regs[0x44] = 153;
    dots(&mut ppu, &mut frame, &mut b, 457);
    assert_eq!(b.io_regs[0x44], 0);
}

#[test]
fn background_pixels_from_tile_data() {
    let mut ppu = Ppu::new();
    let mut b = bus();
    let mut frame = [[(3, 3, 3); 160]; 144];
    b.io_regs[0x40] = 0x10;
    b.io_regs[0x47] = 0xE4;
    b.vram[0] = 0xFF;
    b.vram[1] = 0xFF;
    dots(&mut ppu, &mut frame, &mut b, 92);
    assert_eq!(frame[0][0], (3, 3, 3));
    dots(&mut ppu, &mut frame, &mut b, 1);
    assert_eq!(frame[0][0], (0, 0, 0));
    assert_eq!(frame[0][1], (3, 3, 3));
    dots(&mut ppu, &mut frame, &mut b, 159);
    assert_eq!(frame[0][159], (0, 0, 0));
    // Line 1 uses row 1 of the tile, which is clear: colour 0, shade 0.
    dots(&mut ppu, &mut frame, &mut b, 456);
    assert_eq!(frame[1][0], (255, 255, 255));
}

#[test]
fn background_colour_index_from_both_planes() {
    let mut ppu = Ppu::new();
    let mut b = bus();
    let mut frame = [[(3, 3, 3); 160]; 144];
    b.io_regs[0x40] = 0x10;
    b.io_regs[0x47] = 0xE4;
    // Low plane only on the leftmost pixel: colour 1; high plane only on
    // the next: colour 2.
    b.vram[0] = 0x80;
    b.vram[1] = 0x40;
    dots(&mut ppu, &mut frame, &mut b, 94);
    assert_eq!(frame[0][0], (170, 170, 170));
    assert_eq!(frame[0][1], (85, 85, 85));
}

#[test]
fn object_drawn_over_background() {
    let mut ppu = Ppu::new();
    let mut b = bus();
    let mut frame = [[(3, 3, 3); 160]; 144];
    b.io_regs[0x40] = 0x12;
    b.io_regs[0x47] = 0xE4;
    b.io_regs[0x48] = 0xE4;
    b.oam[0] = 16;
    b.oam[1] = 8;
    b.oam[2] = 1;
    b.oam[3] = 0;
    b.vram[16] = 0xFF;
    dots(&mut ppu, &mut frame, &mut b, 93 + 8);
    assert_eq!(frame[0][0], (170, 170, 170));
    assert_eq!(frame[0][7], (170, 170, 170));
    // Right of the object: background colour 0.
    assert_eq!(frame[0][8], (255, 255, 255));
}

#[test]
fn objects_off_shows_background() {
    let mut ppu = Ppu::new();
    let mut b = bus();
    let mut frame = [[(3, 3, 3); 160]; 144];
    b.io_regs[0x40] = 0x10;
    b.io_regs[0x48] = 0xE4;
    b.oam[0] = 16;
    b.oam[1] = 8;
    b.oam[2] = 1;
    b.vram[16] = 0xFF;
    dots(&mut ppu, &mut frame, &mut b, 93);
    assert_eq!(frame[0][0], (255, 255, 255));
}
