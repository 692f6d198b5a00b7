use vstd::prelude::*;
use crate::bus::{Bus, BusView};
use crate::sm83::{signed, wrap8};

verus! {

pub type Pixel = (u8, u8, u8);

/// An object found on the current line: (Y, X, tile, flags) as in OAM.
pub type Obj = (u8, u8, u8, u8);

pub const PALETTE: [(u8, u8, u8); 4] = [(255, 255, 255), (170, 170, 170), (85, 85, 85), (0, 0, 0)];

/// The colour of a shade: white, light grey, dark grey, black.
pub open spec fn shade_colour(shade: u8) -> Pixel {
    if shade == 0 {
        (255, 255, 255)
    } else if shade == 1 {
        (170, 170, 170)
    } else if shade == 2 {
        (85, 85, 85)
    } else {
        (0, 0, 0)
    }
}

/// The state of the picture unit: the dot within the line and the objects
/// that the OAM scan found for it.
pub struct PpuView {
    pub dots: u16,
    pub objs: Seq<Obj>,
}

/// The frame as rows of pixels.
pub open spec fn frame_view(f: [[Pixel; 160]; 144]) -> Seq<Seq<Pixel>> {
    f@.map_values(|row: [Pixel; 160]| row@)
}

/// Object height from LCDC bit 2.
pub open spec fn obj_height(lcdc: u8) -> u8 {
    if (lcdc >> 2u8) & 1 == 0 {
        8
    } else {
        16
    }
}

/// The shade number that a palette register gives colour index `colour`.
pub open spec fn shade_of(palette: u8, colour: u8) -> u8 {
    (palette >> ((colour * 2) as u8)) & 0b11
}

/// The colour index of bit `bit` of a tile row: the high plane's bit, then
/// the low plane's bit.
pub open spec fn colour_index(low: u8, high: u8, bit: u8) -> u8 {
    (((high >> bit) & 1) << 1u8) | ((low >> bit) & 1)
}

/// Whether object `o` covers screen pixel (`sx`, `ly`).
pub open spec fn covers(o: Obj, ly: u8, sx: u8, size: u8) -> bool {
    o.0 <= ly + 16 && ly + 16 < o.0 + size && o.1 <= sx + 8 && sx + 8 < o.1 + 8
}

/// The colour index of object `o` at screen pixel (`sx`, `ly`): bit 5 of the
/// flags mirrors X, bit 6 mirrors Y; tall objects use an even tile.
pub open spec fn obj_colour(b: BusView, o: Obj, ly: u8, sx: u8, size: u8) -> u8 {
    let tile = if size == 16 {
        o.2 & 0xFE
    } else {
        o.2
    };
    let x0 = sx + 8 - o.1;
    let y0 = ly + 16 - o.0;
    let x = if (o.3 >> 5u8) & 1 == 1 {
        7 - x0
    } else {
        x0
    };
    let y = if (o.3 >> 6u8) & 1 == 1 {
        size - 1 - y0
    } else {
        y0
    };
    let row = 0x8000 + tile * 16 + (y % (size as int)) * 2;
    colour_index(b.peek(row as u16), b.peek((row + 1) as u16), (7 - x % 8) as u8)
}

/// The first object, from index `i` on, that covers the pixel with a
/// colour index other than 0, with that index.
#[verifier::opaque]
pub open spec fn first_opaque(objs: Seq<Obj>, i: int, b: BusView, ly: u8, sx: u8, size: u8) -> Option<
    (Obj, u8),
>
    decreases objs.len() - i,
{
    if i < 0 || i >= objs.len() {
        None
    } else if covers(objs[i], ly, sx, size) && obj_colour(b, objs[i], ly, sx, size) > 0 {
        Some((objs[i], obj_colour(b, objs[i], ly, sx, size)))
    } else {
        first_opaque(objs, i + 1, b, ly, sx, size)
    }
}

/// The address of row `y % 8` of tile `tile_id`: LCDC bit 4 selects the
/// unsigned area at 0x8000 or the signed area around 0x9000.
pub open spec fn tile_row_addr(lcdc: u8, tile_id: u8, y: u8) -> int {
    let base = if (lcdc >> 4u8) & 1 == 1 {
        0x8000 + tile_id * 16
    } else {
        0x9000 + signed(tile_id) * 16
    };
    base + (y % 8) * 2
}

/// The colour index at map pixel (`x`, `y`) of the tile map at 0x9800 or
/// (`high_map`) 0x9C00.
#[verifier::opaque]
pub open spec fn map_colour(b: BusView, lcdc: u8, high_map: bool, x: u8, y: u8) -> u8 {
    let map: int = if high_map {
        0x9C00
    } else {
        0x9800
    };
    let tile_id = b.peek((map + (y / 8) * 32 + x / 8) as u16);
    let row = tile_row_addr(lcdc, tile_id, y);
    colour_index(b.peek(row as u16), b.peek((row + 1) as u16), (7 - x % 8) as u8)
}

/// The colour of screen pixel (`sx`, `ly`): an opaque object when objects
/// are on (LCDC bit 1), else the window when it is on (bit 5) and the pixel
/// lies right of WX - 7 and below WY, else the background. The window map
/// is read at (WX + x, WY + LY) and the background map at (SCX + x,
/// SCY + LY), both modulo 256.
pub open spec fn pixel(objs: Seq<Obj>, b: BusView, ly: u8, sx: u8) -> Pixel {
    let lcdc = b.io[0x40];
    let size = obj_height(lcdc);
    let wy = b.io[0x4A];
    let wx = b.io[0x4B];
    match first_opaque(objs, 0, b, ly, sx, size) {
        Some((o, colour)) if (lcdc >> 1u8) & 1 == 1 => {
            let palette = if (o.3 >> 4u8) & 1 == 0 {
                b.io[0x48]
            } else {
                b.io[0x49]
            };
            shade_colour(shade_of(palette, colour))
        },
        _ => if ly >= wy && sx + 7 >= wx && (lcdc >> 5u8) & 1 == 1 {
            shade_colour(
                shade_of(
                    b.io[0x47],
                    map_colour(b, lcdc, (lcdc >> 6u8) & 1 == 1, wrap8(wx + sx), wrap8(wy + ly)),
                ),
            )
        } else {
            shade_colour(
                shade_of(
                    b.io[0x47],
                    map_colour(
                        b,
                        lcdc,
                        (lcdc >> 3u8) & 1 == 1,
                        wrap8(b.io[0x43] + sx),
                        wrap8(b.io[0x42] + ly),
                    ),
                ),
            )
        },
    }
}

/// The OAM scan at an even dot of mode 2: OAM entry dots / 2 joins the
/// line's objects when there are fewer than ten and it covers line `ly`.
pub open spec fn oam_scan(p: PpuView, b: BusView, ly: u8) -> PpuView {
    if p.dots % 2 == 0 && p.objs.len() < 10 {
        let i = p.dots * 2;
        let y = b.oam[i];
        if y <= ly + 16 && ly + 16 < y + obj_height(b.io[0x40]) {
            PpuView { objs: p.objs.push((y, b.oam[i + 1], b.oam[i + 2], b.oam[i + 3])), ..p }
        } else {
            p
        }
    } else {
        p
    }
}

/// The end of a line (456 dots): the dot counter and the object list are
/// cleared and LY moves on, from 153 back to 0; reaching line 144 raises
/// the VBlank bit of IF.
pub open spec fn end_of_line(p: PpuView, b: BusView) -> (PpuView, BusView) {
    let ly = b.io[0x44];
    let p1 = PpuView { dots: 0, objs: Seq::empty() };
    if ly < 153 {
        let next = (ly + 1) as u8;
        let b1 = if next == 144 {
            BusView { io: b.io.update(0x0F, (b.io[0x0F] | 0xE0) | 1), ..b }
        } else {
            b
        };
        (p1, BusView { io: b1.io.update(0x44, next), ..b1 })
    } else {
        (p1, BusView { io: b.io.update(0x44, 0), ..b })
    }
}

/// One dot of the picture unit: the end of the line when 456 dots have
/// passed; then, on a visible line, the OAM scan during dots 0..=79 or one
/// pixel during dots 92..=251; then the dot counter moves on.
pub open spec fn tick(p: PpuView, frame: Seq<Seq<Pixel>>, b: BusView) -> (
    PpuView,
    Seq<Seq<Pixel>>,
    BusView,
) {
    let (p1, b1) = if p.dots >= 456 {
        end_of_line(p, b)
    } else {
        (p, b)
    };
    let ly = b1.io[0x44];
    let (p2, frame2) = if ly <= 143 {
        if p1.dots <= 79 {
            (oam_scan(p1, b1, ly), frame)
        } else if 92 <= p1.dots <= 251 {
            let sx = (p1.dots - 92) as u8;
            (p1, frame.update(ly as int, frame[ly as int].update(sx as int, pixel(p1.objs, b1, ly, sx))))
        } else {
            (p1, frame)
        }
    } else {
        (p1, frame)
    };
    (PpuView { dots: (p2.dots + 1) as u16, ..p2 }, frame2, b1)
}

pub struct Ppu {
    dots: u16,
    objs: Vec<(u8, u8, u8, u8)>,
}

impl View for Ppu {
    type V = PpuView;

    closed spec fn view(&self) -> PpuView {
        PpuView { dots: self.dots, objs: self.objs@ }
    }
}

proof fn lemma_tile_base(tile_id: u8)
    by (bit_vector)
    ensures
        tile_id < 128 ==> ((tile_id as i8) as i16) == tile_id as i16,
        tile_id >= 128 ==> ((tile_id as i8) as i16) == (tile_id as i16) - 256,
{
}

proof fn lemma_colour_index(low: u8, high: u8, bit: u8, shifted: u8)
    by (bit_vector)
    ensures
        ((((high >> bit) & 1) << 1u8) | ((low >> bit) & 1)) <= 3,
        (shifted & 0b11) <= 3,
{
}

proof fn lemma_bit_select(v: u8)
    by (bit_vector)
    ensures
        (v >> 1u8) & 1 <= 1,
        (v >> 2u8) & 1 <= 1,
        (v >> 3u8) & 1 <= 1,
        (v >> 4u8) & 1 <= 1,
        (v >> 5u8) & 1 <= 1,
        (v >> 6u8) & 1 <= 1,
{
}

impl Ppu {
    #[verifier::type_invariant]
    spec fn inv(self) -> bool {
        self.dots <= 456 && self.objs.len() <= 10
    }

    pub fn new() -> (p: Self)
        ensures
            p@ == (PpuView { dots: 0, objs: Seq::empty() }),
    {
        Ppu { dots: 0, objs: Vec::new() }
    }

    /// The search of the line's objects for the first one that covers the
    /// pixel with a colour index other than 0.
    fn find_sprite(&self, ly: u8, screen_x: u8, obj_size: u8, bus: &mut Bus) -> (r: (bool, Obj, u8))
        requires
            old(bus)@.wf(),
            ly <= 143,
            screen_x <= 159,
            obj_size == 8 || obj_size == 16,
        ensures
            final(bus)@ == old(bus)@,
            r.2 <= 3,
            r.0 ==> first_opaque(self@.objs, 0, old(bus)@, ly, screen_x, obj_size) == Some((r.1, r.2)),
            !r.0 ==> first_opaque(self@.objs, 0, old(bus)@, ly, screen_x, obj_size) is None,
    {
        proof {
            use_type_invariant(self);
            reveal(first_opaque);
        }
        let mut draw_sprite = false;
        let mut sprite_data: (u8, u8, u8, u8) = (0, 255, 0, 255);
        let mut colour: u8 = 0;
        let ghost b = bus@;
        let mut i: usize = 0;
        while i < self.objs.len()
            invariant_except_break
                !draw_sprite,
                first_opaque(self@.objs, 0, b, ly, screen_x, obj_size) == first_opaque(
                    self@.objs,
                    i as int,
                    b,
                    ly,
                    screen_x,
                    obj_size,
                ),
            invariant
                b.wf(),
                bus@ == b,
                ly <= 143,
                screen_x <= 159,
                obj_size == 8 || obj_size == 16,
                i <= self.objs.len(),
                self.objs.len() <= 10,
                colour <= 3,
                first_opaque(self@.objs, self@.objs.len() as int, b, ly, screen_x, obj_size) is None,
            ensures
                draw_sprite ==> first_opaque(self@.objs, 0, b, ly, screen_x, obj_size) == Some(
                    (sprite_data, colour),
                ),
                !draw_sprite ==> first_opaque(self@.objs, 0, b, ly, screen_x, obj_size) is None,
            decreases self.objs.len() - i,
        {
            proof {
                reveal(first_opaque);
            }
            let obj = self.objs[i];
            let oam_y = obj.0;
            let oam_x = obj.1;
            if oam_y <= ly + 16 && ly + 16 < oam_y + obj_size && oam_x <= screen_x + 8 && screen_x
                + 8 < oam_x + 8 {
                sprite_data = obj;
                let mut tile = sprite_data.2;
                if obj_size == 16 {
                    tile = tile & 0xFE;
                }
                let tile_addr = 0x8000 + u16::from(tile) * 16;
                let mut pix_x = screen_x + 8 - sprite_data.1;
                let mut pix_y = ly + 16 - sprite_data.0;
                // x flip
                if (sprite_data.3 >> 5u8) & 1 == 1 {
                    pix_x = 7 - pix_x;
                }
                if (sprite_data.3 >> 6u8) & 1 == 1 {
                    pix_y = obj_size - 1 - pix_y;
                }
                let row = tile_addr + (u16::from(pix_y) % u16::from(obj_size)) * 2;
                let low = bus.read(row);
                let high = bus.read(row + 1);
                let bit = 7 - (pix_x % 8);
                proof {
                    lemma_colour_index(low, high, bit, 0);
                }
                colour = (((high >> bit) & 1) << 1u8) | ((low >> bit) & 1);
                if colour > 0 {
                    draw_sprite = true;
                    break;
                }
            }
            i = i + 1;
        }
        (draw_sprite, sprite_data, colour)
    }

    /// The colour index at pixel (`pix_x`, `pix_y`) of the tile map that
    /// `tile_map` selects (0: 0x9800, 1: 0x9C00).
    fn map_pixel(lcd_control: u8, tile_map: u8, pix_x: u8, pix_y: u8, bus: &mut Bus) -> (colour: u8)
        requires
            old(bus)@.wf(),
            tile_map <= 1,
        ensures
            final(bus)@ == old(bus)@,
            colour <= 3,
            colour == map_colour(old(bus)@, lcd_control, tile_map == 1, pix_x, pix_y),
    {
        proof {
            reveal(map_colour);
            lemma_bit_select(lcd_control);
        }
        let bg_tile_map_addr = match tile_map {
            0 => 0x9800u16,
            _ => 0x9C00u16,
        };
        let bg_window_addr_offset = (lcd_control >> 4u8) & 1;
        let tile_id = bus.read(
            bg_tile_map_addr + (u16::from(pix_y) / 8) * 32 + (u16::from(pix_x) / 8),
        );
        proof {
            lemma_tile_base(tile_id);
        }
        let tile_addr = match bg_window_addr_offset {
            1 => 0x8000u16 + u16::from(tile_id) * 16,
            _ => 0x9000u16.wrapping_add_signed(i16::from(tile_id as i8) * 16),
        };
        let row = tile_addr + (u16::from(pix_y) % 8) * 2;
        let low = bus.read(row);
        let high = bus.read(row + 1);
        let bit = 7 - (pix_x % 8);
        proof {
            lemma_colour_index(low, high, bit, 0);
        }
        (((high >> bit) & 1) << 1u8) | ((low >> bit) & 1)
    }

    /// The colour of the pixel at (`screen_x`, `ly`) on a visible line.
    fn draw_pixel(&self, ly: u8, screen_x: u8, bus: &mut Bus) -> (c: Pixel)
        requires
            old(bus)@.wf(),
            ly <= 143,
            screen_x <= 159,
        ensures
            final(bus)@ == old(bus)@,
            c == pixel(self@.objs, old(bus)@, ly, screen_x),
    {
        let lcd_control = bus.read(0xFF40);
        proof {
            lemma_bit_select(lcd_control);
        }
        // check if a sprite pixel is drawn
        let mut draw_window = false;
        let obj_enable = (lcd_control >> 1u8) & 1;
        let window_enable = (lcd_control >> 5u8) & 1;
        let obj_size: u8 = match (lcd_control >> 2u8) & 1 {
            0 => 8,
            _ => 16,
        };
        let (draw_sprite, sprite_data, colour) = self.find_sprite(ly, screen_x, obj_size, bus);
        let wy = bus.read(0xFF4A);
        let wx = bus.read(0xFF4B);
        if ly >= wy && screen_x + 7 >= wx {
            draw_window = true;
        }
        if draw_sprite == true && obj_enable == 1 {
            let obj_palette_addr: u16 = match (sprite_data.3 >> 4u8) & 1 {
                0 => 0xFF48,
                _ => 0xFF49,
            };
            let obj_palette = bus.read(obj_palette_addr);
            proof {
                lemma_colour_index(0, 0, 0, obj_palette >> (colour * 2));
            }
            let shade = (obj_palette >> (colour * 2)) & 0b11;
            PALETTE[shade as usize]
        } else if draw_window == true && window_enable == 1 {
            let wy = bus.read(0xFF4A);
            let wx = bus.read(0xFF4B);
            let pix_x = wx.wrapping_add(screen_x);
            let pix_y = wy.wrapping_add(ly);
            let colour = Self::map_pixel(lcd_control, (lcd_control >> 6u8) & 1, pix_x, pix_y, bus);
            let window_palette = bus.read(0xFF47);
            proof {
                lemma_colour_index(0, 0, 0, window_palette >> (colour * 2));
            }
            let shade = (window_palette >> (colour * 2)) & 0b11;
            PALETTE[shade as usize]
        } else {
            // draw background pixel
            let scy = bus.read(0xFF42);
            let scx = bus.read(0xFF43);
            let pix_x = scx.wrapping_add(screen_x);
            let pix_y = scy.wrapping_add(ly);
            let colour = Self::map_pixel(lcd_control, (lcd_control >> 3u8) & 1, pix_x, pix_y, bus);
            let bg_palette = bus.read(0xFF47);
            proof {
                lemma_colour_index(0, 0, 0, bg_palette >> (colour * 2));
            }
            let shade = (bg_palette >> (colour * 2)) & 0b11;
            PALETTE[shade as usize]
        }
    }

    /// The end of a line: clears the dot counter and the objects and moves
    /// LY on; returns the new LY.
    fn end_line(&mut self, ly: u8, bus: &mut Bus) -> (next: u8)
        requires
            old(bus)@.wf(),
            old(self)@.dots >= 456,
            ly == old(bus)@.io[0x44],
        ensures
            final(bus)@.wf(),
            (final(self)@, final(bus)@) == end_of_line(old(self)@, old(bus)@),
            next == final(bus)@.io[0x44],
    {
        proof {
            use_type_invariant(&*self);
        }
        let mut ly = ly;
        self.dots = 0;
        self.objs = Vec::new();
        if ly < 153 {
            ly += 1;
            if ly == 144 {
                // VBlank Interrupt
                let mut interrupt_flag = bus.read(0xFF0F);
                interrupt_flag = interrupt_flag | 1;
                bus.write(0xFF0F, interrupt_flag);
            }
            bus.write(0xFF44, ly);
        } else {
            ly = 0;
            bus.write(0xFF44, 0);
        }
        ly
    }

    /// One step of the OAM scan, at an even dot with fewer than ten objects.
    fn scan_oam(&mut self, ly: u8, lcd_control: u8, bus: &mut Bus)
        requires
            old(bus)@.wf(),
            old(self)@.dots <= 79,
            old(self)@.dots % 2 == 0,
            old(self)@.objs.len() < 10,
            ly <= 143,
            lcd_control == old(bus)@.io[0x40],
        ensures
            final(bus)@ == old(bus)@,
            final(self)@ == oam_scan(old(self)@, old(bus)@, ly),
    {
        proof {
            use_type_invariant(&*self);
            lemma_bit_select(lcd_control);
        }
        let oam_addr: u16 = 0xFE00 + self.dots * 2;
        let obj_size: u8 = match (lcd_control >> 2u8) & 1 {
            0 => 8,
            _ => 16,
        };
        let y = bus.read(oam_addr);
        let ly_oam_offset = ly + 16;
        if y <= ly_oam_offset && ly_oam_offset < y + obj_size {
            // hit
            let x = bus.read(oam_addr + 1);
            let tile_index = bus.read(oam_addr + 2);
            let flags = bus.read(oam_addr + 3);
            let mut objs = Vec::new();
            std::mem::swap(&mut objs, &mut self.objs);
            objs.push((y, x, tile_index, flags));
            self.objs = objs;
        }
    }

    pub fn buffer(&mut self, frame: &mut [[(u8, u8, u8); 160]; 144], bus: &mut Bus)
        requires
            old(bus)@.wf(),
        ensures
            final(bus)@.wf(),
            (final(self)@, frame_view(*final(frame)), final(bus)@) == tick(
                old(self)@,
                frame_view(*old(frame)),
                old(bus)@,
            ),
    {
        proof {
            use_type_invariant(&*self);
        }
        let mut ly = bus.read(0xFF44);
        // end of scanline
        if self.dots >= 456 {
            ly = self.end_line(ly, bus);
        }
        // Not VBlank
        let lcd_control = bus.read(0xFF40);
        proof {
            lemma_bit_select(lcd_control);
        }
        if ly <= 143 {
            // Mode 2
            if self.dots <= 79 {
                // 2 dots per oam entry
                if self.dots % 2 == 0 && self.objs.len() < 10 {
                    self.scan_oam(ly, lcd_control, bus);
                }
            }
            // Mode 3
             else if 80 + 12 <= self.dots && self.dots <= 251 {
                let screen_x = (self.dots - 92) as u8;
                let colour = self.draw_pixel(ly, screen_x, bus);
                let ghost before = frame_view(*frame);
                frame[ly as usize][screen_x as usize] = colour;
                proof {
                    assert(frame_view(*frame) =~~= before.update(
                        ly as int,
                        before[ly as int].update(screen_x as int, colour),
                    ));
                }
            }
        }
        self.dots += 1;
    }
}

/// LY stays within the 154 lines 0..=153, and the dot counter within a
/// line of 456 dots.
pub proof fn lemma_tick_bounds(p: PpuView, frame: Seq<Seq<Pixel>>, b: BusView)
    requires
        b.sized(),
        b.io[0x44] <= 153,
        p.dots <= 456,
    ensures
        tick(p, frame, b).2.io[0x44] <= 153,
        tick(p, frame, b).0.dots <= 456,
        tick(p, frame, b).2.sized(),
{
}

/// The end of line 143 moves LY to 144 and raises the VBlank bit of IF.
pub proof fn lemma_vblank_raised(p: PpuView, frame: Seq<Seq<Pixel>>, b: BusView)
    requires
        b.sized(),
        b.io[0x44] == 143,
        p.dots >= 456,
    ensures
        tick(p, frame, b).2.io[0x44] == 144,
        tick(p, frame, b).2.io[0x0F] & 1 == 1,
{
    let x = b.io[0x0F];
    assert(((x | 0xE0) | 1) & 1 == 1) by (bit_vector);
}

/// The address of the low byte of row `y` of the tile that object `o`
/// shows (a tall object uses the even tile of its pair).
pub open spec fn obj_row_addr(o: Obj, size: u8, y: int) -> int {
    let tile = if size == 16 {
        o.2 & 0xFE
    } else {
        o.2
    };
    0x8000 + tile * 16 + y * 2
}

/// An object's pixels come from its tile as stored, mirrored left to right
/// when bit 5 of its flags is set and top to bottom when bit 6 is: at screen
/// column X - 8 + i of a line `y0` rows below its top, the object shows the
/// tile's column i (bit 7 - i of the row), or column 7 - i (bit i) when
/// mirrored; and row y0, or row size - 1 - y0 when mirrored.
pub proof fn lemma_obj_flips(b: BusView, o: Obj, ly: u8, i: int, size: u8)
    requires
        size == 8 || size == 16,
        0 <= i < 8,
        o.1 >= 8,
        o.0 <= ly + 16 < o.0 + size,
    ensures
        ({
            let sx = (o.1 - 8 + i) as u8;
            let y0 = ly + 16 - o.0;
            let xflip = (o.3 >> 5u8) & 1 == 1;
            let yflip = (o.3 >> 6u8) & 1 == 1;
            let y = if yflip {
                size - 1 - y0
            } else {
                y0
            };
            let row = obj_row_addr(o, size, y);
            let bit = if xflip {
                i
            } else {
                7 - i
            };
            obj_colour(b, o, ly, sx, size) == colour_index(
                b.peek(row as u16),
                b.peek((row + 1) as u16),
                bit as u8,
            )
        }),
{
    let sx = (o.1 - 8 + i) as u8;
    assert(sx == o.1 - 8 + i);
    let x0 = sx + 8 - o.1;
    assert(x0 == i);
    let y0 = ly + 16 - o.0;
    assert(0 <= y0 < size);
    let xflip = (o.3 >> 5u8) & 1 == 1;
    let yflip = (o.3 >> 6u8) & 1 == 1;
    let x = if xflip {
        7 - x0
    } else {
        x0
    };
    assert(x % 8 == x);
    let y = if yflip {
        size - 1 - y0
    } else {
        y0
    };
    assert(0 <= y < size);
    assert(y % (size as int) == y);
}

/// Mirroring an object left to right shows, at each of its columns, what
/// the unmirrored object shows at the opposite column.
pub proof fn lemma_obj_flip_x(b: BusView, o: Obj, ly: u8, i: int, size: u8)
    requires
        size == 8 || size == 16,
        0 <= i < 8,
        o.1 >= 8,
        o.0 <= ly + 16 < o.0 + size,
        (o.3 >> 5u8) & 1 == 1,
    ensures
        obj_colour(b, o, ly, (o.1 - 8 + i) as u8, size) == obj_colour(
            b,
            (o.0, o.1, o.2, o.3 & 0xDF),
            ly,
            (o.1 - 8 + (7 - i)) as u8,
            size,
        ),
{
    let f = o.3;
    assert((f & 0xDF) >> 5u8 & 1 == 0 && ((f & 0xDF) >> 6u8 & 1) == (f >> 6u8 & 1)) by (bit_vector);
    lemma_obj_flips(b, o, ly, i, size);
    lemma_obj_flips(b, (o.0, o.1, o.2, o.3 & 0xDF), ly, 7 - i, size);
}

/// A colour index is two bits: bit `bit` of the high plane byte, then
/// bit `bit` of the low plane byte.
pub proof fn lemma_colour_index_bits(low: u8, high: u8, bit: u8)
    requires
        bit < 8,
    ensures
        colour_index(low, high, bit) == 2 * ((high / (1u8 << bit)) % 2) + (low / (1u8 << bit)) % 2,
        colour_index(low, high, bit) <= 3,
{
    assert((((high >> bit) & 1) << 1u8) | ((low >> bit) & 1) == 2 * ((high / (1u8 << bit)) % 2) + (
    low / (1u8 << bit)) % 2) by (bit_vector)
        requires
            bit < 8,
    ;
}

/// A palette register holds four two-bit shades, colour 0 in bits 1-0 up
/// to colour 3 in bits 7-6; the shades are white, light grey, dark grey
/// and black.
pub proof fn lemma_palette_shades(palette: u8)
    ensures
        shade_of(palette, 0) == palette % 4,
        shade_of(palette, 1) == (palette / 4) % 4,
        shade_of(palette, 2) == (palette / 16) % 4,
        shade_of(palette, 3) == palette / 64,
        shade_colour(0) == PALETTE[0] && shade_colour(1) == PALETTE[1] && shade_colour(2)
            == PALETTE[2] && shade_colour(3) == PALETTE[3],
{
    assert((palette >> 0u8) & 0b11 == palette % 4 && (palette >> 2u8) & 0b11 == (palette / 4) % 4
        && (palette >> 4u8) & 0b11 == (palette / 16) % 4 && (palette >> 6u8) & 0b11 == palette
        / 64) by (bit_vector);
}

/// With objects and the window off (LCDC bits 1 and 5 clear), a pixel
/// shows the background: the tile map (0x9800, or 0x9C00 with LCDC bit 3)
/// entry for map pixel (SCX + x, SCY + LY) modulo 256 names a tile, whose
/// data lies at 0x8000 + 16 * id (LCDC bit 4) or 0x9000 + 16 * id with the
/// id signed; the row's two plane bytes give the colour index, and BGP its
/// shade.
pub proof fn lemma_background_pixel(objs: Seq<Obj>, b: BusView, ly: u8, sx: u8)
    requires
        b.sized(),
        (b.io[0x40] / 2) % 2 == 0,
        (b.io[0x40] / 32) % 2 == 0,
    ensures
        ({
            let lcdc = b.io[0x40];
            let x = (b.io[0x43] + sx) % 256;
            let y = (b.io[0x42] + ly) % 256;
            let map: int = if (lcdc / 8) % 2 == 1 {
                0x9C00
            } else {
                0x9800
            };
            let id = b.peek((map + (y / 8) * 32 + x / 8) as u16);
            let base: int = if (lcdc / 16) % 2 == 1 {
                0x8000 + id * 16
            } else {
                0x9000 + (if id < 128 {
                    id as int
                } else {
                    id - 256
                }) * 16
            };
            let row = base + (y % 8) * 2;
            pixel(objs, b, ly, sx) == shade_colour(
                shade_of(
                    b.io[0x47],
                    colour_index(b.peek(row as u16), b.peek((row + 1) as u16), (7 - x % 8) as u8),
                ),
            )
        }),
{
    reveal(map_colour);
    let lcdc = b.io[0x40];
    assert((lcdc >> 1u8) & 1 == (lcdc / 2) % 2 && (lcdc >> 5u8) & 1 == (lcdc / 32) % 2 && (lcdc
        >> 3u8) & 1 == (lcdc / 8) % 2 && (lcdc >> 4u8) & 1 == (lcdc / 16) % 2) by (bit_vector);
}

} // verus!
