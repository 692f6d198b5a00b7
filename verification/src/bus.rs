use vstd::prelude::*;
use crate::cartridge::{self, Cartridge_MBC1, CartView, in_cart_range};

verus! {

/// The mathematical state of the memory bus: the cartridge, every internal
/// memory region as a sequence of bytes, the IE register and the buttons.
pub struct BusView {
    pub cart: CartView,
    pub vram: Seq<u8>,
    pub wram1: Seq<u8>,
    pub wram2: Seq<u8>,
    pub oam: Seq<u8>,
    pub hram: Seq<u8>,
    pub io: Seq<u8>,
    pub ie: u8,
    pub up: bool,
    pub down: bool,
    pub left: bool,
    pub right: bool,
    pub a: bool,
    pub b: bool,
    pub start: bool,
    pub select: bool,
}

pub open spec fn bit_value(b: bool) -> u8 {
    if b {
        1
    } else {
        0
    }
}

/// The four low bits of the joypad register: a line reads 0 while one of the
/// buttons on it that the selection bits (4: d-pad, 5: buttons, both set in
/// this register's convention) choose is held.
pub open spec fn joypad_value(
    reg: u8,
    up: bool,
    down: bool,
    left: bool,
    right: bool,
    a: bool,
    b: bool,
    start: bool,
    select: bool,
) -> u8 {
    let d_pad = (reg / 16) % 2 == 1;
    let buttons = (reg / 32) % 2 == 1;
    let (b0, b1, b2, b3) = if d_pad && buttons {
        (!(a || right), !(b || left), !(select || up), !(start || down))
    } else if d_pad {
        (!a, !b, !select, !start)
    } else if buttons {
        (!right, !left, !up, !down)
    } else {
        (true, true, true, true)
    };
    ((reg / 16) * 16 + bit_value(b3) * 8 + bit_value(b2) * 4 + bit_value(b1) * 2 + bit_value(
        b0,
    )) as u8
}

impl BusView {
    pub open spec fn wf(self) -> bool {
        self.cart.wf()
    }

    /// What a read of an address outside the cartridge gives; such a read
    /// changes nothing.
    pub open spec fn peek(self, addr: u16) -> u8 {
        if 0x8000 <= addr <= 0x9FFF {
            self.vram[addr - 0x8000]
        } else if 0xC000 <= addr <= 0xCFFF {
            self.wram1[addr - 0xC000]
        } else if 0xD000 <= addr <= 0xDFFF {
            self.wram2[addr - 0xD000]
        } else if 0xFE00 <= addr <= 0xFE9F {
            self.oam[addr - 0xFE00]
        } else if addr == 0xFF0F {
            self.io[0x0F] | 0xE0
        } else if addr == 0xFF00 {
            joypad_value(
                self.io[0],
                self.up,
                self.down,
                self.left,
                self.right,
                self.a,
                self.b,
                self.start,
                self.select,
            )
        } else if 0xFF00 <= addr <= 0xFF7F {
            self.io[addr - 0xFF00]
        } else if 0xFF80 <= addr <= 0xFFFE {
            self.hram[addr - 0xFF80]
        } else if addr == 0xFFFF {
            self.ie
        } else {
            0
        }
    }

    /// What a read gives: the new state and the byte; `None` where the
    /// cartridge has no byte at the offset that the address selects.
    pub open spec fn read(self, addr: u16) -> Option<(BusView, u8)> {
        if in_cart_range(addr) {
            match self.cart.read(addr) {
                Some((c, v)) => Some((BusView { cart: c, ..self }, v)),
                None => None,
            }
        } else {
            Some((self, self.peek(addr)))
        }
    }

    /// The state after the first `n` bytes of an OAM transfer from `src`.
    pub open spec fn dma(self, src: int, n: nat) -> Option<BusView>
        decreases n,
    {
        if n == 0 {
            Some(self)
        } else {
            match self.dma(src, (n - 1) as nat) {
                Some(s) => match s.read((src + n - 1) as u16) {
                    Some((s2, v)) => Some(BusView { oam: s2.oam.update(n - 1, v), ..s2 }),
                    None => None,
                },
                None => None,
            }
        }
    }

    /// What a write does; `None` where the cartridge has no RAM byte at the
    /// selected offset, an OAM transfer is asked from above 0xDFFF, or a
    /// byte of the transfer cannot be read.
    pub open spec fn write(self, addr: u16, data: u8) -> Option<BusView> {
        if in_cart_range(addr) {
            match self.cart.write(addr, data) {
                Some(c) => Some(BusView { cart: c, ..self }),
                None => None,
            }
        } else if 0x8000 <= addr <= 0x9FFF {
            Some(BusView { vram: self.vram.update(addr - 0x8000, data), ..self })
        } else if 0xC000 <= addr <= 0xCFFF {
            Some(BusView { wram1: self.wram1.update(addr - 0xC000, data), ..self })
        } else if 0xD000 <= addr <= 0xDFFF {
            Some(BusView { wram2: self.wram2.update(addr - 0xD000, data), ..self })
        } else if 0xFE00 <= addr <= 0xFE9F {
            Some(BusView { oam: self.oam.update(addr - 0xFE00, data), ..self })
        } else if addr == 0xFF00 {
            Some(BusView { io: self.io.update(0, (self.io[0] & 0xCF) | (data & 0x30)), ..self })
        } else if addr == 0xFF46 {
            if data > 0xDF {
                None
            } else {
                match self.dma(data * 256, 160) {
                    Some(s) => Some(BusView { io: s.io.update(0x46, data), ..s }),
                    None => None,
                }
            }
        } else if 0xFF00 <= addr <= 0xFF7F {
            Some(BusView { io: self.io.update(addr - 0xFF00, data), ..self })
        } else if 0xFF80 <= addr <= 0xFFFE {
            Some(BusView { hram: self.hram.update(addr - 0xFF80, data), ..self })
        } else if addr == 0xFFFF {
            Some(BusView { ie: data, ..self })
        } else {
            Some(self)
        }
    }
}

pub struct Bus {
    pub cartridge: Cartridge_MBC1,
    pub vram: [u8; 8192],
    pub wram1: [u8; 4096],
    pub wram2: [u8; 4096],
    pub oam: [u8; 160],
    pub hram: [u8; 127],
    pub io_regs: [u8; 128],
    pub ie_register: u8,
    pub up: bool,
    pub down: bool,
    pub left: bool,
    pub right: bool,
    pub a: bool,
    pub b: bool,
    pub start: bool,
    pub select: bool,
}

impl View for Bus {
    type V = BusView;

    open spec fn view(&self) -> BusView {
        BusView {
            cart: self.cartridge@,
            vram: self.vram@,
            wram1: self.wram1@,
            wram2: self.wram2@,
            oam: self.oam@,
            hram: self.hram@,
            io: self.io_regs@,
            ie: self.ie_register,
            up: self.up,
            down: self.down,
            left: self.left,
            right: self.right,
            a: self.a,
            b: self.b,
            start: self.start,
            select: self.select,
        }
    }
}

proof fn lemma_joypad_bits(joypad: u8, b0: u8, b1: u8, b2: u8, b3: u8)
    by (bit_vector)
    requires
        b0 <= 1,
        b1 <= 1,
        b2 <= 1,
        b3 <= 1,
    ensures
        ((joypad >> 4) & 1) == (joypad / 16) % 2,
        ((joypad >> 5) & 1) == (joypad / 32) % 2,
        ((joypad & 0xF0) | ((b3 << 3) | (b2 << 2) | (b1 << 1) | b0)) == (joypad / 16) * 16 + b3 * 8
            + b2 * 4 + b1 * 2 + b0,
{
}

pub open spec fn zero_bytes(n: nat) -> Seq<u8> {
    Seq::new(n, |i: int| 0u8)
}

impl Bus {
    pub fn new(cartridge: Cartridge_MBC1) -> (bus: Self)
        ensures
            bus@ == (BusView {
                cart: cartridge@,
                vram: zero_bytes(8192),
                wram1: zero_bytes(4096),
                wram2: zero_bytes(4096),
                oam: zero_bytes(160),
                hram: zero_bytes(127),
                io: zero_bytes(128),
                ie: 0,
                up: false,
                down: false,
                left: false,
                right: false,
                a: false,
                b: false,
                start: false,
                select: false,
            }),
    {
        let bus = Bus {
            cartridge: cartridge,
            vram: [0; 8192],
            wram1: [0; 4096],
            wram2: [0; 4096],
            oam: [0; 160],
            hram: [0; 127],
            io_regs: [0; 128],
            ie_register: 0,
            up: false,
            down: false,
            left: false,
            right: false,
            a: false,
            b: false,
            start: false,
            select: false,
        };
        assert(bus.vram@ =~= zero_bytes(8192));
        assert(bus.wram1@ =~= zero_bytes(4096));
        assert(bus.wram2@ =~= zero_bytes(4096));
        assert(bus.oam@ =~= zero_bytes(160));
        assert(bus.hram@ =~= zero_bytes(127));
        assert(bus.io_regs@ =~= zero_bytes(128));
        bus
    }

    /// Puts the cartridge into this bus, which the call consumes.
    pub fn load_cartridge(self, cartridge: Cartridge_MBC1) {
        let mut bus = self;
        bus.cartridge = cartridge;
    }

    fn joypad(&self) -> (r: u8)
        ensures
            r == joypad_value(
                self.io_regs@[0],
                self.up,
                self.down,
                self.left,
                self.right,
                self.a,
                self.b,
                self.start,
                self.select,
            ),
    {
        let joypad = self.io_regs[0];
        let d_pad = (joypad >> 4) & 1;
        let buttons = (joypad >> 5) & 1;
        let mut bit0 = true;
        let mut bit1 = true;
        let mut bit2 = true;
        let mut bit3 = true;
        if d_pad == 1 && buttons == 1 {
            bit0 = !(self.a || self.right);
            bit1 = !(self.b || self.left);
            bit2 = !(self.select || self.up);
            bit3 = !(self.start || self.down);
        } else if d_pad == 1 && buttons == 0 {
            bit0 = !(self.a);
            bit1 = !(self.b);
            bit2 = !(self.select);
            bit3 = !(self.start);
        } else if d_pad == 0 && buttons == 1 {
            bit0 = !(self.right);
            bit1 = !(self.left);
            bit2 = !(self.up);
            bit3 = !(self.down);
        }
        let high = joypad & 0xF0;
        let x0: u8 = if bit0 { 1 } else { 0 };
        let x1: u8 = if bit1 { 1 } else { 0 };
        let x2: u8 = if bit2 { 1 } else { 0 };
        let x3: u8 = if bit3 { 1 } else { 0 };
        proof {
            lemma_joypad_bits(joypad, x0, x1, x2, x3);
        }
        let low = (x3 << 3) | (x2 << 2) | (x1 << 1) | x0;
        high | low
    }

    /// A read that reports, with `None`, a cartridge offset outside its ROM
    /// or RAM.
    pub(crate) fn try_read(&mut self, addr: u16) -> (r: Option<u8>)
        requires
            old(self)@.wf(),
        ensures
            final(self)@.wf(),
            match old(self)@.read(addr) {
                Some((s, v)) => r == Some(v) && final(self)@ == s,
                None => r is None,
            },
    {
        if 0x0000 <= addr && addr <= 0x7FFF || 0xA000 <= addr && addr <= 0xBFFF {
            return self.cartridge.try_read(addr);
        }
        if 0x8000 <= addr && addr <= 0x9FFF {
            return Some(self.vram[(addr - 0x8000) as usize]);
        }
        if 0xC000 <= addr && addr <= 0xCFFF {
            return Some(self.wram1[(addr - 0xC000) as usize]);
        }
        if 0xD000 <= addr && addr <= 0xDFFF {
            return Some(self.wram2[(addr - 0xD000) as usize]);
        }
        if 0xFE00 <= addr && addr <= 0xFE9F {
            return Some(self.oam[(addr - 0xFE00) as usize]);
        }
        if 0xFF00 <= addr && addr <= 0xFF7F {
            // interrupt flag
            if addr == 0xFF0F {
                let interrupt_flag = self.io_regs[(addr - 0xFF00) as usize];
                return Some(interrupt_flag | 0b11100000);
            }
            // joypad input
            if addr == 0xFF00 {
                return Some(self.joypad());
            }
            return Some(self.io_regs[(addr - 0xFF00) as usize]);
        }
        if 0xFF80 <= addr && addr <= 0xFFFE {
            return Some(self.hram[(addr - 0xFF80) as usize]);
        }
        if addr == 0xFFFF {
            return Some(self.ie_register);
        }
        return Some(0);
    }

    pub fn read(&mut self, addr: u16) -> (r: u8)
        requires
            old(self)@.wf(),
            old(self)@.read(addr) is Some,
        ensures
            final(self)@.wf(),
            Some((final(self)@, r)) == old(self)@.read(addr),
    {
        self.try_read(addr).unwrap()
    }

    /// The OAM transfer: copies 160 bytes from `src` into OAM, one read and
    /// one store at a time.
    fn oam_transfer(&mut self, src: u16) -> (ok: bool)
        requires
            old(self)@.wf(),
            src <= 0xDF00,
        ensures
            final(self)@.wf(),
            match old(self)@.dma(src as int, 160) {
                Some(s) => ok && final(self)@ == s,
                None => !ok,
            },
    {
        let ghost start = self@;
        let mut i: u16 = 0;
        while i < 0xA0
            invariant
                0 <= i <= 0xA0,
                src <= 0xDF00,
                self@.wf(),
                start == old(self)@,
                start.dma(src as int, i as nat) == Some(self@),
            decreases 0xA0 - i,
        {
            let ghost before = self@;
            let v = match self.try_read(src + i) {
                Some(v) => v,
                None => {
                    proof {
                        assert(before.read((src + i) as u16) is None);
                        assert(start.dma(src as int, (i + 1) as nat) is None);
                        lemma_dma_stops(start, src as int, (i + 1) as nat, 160);
                    }
                    return false;
                },
            };
            self.oam[i as usize] = v;
            assert(start.dma(src as int, (i + 1) as nat) == Some(self@));
            i = i + 1;
        }
        true
    }

    /// A write that reports, with `false`, the inputs on which `write`
    /// has no defined outcome.
    #[verifier::rlimit(60)]
    pub(crate) fn try_write(&mut self, addr: u16, data: u8) -> (ok: bool)
        requires
            old(self)@.wf(),
        ensures
            final(self)@.wf(),
            match old(self)@.write(addr, data) {
                Some(s) => ok && final(self)@ == s,
                None => !ok,
            },
    {
        if 0x0000 <= addr && addr <= 0x7FFF || 0xA000 <= addr && addr <= 0xBFFF {
            return self.cartridge.try_write(addr, data);
        }
        if 0x8000 <= addr && addr <= 0x9FFF {
            self.vram[(addr - 0x8000) as usize] = data;
            return true;
        }
        if 0xC000 <= addr && addr <= 0xCFFF {
            self.wram1[(addr - 0xC000) as usize] = data;
            return true;
        }
        if 0xD000 <= addr && addr <= 0xDFFF {
            self.wram2[(addr - 0xD000) as usize] = data;
            return true;
        }
        if 0xFE00 <= addr && addr <= 0xFE9F {
            self.oam[(addr - 0xFE00) as usize] = data;
            return true;
        }
        if 0xFF00 <= addr && addr <= 0xFF7F {
            // joypad input
            if addr == 0xFF00 {
                let joypad = self.io_regs[(addr - 0xFF00) as usize];
                self.io_regs[(addr - 0xFF00) as usize] = (joypad & 0xCF) | (data & 0x30);
                return true;
            }
            // OAM transfer
            if addr == 0xFF46 {
                if data > 0xDF {
                    return false;
                }
                let oam_transfer_addr = (data as u16) * 256;
                if !self.oam_transfer(oam_transfer_addr) {
                    return false;
                }
            }
            self.io_regs[(addr - 0xFF00) as usize] = data;
            return true;
        }
        if 0xFF80 <= addr && addr <= 0xFFFE {
            self.hram[(addr - 0xFF80) as usize] = data;
            return true;
        }
        if addr == 0xFFFF {
            self.ie_register = data;
        }
        true
    }

    pub fn write(&mut self, addr: u16, data: u8)
        requires
            old(self)@.wf(),
            old(self)@.write(addr, data) is Some,
        ensures
            final(self)@.wf(),
            Some(final(self)@) == old(self)@.write(addr, data),
    {
        let ok = self.try_write(addr, data);
    }
}

/// Once a byte of the transfer cannot be read, the transfer as a whole has
/// no outcome.
proof fn lemma_dma_stops(b: BusView, src: int, n: nat, m: nat)
    requires
        n <= m,
        b.dma(src, n) is None,
    ensures
        b.dma(src, m) is None,
    decreases m - n,
{
    if n < m {
        lemma_dma_stops(b, src, n + 1, m);
    }
}

/// The addresses of the internal memories: VRAM, WRAM, OAM, HRAM and IE.
pub open spec fn is_memory(addr: u16) -> bool {
    ||| 0x8000 <= addr <= 0x9FFF
    ||| 0xC000 <= addr <= 0xDFFF
    ||| 0xFE00 <= addr <= 0xFE9F
    ||| 0xFF80 <= addr <= 0xFFFE
    ||| addr == 0xFFFF
}

impl BusView {
    /// Every region has the length of its array in `Bus`.
    pub open spec fn sized(self) -> bool {
        &&& self.vram.len() == 8192
        &&& self.wram1.len() == 4096
        &&& self.wram2.len() == 4096
        &&& self.oam.len() == 160
        &&& self.hram.len() == 127
        &&& self.io.len() == 128
    }
}

/// A read of an internal memory gives back what a write there stored.
pub proof fn lemma_memory_write_read(b: BusView, addr: u16, data: u8)
    requires
        b.sized(),
        is_memory(addr),
    ensures
        b.write(addr, data) matches Some(b2) && b2.read(addr) == Some((b2, data)) && b2.sized(),
{
}

/// A read of an I/O register gives back what a write stored there, but for
/// the joypad register (0xFF00), IF (0xFF0F), whose three high bits read
/// as 1, and the OAM transfer register (0xFF46).
pub proof fn lemma_io_write_read(b: BusView, addr: u16, data: u8)
    requires
        b.sized(),
        0xFF01 <= addr <= 0xFF7F,
        addr != 0xFF46,
    ensures
        b.write(addr, data) matches Some(b2) && b2.read(addr) == Some(
            (b2, if addr == 0xFF0F {
                data | 0xE0
            } else {
                data
            }),
        ),
{
}

/// A write to an internal memory leaves what every other address outside
/// the cartridge reads, and the cartridge itself, unchanged.
pub proof fn lemma_memory_write_other(b: BusView, addr: u16, other: u16, data: u8)
    requires
        b.sized(),
        is_memory(addr),
        other != addr,
        !in_cart_range(other),
    ensures
        b.write(addr, data) matches Some(b2) && b2.peek(other) == b.peek(other) && b2.cart
            == b.cart,
{
}

/// A read changes nothing but the cartridge's RAM enable register, which
/// a read of its RAM clears.
pub proof fn lemma_read_changes_only_ramg(b: BusView, addr: u16)
    ensures
        b.read(addr) matches Some((b2, v)) ==> (b2 == b || b2 == (BusView {
            cart: (CartView { ramg: 0, ..b.cart }),
            ..b
        })),
{
}

/// A read of `addr` has an outcome and changes nothing.
pub open spec fn reads_purely(b: BusView, addr: u16) -> bool {
    b.read(addr) matches Some((b2, v)) && b2 == b
}

/// A read of byte `i` of page `page` has an outcome and changes nothing.
pub open spec fn page_reads_purely(b: BusView, page: u8, i: int) -> bool {
    reads_purely(b, (page * 256 + i) as u16)
}

/// `s` is `b` with the first `n` bytes of OAM copied from `page`.
pub open spec fn dma_done(b: BusView, s: BusView, page: u8, n: nat) -> bool {
    &&& s == (BusView { oam: s.oam, ..b })
    &&& s.oam.len() == 160
    &&& forall|i: int| 0 <= i < n ==> b.read((page * 256 + i) as u16) == Some((b, s.oam[i]))
    &&& forall|i: int| n <= i < 160 ==> s.oam[i] == b.oam[i]
}

/// The first `n` bytes of an OAM transfer from a page whose reads change
/// nothing: OAM holds them and nothing else changes.
proof fn lemma_dma_prefix(b: BusView, page: u8, n: nat)
    requires
        b.sized(),
        page <= 0xDF,
        forall|i: int| 0 <= i < 160 ==> #[trigger] page_reads_purely(b, page, i),
        n <= 160,
    ensures
        b.dma(page * 256, n) matches Some(s) && dma_done(b, s, page, n),
    decreases n,
{
    if n > 0 {
        lemma_dma_prefix(b, page, (n - 1) as nat);
        assert(page_reads_purely(b, page, n - 1));
    }
}

/// A write of a page number to 0xFF46 copies the 160 bytes from the start
/// of that page into OAM and records the page there, where the reads of the
/// page change nothing (any page of ROM that the cartridge holds, of VRAM
/// or WRAM, or of external RAM while it is not enabled).
pub proof fn lemma_dma_copies(b: BusView, page: u8)
    requires
        b.sized(),
        page <= 0xDF,
        forall|i: int| 0 <= i < 160 ==> #[trigger] page_reads_purely(b, page, i),
    ensures
        b.write(0xFF46, page) matches Some(b2) && b2.io[0x46] == page && (forall|i: int|
            0 <= i < 160 ==> b.read((page * 256 + i) as u16) == Some((b, b2.oam[i]))),
{
    lemma_dma_prefix(b, page, 160);
}

} // verus!
