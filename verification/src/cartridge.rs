use vstd::prelude::*;
use vstd::arithmetic::power2::pow2;

verus! {

/// The mathematical state of an MBC1 cartridge: the ROM and RAM contents and
/// the mapper registers.
pub struct CartView {
    pub header: Seq<u8>,
    pub rom: Seq<u8>,
    pub ram: Seq<u8>,
    pub mapper: u8,
    pub rom_size: u8,
    pub ram_size: u8,
    pub ramg: u8,
    pub bank1: u8,
    pub bank2: u8,
    pub mode: u8,
}

/// The value of the RAMG register that enables one SRAM access.
pub open spec fn ram_enabled_code() -> u8 {
    0xA
}

/// Addresses that the cartridge answers: ROM and external RAM.
pub open spec fn in_cart_range(addr: u16) -> bool {
    addr <= 0x7FFF || (0xA000 <= addr && addr <= 0xBFFF)
}

/// 2 to the power (rom_size + 1), for the ROM size codes below 4.
pub open spec fn small_bank_count(rom_size: u8) -> nat {
    if rom_size == 0 {
        2
    } else if rom_size == 1 {
        4
    } else if rom_size == 2 {
        8
    } else {
        16
    }
}

/// A cartridge with nothing loaded: a zero header, no ROM and no RAM, and
/// the mapper registers as after reset.
pub open spec fn empty_cart() -> CartView {
    CartView {
        header: Seq::new(80, |i: int| 0u8),
        rom: Seq::empty(),
        ram: Seq::empty(),
        mapper: 0,
        rom_size: 0,
        ram_size: 0,
        ramg: 0,
        bank1: 1,
        bank2: 0,
        mode: 0,
    }
}

impl CartView {
    /// The mapper registers stay in their bit widths: BANK1 has 5 bits,
    /// BANK2 has 2.
    pub open spec fn wf(self) -> bool {
        self.bank1 < 32 && self.bank2 < 4
    }

    /// The ROM offset that an address in 0x0000..=0x7FFF selects.
    pub open spec fn rom_index(self, addr: u16) -> int {
        if addr <= 0x3FFF {
            if self.mode == 0 {
                addr as int
            } else {
                self.bank2 * 0x80000 + addr
            }
        } else {
            self.bank2 * 0x80000 + self.bank1 * 0x4000 + (addr - 0x4000)
        }
    }

    /// The RAM offset that an address in 0xA000..=0xBFFF selects.
    pub open spec fn ram_index(self, addr: u16) -> int {
        if self.mode == 0 {
            addr - 0xA000
        } else {
            self.bank2 * 0x2000 + (addr - 0xA000)
        }
    }

    /// What a read gives: the new state (an enabled RAM access clears RAMG)
    /// and the byte; `None` where the selected offset lies outside the ROM
    /// or RAM that the cartridge holds.
    pub open spec fn read(self, addr: u16) -> Option<(CartView, u8)> {
        if !in_cart_range(addr) {
            Some((self, 0))
        } else if addr <= 0x7FFF {
            let i = self.rom_index(addr);
            if i < self.rom.len() {
                Some((self, self.rom[i]))
            } else {
                None
            }
        } else if self.ramg == ram_enabled_code() {
            let i = self.ram_index(addr);
            if i < self.ram.len() {
                Some((CartView { ramg: 0, ..self }, self.ram[i]))
            } else {
                None
            }
        } else {
            Some((self, 0xFF))
        }
    }

    /// The BANK1 value that a write of `data` to 0x2000..=0x3FFF selects.
    pub open spec fn bank1_for(self, data: u8) -> u8 {
        if data == 0 {
            1
        } else if self.rom_size < 4 {
            ((data % 32) as nat % small_bank_count(self.rom_size)) as u8
        } else {
            data % 32
        }
    }

    /// What a write does: mapper registers in the ROM range, an enabled store
    /// in the RAM range; `None` where the RAM offset lies outside the RAM.
    pub open spec fn write(self, addr: u16, data: u8) -> Option<CartView> {
        if !in_cart_range(addr) {
            Some(self)
        } else if addr <= 0x1FFF {
            Some(CartView { ramg: data % 16, ..self })
        } else if addr <= 0x3FFF {
            Some(CartView { bank1: self.bank1_for(data), ..self })
        } else if addr <= 0x5FFF {
            Some(CartView { bank2: data % 4, ..self })
        } else if addr <= 0x7FFF {
            Some(CartView { mode: data % 2, ..self })
        } else if self.ramg == ram_enabled_code() {
            let i = self.ram_index(addr);
            if i < self.ram.len() {
                Some(CartView { ramg: 0, ram: self.ram.update(i, data), ..self })
            } else {
                None
            }
        } else {
            Some(self)
        }
    }
}

#[allow(non_camel_case_types)]
pub struct Cartridge_MBC1 {
    header: [u8; 80],
    pub rom: Vec<u8>,
    pub ram: Vec<u8>,
    mapper: u8,
    rom_size: u8,
    ram_size: u8,
    ramg: u8,
    bank1: u8,
    bank2: u8,
    mode: u8,
}

impl View for Cartridge_MBC1 {
    type V = CartView;

    closed spec fn view(&self) -> CartView {
        CartView {
            header: self.header@,
            rom: self.rom@,
            ram: self.ram@,
            mapper: self.mapper,
            rom_size: self.rom_size,
            ram_size: self.ram_size,
            ramg: self.ramg,
            bank1: self.bank1,
            bank2: self.bank2,
            mode: self.mode,
        }
    }
}

proof fn lemma_rom_offsets(addr: u16, bank1: u32, bank2: u32)
    by (bit_vector)
    requires
        addr <= 0x7FFF,
        bank1 < 32,
        bank2 < 4,
    ensures
        addr <= 0x3FFF ==> (addr & 0x3FFF) == addr,
        addr <= 0x3FFF ==> ((bank2 << 19) | ((addr as u32) & 0x3FFF)) == bank2 * 0x80000 + addr,
        addr > 0x3FFF ==> ((bank2 << 19) | (bank1 << 14) | ((addr as u32) & 0x3FFF)) == bank2
            * 0x80000 + bank1 * 0x4000 + (addr - 0x4000),
{
}

proof fn lemma_ram_offsets(addr: u16, bank2: u16)
    by (bit_vector)
    requires
        0xA000 <= addr <= 0xBFFF,
        bank2 < 4,
    ensures
        (addr & 0x1FFF) == addr - 0xA000,
        ((bank2 << 13) | (addr & 0x1FFF)) == bank2 * 0x2000 + (addr - 0xA000),
{
}

proof fn lemma_register_masks(data: u8, shift: u8)
    by (bit_vector)
    ensures
        (data & 0x0F) == data % 16,
        (data & 0x1F) == data % 32,
        (data & 0x07) == data % 8,
        (data & 0x03) == data % 4,
        (data & 0x01) == data % 2,
        shift == 1 ==> (1u8 << shift) == 2,
        shift == 2 ==> (1u8 << shift) == 4,
        shift == 3 ==> (1u8 << shift) == 8,
        shift == 4 ==> (1u8 << shift) == 16,
{
}

impl Cartridge_MBC1 {
    pub fn new() -> (c: Self)
        ensures
            c@.wf(),
            c@ == empty_cart(),
    {
        let c = Cartridge_MBC1 {
            header: [0; 80],
            rom: Vec::new(),
            ram: Vec::new(),
            mapper: 0,
            rom_size: 0,
            ram_size: 0,
            ramg: 0,
            bank1: 1,
            bank2: 0,
            mode: 0,
        };
        assert(c@.header =~= Seq::new(80, |i: int| 0u8));
        c
    }

    /// Takes in the 80 bytes of the cartridge header (file offsets
    /// 0x100..0x150): records it, reads the mapper type and the ROM and RAM
    /// size codes, sizes the ROM to 32 KiB << rom_size bytes of zeros and
    /// empties the RAM. Returns whether the RAM size code is one of the known
    /// codes 0..=5; with another code the RAM is left as it was.
    pub fn load_header(&mut self, header: [u8; 80]) -> (known_ram_size: bool)
        requires
            old(self)@.wf(),
            header@[0x47] == 1 || header@[0x47] == 2 || header@[0x47] == 3,
            0x8000 * pow2(header@[0x48] as nat) <= usize::MAX,
        ensures
            final(self)@.wf(),
            final(self)@ == (CartView {
                header: header@,
                mapper: header@[0x47],
                rom_size: header@[0x48],
                ram_size: header@[0x49],
                rom: Seq::new((0x8000 * pow2(header@[0x48] as nat)) as nat, |i: int| 0u8),
                ram: if header@[0x49] <= 5 { Seq::<u8>::empty() } else { old(self)@.ram },
                ..old(self)@
            }),
            known_ram_size == (header@[0x49] <= 5),
    {
        self.header = header;
        self.mapper = self.header[0x47];
        self.rom_size = self.header[0x48];
        self.ram_size = self.header[0x49];
        proof {
            let rs = self.rom_size as nat;
            vstd::arithmetic::power2::lemma_pow2_pos(rs);
            vstd::arithmetic::power2::lemma2_to64();
            vstd::arithmetic::power2::lemma2_to64_rest();
            if rs >= usize::BITS {
                if rs > usize::BITS {
                    vstd::arithmetic::power2::lemma_pow2_strictly_increases(usize::BITS as nat, rs);
                }
                assert(false);
            }
            vstd::bits::lemma_usize_shl_is_mul(1, self.rom_size as usize);
        }
        let banks: usize = 1usize << (self.rom_size as usize);
        let len: usize = 32768 * banks;
        self.rom = Vec::with_capacity(len);
        self.rom.resize(len, 0);
        assert(self.rom@ =~= Seq::new((0x8000 * pow2(header@[0x48] as nat)) as nat, |i: int| 0u8));
        match self.ram_size {
            0 | 1 => {
                self.ram = Vec::with_capacity(0);
                true
            },
            2 => {
                self.ram = Vec::with_capacity(8192);
                true
            },
            3 => {
                self.ram = Vec::with_capacity(32768);
                true
            },
            4 => {
                self.ram = Vec::with_capacity(131072);
                true
            },
            5 => {
                self.ram = Vec::with_capacity(65536);
                true
            },
            _ => false,
        }
    }

    /// Copies the start of a ROM image into the ROM: its first
    /// `min(data.len(), rom.len())` bytes are `data`'s, the rest of the ROM
    /// and everything else stay as they were.
    pub fn load_rom_bytes(&mut self, data: &[u8])
        ensures
            final(self)@ == (CartView {
                rom: Seq::new(
                    old(self)@.rom.len(),
                    |i: int|
                        if i < data@.len() {
                            data@[i]
                        } else {
                            old(self)@.rom[i]
                        },
                ),
                ..old(self)@
            }),
    {
        let n: usize = if data.len() < self.rom.len() {
            data.len()
        } else {
            self.rom.len()
        };
        let ghost old_rom = self.rom@;
        let ghost old_view = self@;
        let mut i: usize = 0;
        while i < n
            invariant
                self@ == (CartView { rom: self.rom@, ..old_view }),
                old_view.rom == old_rom,
                n <= self.rom.len(),
                n <= data.len(),
                i <= n,
                self.rom@.len() == old_rom.len(),
                n == old_rom.len() || n == data@.len(),
                forall|j: int| 0 <= j < i ==> self.rom@[j] == data@[j],
                forall|j: int| i <= j < old_rom.len() ==> self.rom@[j] == old_rom[j],
            decreases n - i,
        {
            self.rom.set(i, data[i]);
            i += 1;
        }
        proof {
            assert(self.rom@ =~= Seq::new(
                old_rom.len(),
                |j: int|
                    if j < data@.len() {
                        data@[j]
                    } else {
                        old_rom[j]
                    },
            ));
        }
    }

    /// A read that reports, with `None`, an offset outside the ROM or RAM.
    pub(crate) fn try_read(&mut self, addr: u16) -> (r: Option<u8>)
        requires
            old(self)@.wf(),
        ensures
            final(self)@.wf(),
            match old(self)@.read(addr) {
                Some((c, v)) => r == Some(v) && final(self)@ == c,
                None => r is None,
            },
    {
        if !((0x0000 <= addr && addr <= 0x7FFF) || (0xA000 <= addr && addr <= 0xBFFF)) {
            return Some(0);
        }
        if addr <= 0x7FFF {
            proof {
                lemma_rom_offsets(addr, self.bank1 as u32, self.bank2 as u32);
            }
        }
        // read from ROM
        if 0x0000 <= addr && addr <= 0x3FFF {
            let index: usize = if self.mode == 0 {
                (addr & 0b0011111111111111) as usize
            } else {
                let bank_addr = (addr as u32) & 0b0011111111111111;
                let bank2 = (self.bank2 as u32) << 19;
                (bank2 | bank_addr) as usize
            };
            if index < self.rom.len() {
                return Some(self.rom[index]);
            } else {
                return None;
            }
        }
        if 0x4000 <= addr && addr <= 0x7FFF {
            let bank_addr = (addr as u32) & 0b0011111111111111;
            let bank1 = (self.bank1 as u32) << 14;
            let bank2 = (self.bank2 as u32) << 19;
            let index = (bank2 | bank1 | bank_addr) as usize;
            if index < self.rom.len() {
                return Some(self.rom[index]);
            } else {
                return None;
            }
        }
        // read from SRAM
        if self.ramg == 0xA {
            self.ramg = 0x0;
            proof {
                lemma_ram_offsets(addr, self.bank2 as u16);
            }
            let index: usize = if self.mode == 0 {
                (addr & 0b0001111111111111) as usize
            } else {
                (((self.bank2 as u16) << 13) | (addr & 0b0001111111111111)) as usize
            };
            if index < self.ram.len() {
                Some(self.ram[index])
            } else {
                None
            }
        } else {
            Some(0xFF)
        }
    }

    pub fn read(&mut self, addr: u16) -> (r: u8)
        requires
            old(self)@.wf(),
            old(self)@.read(addr) is Some,
        ensures
            final(self)@.wf(),
            Some((final(self)@, r)) == old(self)@.read(addr),
    {
        self.try_read(addr).unwrap()
    }

    /// A write that reports, with `false`, a RAM offset outside the RAM.
    pub(crate) fn try_write(&mut self, addr: u16, data: u8) -> (ok: bool)
        requires
            old(self)@.wf(),
        ensures
            final(self)@.wf(),
            match old(self)@.write(addr, data) {
                Some(c) => ok && final(self)@ == c,
                None => !ok,
            },
    {
        let mut data = data;
        // write to mapper registers
        if !((0x0000 <= addr && addr <= 0x7FFF) || (0xA000 <= addr && addr <= 0xBFFF)) {
            return true;
        }
        proof {
            lemma_register_masks(data, 0);
        }
        if 0x0000 <= addr && addr <= 0x1FFF {
            self.ramg = data & 0b00001111;
        }
        if 0x2000 <= addr && addr <= 0x3FFF {
            if data == 0 {
                self.bank1 = 1;
            } else {
                data = data & 0b00011111;
                if self.rom_size < 0x4 {
                    proof {
                        lemma_register_masks(data, (self.rom_size + 1) as u8);
                    }
                    data = data & (1u8 << (self.rom_size + 1)).wrapping_sub(1);
                }
                self.bank1 = data;
            }
        }
        if 0x4000 <= addr && addr <= 0x5FFF {
            self.bank2 = data & 0b00000011;
        }
        if 0x6000 <= addr && addr <= 0x7FFF {
            self.mode = data & 0b00000001;
        }
        // write to SRAM
        if 0xA000 <= addr && addr <= 0xBFFF {
            if self.ramg == 0xA {
                self.ramg = 0x0;
                proof {
                    lemma_ram_offsets(addr, self.bank2 as u16);
                }
                let index: usize = if self.mode == 0 {
                    (addr & 0b0001111111111111) as usize
                } else {
                    (((self.bank2 as u16) << 13) | (addr & 0b0001111111111111)) as usize
                };
                if index < self.ram.len() {
                    self.ram[index] = data;
                } else {
                    return false;
                }
            }
        }
        true
    }

    pub fn write(&mut self, addr: u16, data: u8)
        requires
            old(self)@.wf(),
            old(self)@.write(addr, data) is Some,
        ensures
            final(self)@.wf(),
            Some(final(self)@) == old(self)@.write(addr, data),
    {
        let ok = self.try_write(addr, data);
    }
}

/// A write with RAM enabled first.
pub open spec fn enabled_write(c: CartView, addr: u16, data: u8) -> Option<CartView> {
    match c.write(0x0000, 0x0A) {
        Some(c1) => c1.write(addr, data),
        None => None,
    }
}

/// A read with RAM enabled first.
pub open spec fn enabled_read(c: CartView, addr: u16) -> Option<(CartView, u8)> {
    match c.write(0x0000, 0x0A) {
        Some(c1) => c1.read(addr),
        None => None,
    }
}

/// With RAM enabled (0x0A written to 0x0000..=0x1FFF) before each access,
/// a read of the external RAM gives back what a write stored; each access
/// clears RAMG again.
pub proof fn lemma_ram_round_trip(c: CartView, addr: u16, data: u8)
    requires
        0xA000 <= addr <= 0xBFFF,
        c.ram_index(addr) < c.ram.len(),
    ensures
        enabled_write(c, addr, data) matches Some(c2) && c2.ramg == 0 && (enabled_read(c2, addr) matches Some(
            (c3, v),
        ) && v == data && c3.ramg == 0),
{
}

/// A read of the ROM, or of the RAM while it is not enabled, changes
/// nothing.
pub proof fn lemma_read_while_disabled(c: CartView, addr: u16)
    requires
        c.ramg != ram_enabled_code() || addr <= 0x7FFF,
    ensures
        c.read(addr) matches Some((c2, v)) ==> c2 == c,
{
}

/// The registers keep their widths whatever is written.
pub proof fn lemma_write_keeps_wf(c: CartView, addr: u16, data: u8)
    requires
        c.wf(),
    ensures
        c.write(addr, data) matches Some(c2) ==> c2.wf(),
{
}

/// Selecting a ROM bank by writing `n` to 0x2000..=0x3FFF: 0x4000..=0x7FFF
/// then reads bank `n` modulo 32 (and, for ROMs of fewer than 32 banks,
/// modulo their 2^(rom_size + 1) banks), bank 1 for `n` = 0, offset by
/// BANK2 times 32 banks; 0x0000..=0x3FFF reads the ROM's start in mode 0.
pub proof fn lemma_rom_banks(c: CartView, n: u8, x: u16)
    requires
        c.wf(),
        x <= 0x3FFF,
    ensures
        ({
            let bank: int = if n == 0 {
                1
            } else if c.rom_size < 4 {
                (n % 32) as int % pow2((c.rom_size + 1) as nat) as int
            } else {
                (n % 32) as int
            };
            let i = c.bank2 * 0x80000 + bank * 0x4000 + x;
            &&& c.write(0x2000, n) matches Some(c2) && c2.read((0x4000 + x) as u16) == (if i
                < c2.rom.len() {
                Some((c2, c.rom[i]))
            } else {
                None
            })
            &&& c.mode == 0 ==> c.read(x) == (if x < c.rom.len() {
                Some((c, c.rom[x as int]))
            } else {
                None
            })
        }),
{
    vstd::arithmetic::power2::lemma2_to64();
}

} // verus!
